use vstd::prelude::*;

verus! {

broadcast use vstd::string::group_string_axioms;

/// The text an error value is shown with: `name: message` (or the name
/// alone when the message is missing or empty), then the stack trace on
/// its own lines when there is one. A missing name reads `Error`.
pub open spec fn exception_text(name: Option<Seq<char>>, message: Option<Seq<char>>, stack: Option<Seq<char>>) -> Seq<char> {
    let name = match name {
        Some(n) => n,
        None => "Error"@,
    };
    let header = match message {
        Some(m) => if m.len() > 0 {
            name + ": "@ + m
        } else {
            name
        },
        None => name,
    };
    match stack {
        Some(s) => if s.len() > 0 {
            header + "\n"@ + s
        } else {
            header
        },
        None => header,
    }
}

/// The view of an optional string.
pub open spec fn opt_view(s: Option<String>) -> Option<Seq<char>> {
    match s {
        Some(s) => Some(s@),
        None => None,
    }
}

/// Formats an error value for the console.
pub fn describe_exception(name: Option<String>, message: Option<String>, stack: Option<String>) -> (text: String)
    ensures
        text@ == exception_text(opt_view(name), opt_view(message), opt_view(stack)),
{
    let mut text = match name {
        Some(n) => n,
        None => String::from_str("Error"),
    };
    match message {
        Some(m) => {
            if !m.as_str().is_empty() {
                text.append(": ");
                text.append(m.as_str());
            }
        },
        None => {},
    }
    match stack {
        Some(s) => {
            if !s.as_str().is_empty() {
                text.append("\n");
                text.append(s.as_str());
            }
        },
        None => {},
    }
    text
}

/// The parts joined with single spaces.
pub open spec fn spaced(parts: Seq<Seq<char>>) -> Seq<char>
    decreases parts.len(),
{
    if parts.len() == 0 {
        Seq::empty()
    } else if parts.len() == 1 {
        parts[0]
    } else {
        spaced(parts.drop_last()) + " "@ + parts.last()
    }
}

/// A console line: the formatted arguments joined with single spaces.
pub fn console_line(parts: &Vec<String>) -> (line: String)
    ensures
        line@ == spaced(parts@.map_values(|p: String| p@)),
{
    let ghost views = parts@.map_values(|p: String| p@);
    let mut line = String::new();
    let mut i: usize = 0;
    while i < parts.len()
        invariant
            i <= parts@.len(),
            views == parts@.map_values(|p: String| p@),
            line@ == spaced(views.take(i as int)),
        decreases parts@.len() - i,
    {
        proof {
            assert(views.take(i + 1).drop_last() =~= views.take(i as int));
            assert(views.take(i + 1).last() == parts@[i as int]@);
        }
        if i > 0 {
            line.append(" ");
        } else {
            proof {
                assert(views.take(1)[0] == parts@[0]@);
            }
        }
        line.append(parts[i].as_str());
        i = i + 1;
    }
    assert(views.take(parts@.len() as int) =~= views);
    line
}

} // verus!
