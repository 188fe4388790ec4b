use vstd::prelude::*;
use crate::app::texts;
use crate::history::{appended_bounded, push_history, records_line, HISTORY_LIMIT};
use crate::text::{chars_of, copy_range, string_from_chars};

verus! {

broadcast use vstd::string::group_string_axioms;

/// Moves the cursor to the start of the line and clears it.
pub const CLEAR_LINE: &'static str = "\r\x1B[K";

/// Switches to the bright colour typed text is shown in.
pub const BRIGHT: &'static str = "\x1B[97m";

/// Switches to the dim colour a completion preview is shown in.
pub const DIM: &'static str = "\x1B[90m";

/// Switches back to the default colour.
pub const DEFAULT_COLOR: &'static str = "\x1B[39m";

/// Erases the character before the cursor.
pub const ERASE_CHAR: &'static str = "\u{8} \u{8}";

/// Ends the line.
pub const NEW_LINE: &'static str = "\n";

/// A key press, as the console reports it.
#[derive(Clone, Copy, Debug, PartialEq, Eq, Structural)]
pub enum ConsoleEvent {
    Char(char),
    Backspace,
    Up,
    Down,
    Enter,
    Tab,
    Ignored,
}

/// The editor as a value: the line being typed, the history (oldest first),
/// the history entry being browsed, the draft put aside while browsing, and
/// the completions on offer with the one previewed.
#[verifier::ext_equal]
pub struct EditorView {
    pub buffer: Seq<char>,
    pub history: Seq<Seq<char>>,
    pub history_index: Option<int>,
    pub draft: Seq<char>,
    pub completions: Seq<Seq<char>>,
    pub completion_index: Option<int>,
}

/// One key press as a value: the editor after it, what is echoed, the line
/// submitted, whether the history changed, and whether completions are
/// wanted for the line.
pub struct EditorStep {
    pub editor: EditorView,
    pub echo: Seq<char>,
    pub submitted: Option<Seq<char>>,
    pub history_changed: bool,
    pub wants_completions: bool,
}

/// A step that only changes the editor and echoes `echo`.
pub open spec fn plain_step(editor: EditorView, echo: Seq<char>) -> EditorStep {
    EditorStep { editor, echo, submitted: None, history_changed: false, wants_completions: false }
}

/// The line redrawn with `completion` previewed after it.
pub open spec fn preview_echo(buffer: Seq<char>, completion: Seq<char>) -> Seq<char> {
    CLEAR_LINE@ + BRIGHT@ + buffer + DIM@ + completion + DEFAULT_COLOR@
}

/// Whether a key press takes the previewed completion into the line.
pub open spec fn commits_preview(event: ConsoleEvent) -> bool {
    (event matches ConsoleEvent::Char(c) && (c == ' ' || c == '/' || c == '\\')) || event is Enter
}

/// What any key but Tab does first: a previewed completion is taken into
/// the line (by a space, a slash or Enter) or dropped, the line is redrawn,
/// and the completions are forgotten.
pub open spec fn settle_preview(e: EditorView, event: ConsoleEvent) -> (EditorView, Seq<char>) {
    match e.completion_index {
        Some(i) => {
            let buffer = if commits_preview(event) {
                e.buffer + e.completions[i]
            } else {
                e.buffer
            };
            (
                EditorView { buffer, completions: Seq::empty(), completion_index: None, ..e },
                CLEAR_LINE@ + BRIGHT@ + buffer + DEFAULT_COLOR@,
            )
        },
        None => (EditorView { completions: Seq::empty(), ..e }, Seq::empty()),
    }
}

/// The effect of one key press.
pub open spec fn editor_step(e: EditorView, event: ConsoleEvent, locked: bool) -> EditorStep {
    if locked {
        plain_step(
            EditorView {
                buffer: Seq::empty(),
                history: e.history,
                history_index: None,
                draft: Seq::empty(),
                completions: Seq::empty(),
                completion_index: None,
            },
            if e.buffer.len() > 0 || e.completion_index is Some {
                CLEAR_LINE@
            } else {
                Seq::empty()
            },
        )
    } else if event is Tab {
        match e.completion_index {
            Some(i) => {
                let next = (i + 1) % (e.completions.len() as int);
                plain_step(
                    EditorView { completion_index: Some(next), ..e },
                    preview_echo(e.buffer, e.completions[next]),
                )
            },
            None => EditorStep {
                editor: e,
                echo: Seq::empty(),
                submitted: None,
                history_changed: false,
                wants_completions: true,
            },
        }
    } else if event is Ignored {
        plain_step(e, Seq::empty())
    } else {
        let (p, pre) = settle_preview(e, event);
        match event {
            ConsoleEvent::Char(c) => plain_step(
                EditorView { buffer: p.buffer.push(c), ..p },
                pre + BRIGHT@ + seq![c] + DEFAULT_COLOR@,
            ),
            ConsoleEvent::Backspace => if p.buffer.len() > 0 {
                plain_step(EditorView { buffer: p.buffer.drop_last(), ..p }, pre + ERASE_CHAR@)
            } else {
                plain_step(p, pre)
            },
            ConsoleEvent::Up => if p.history.len() == 0 {
                plain_step(p, pre)
            } else {
                let next = match p.history_index {
                    None => p.history.len() - 1,
                    Some(i) => if i == 0 {
                        0
                    } else {
                        i - 1
                    },
                };
                let draft = if p.history_index is None {
                    p.buffer
                } else {
                    p.draft
                };
                plain_step(
                    EditorView { buffer: p.history[next], history_index: Some(next), draft, ..p },
                    pre + CLEAR_LINE@ + p.history[next],
                )
            },
            ConsoleEvent::Down => match p.history_index {
                None => plain_step(p, pre),
                Some(i) => if i + 1 < p.history.len() {
                    plain_step(
                        EditorView { buffer: p.history[i + 1], history_index: Some(i + 1), ..p },
                        pre + CLEAR_LINE@ + p.history[i + 1],
                    )
                } else {
                    plain_step(
                        EditorView { buffer: p.draft, history_index: None, draft: Seq::empty(), ..p },
                        pre + CLEAR_LINE@ + p.draft,
                    )
                },
            },
            _ => {
                let line = p.buffer;
                let changed = records_line(p.history, line);
                EditorStep {
                    editor: EditorView {
                        buffer: Seq::empty(),
                        history: if changed {
                            appended_bounded(p.history, line, HISTORY_LIMIT as nat)
                        } else {
                            p.history
                        },
                        history_index: None,
                        draft: Seq::empty(),
                        ..p
                    },
                    echo: pre + NEW_LINE@,
                    submitted: Some(line),
                    history_changed: changed,
                    wants_completions: false,
                }
            },
        }
    }
}

/// The view of an optional index.
pub open spec fn index_view(i: Option<usize>) -> Option<int> {
    match i {
        Some(i) => Some(i as int),
        None => None,
    }
}

/// The text of an optional string.
pub open spec fn line_view(s: Option<String>) -> Option<Seq<char>> {
    match s {
        Some(s) => Some(s@),
        None => None,
    }
}

/// The console's line editor.
#[derive(Debug)]
pub struct LineEditor {
    pub buffer: Vec<char>,
    pub history: Vec<String>,
    pub history_index: Option<usize>,
    pub draft: Vec<char>,
    pub completions: Vec<String>,
    pub completion_index: Option<usize>,
}

/// What a key press asks of the console around the editor.
#[derive(Debug)]
pub struct Step {
    /// Text to write to the terminal.
    pub echo: String,
    /// A line submitted with Enter.
    pub submitted: Option<String>,
    /// Whether the history changed (and should be saved).
    pub history_changed: bool,
    /// Whether the caller should compute completions for the line and
    /// hand them to [`LineEditor::offer_completions`].
    pub wants_completions: bool,
}

/// Appends the characters of `text`.
fn push_text(out: &mut Vec<char>, text: &str)
    ensures
        final(out)@ == old(out)@ + text@,
{
    let cs = chars_of(text);
    let mut i: usize = 0;
    while i < cs.len()
        invariant
            i <= cs@.len(),
            cs@ == text@,
            out@ == old(out)@ + cs@.take(i as int),
        decreases cs@.len() - i,
    {
        out.push(cs[i]);
        i = i + 1;
        proof {
            assert(cs@.take(i as int) == cs@.take(i - 1).push(cs@[i - 1]));
        }
    }
    assert(cs@.take(cs@.len() as int) == cs@);
}

/// Appends the characters of `chars`.
fn push_chars(out: &mut Vec<char>, chars: &[char])
    ensures
        final(out)@ == old(out)@ + chars@,
{
    let mut i: usize = 0;
    while i < chars.len()
        invariant
            i <= chars@.len(),
            out@ == old(out)@ + chars@.take(i as int),
        decreases chars@.len() - i,
    {
        out.push(chars[i]);
        i = i + 1;
        proof {
            assert(chars@.take(i as int) == chars@.take(i - 1).push(chars@[i - 1]));
        }
    }
    assert(chars@.take(chars@.len() as int) == chars@);
}

impl LineEditor {
    /// The editor as a value.
    pub open spec fn model(&self) -> EditorView {
        EditorView {
            buffer: self.buffer@,
            history: texts(self.history@),
            history_index: index_view(self.history_index),
            draft: self.draft@,
            completions: texts(self.completions@),
            completion_index: index_view(self.completion_index),
        }
    }

    /// The indices point into the history and the completions.
    pub open spec fn wf(&self) -> bool {
        &&& (self.history_index matches Some(i) ==> i < self.history@.len())
        &&& (self.completion_index matches Some(i) ==> i < self.completions@.len())
    }

    /// An empty line over a loaded history.
    pub fn new(history: Vec<String>) -> (editor: LineEditor)
        ensures
            editor.wf(),
            editor.model() == (EditorView {
                buffer: Seq::empty(),
                history: texts(history@),
                history_index: None,
                draft: Seq::empty(),
                completions: Seq::empty(),
                completion_index: None,
            }),
    {
        let editor = LineEditor {
            buffer: Vec::new(),
            history,
            history_index: None,
            draft: Vec::new(),
            completions: Vec::new(),
            completion_index: None,
        };
        assert(editor.model().completions == Seq::<Seq<char>>::empty());
        editor
    }
}


/// The editor after completions were offered for its line: the first one
/// is previewed, if there is any.
pub open spec fn offered(e: EditorView, completions: Seq<Seq<char>>) -> (EditorView, Seq<char>) {
    if completions.len() > 0 {
        (
            EditorView { completions, completion_index: Some(0), ..e },
            preview_echo(e.buffer, completions[0]),
        )
    } else {
        (EditorView { completions, ..e }, Seq::empty())
    }
}

/// Whether a key press takes the previewed completion into the line.
fn takes_preview(event: ConsoleEvent) -> (takes: bool)
    ensures
        takes == commits_preview(event),
{
    match event {
        ConsoleEvent::Char(c) => c == ' ' || c == '/' || c == '\\',
        ConsoleEvent::Enter => true,
        _ => false,
    }
}

impl LineEditor {
    /// Takes a previewed completion into the line or drops it, redrawing
    /// the line, and forgets the completions.
    fn settle(&mut self, event: ConsoleEvent, echo: &mut Vec<char>)
        requires
            old(self).wf(),
        ensures
            final(self).wf(),
            final(self).model() =~= settle_preview(old(self).model(), event).0,
            final(echo)@ == old(echo)@ + settle_preview(old(self).model(), event).1,
    {
        match self.completion_index {
            Some(i) => {
                if takes_preview(event) {
                    let completion = chars_of(self.completions[i].as_str());
                    push_chars(&mut self.buffer, completion.as_slice());
                }
                push_text(echo, CLEAR_LINE);
                push_text(echo, BRIGHT);
                push_chars(echo, self.buffer.as_slice());
                push_text(echo, DEFAULT_COLOR);
                self.completion_index = None;
            },
            None => {},
        }
        self.completions.clear();
        assert(texts(self.completions@) =~= Seq::<Seq<char>>::empty());
    }

    /// Handles one key press. While `locked` (a script runs unpaused) every
    /// key, Enter included, is dropped and any partial line is discarded.
    pub fn press(&mut self, event: ConsoleEvent, locked: bool) -> (step: Step)
        requires
            old(self).wf(),
        ensures
            final(self).wf(),
            final(self).model() =~= editor_step(old(self).model(), event, locked).editor,
            step.echo@ == editor_step(old(self).model(), event, locked).echo,
            line_view(step.submitted) == editor_step(old(self).model(), event, locked).submitted,
            step.history_changed == editor_step(old(self).model(), event, locked).history_changed,
            step.wants_completions == editor_step(old(self).model(), event, locked).wants_completions,
    {
        let ghost e = self.model();
        let mut echo: Vec<char> = Vec::new();
        if locked {
            if self.buffer.len() > 0 || self.completion_index.is_some() {
                push_text(&mut echo, CLEAR_LINE);
            }
            self.buffer.clear();
            self.history_index = None;
            self.draft.clear();
            self.completions.clear();
            self.completion_index = None;
            assert(texts(self.completions@) =~= Seq::<Seq<char>>::empty());
            return Step {
                echo: string_from_chars(echo.as_slice()),
                submitted: None,
                history_changed: false,
                wants_completions: false,
            };
        }
        match event {
            ConsoleEvent::Tab => {
                match self.completion_index {
                    Some(i) => {
                        let len = self.completions.len();
                        assert(i < len);
                        let next = if i >= len - 1 {
                            0
                        } else {
                            i + 1
                        };
                        proof {
                            if i + 1 == len {
                                vstd::arithmetic::div_mod::lemma_mod_self_0(len as int);
                            } else {
                                vstd::arithmetic::div_mod::lemma_small_mod((i + 1) as nat, len as nat);
                            }
                        }
                        self.completion_index = Some(next);
                        let completion = chars_of(self.completions[next].as_str());
                        push_text(&mut echo, CLEAR_LINE);
                        push_text(&mut echo, BRIGHT);
                        push_chars(&mut echo, self.buffer.as_slice());
                        push_text(&mut echo, DIM);
                        push_chars(&mut echo, completion.as_slice());
                        push_text(&mut echo, DEFAULT_COLOR);
                        proof {
                            assert(echo@ =~= preview_echo(e.buffer, e.completions[next as int]));
                        }
                        return Step {
                            echo: string_from_chars(echo.as_slice()),
                            submitted: None,
                            history_changed: false,
                            wants_completions: false,
                        };
                    },
                    None => {
                        return Step {
                            echo: string_from_chars(echo.as_slice()),
                            submitted: None,
                            history_changed: false,
                            wants_completions: true,
                        };
                    },
                }
            },
            ConsoleEvent::Ignored => {
                return Step {
                    echo: string_from_chars(echo.as_slice()),
                    submitted: None,
                    history_changed: false,
                    wants_completions: false,
                };
            },
            _ => {},
        }
        self.settle(event, &mut echo);
        let ghost p = self.model();
        let ghost pre = echo@;
        match event {
            ConsoleEvent::Char(c) => {
                self.buffer.push(c);
                push_text(&mut echo, BRIGHT);
                echo.push(c);
                push_text(&mut echo, DEFAULT_COLOR);
                proof {
                    assert(echo@ =~= pre + BRIGHT@ + seq![c] + DEFAULT_COLOR@);
                }
            },
            ConsoleEvent::Backspace => {
                if self.buffer.len() > 0 {
                    self.buffer.pop();
                    push_text(&mut echo, ERASE_CHAR);
                }
            },
            ConsoleEvent::Up => {
                if self.history.len() > 0 {
                    let next: usize = match self.history_index {
                        None => {
                            self.draft = copy_range(self.buffer.as_slice(), 0, self.buffer.len());
                            proof {
                                assert(self.draft@ =~= p.buffer);
                            }
                            self.history.len() - 1
                        },
                        Some(i) => if i == 0 {
                            0
                        } else {
                            i - 1
                        },
                    };
                    self.history_index = Some(next);
                    let content = chars_of(self.history[next].as_str());
                    push_text(&mut echo, CLEAR_LINE);
                    push_chars(&mut echo, content.as_slice());
                    self.buffer = content;
                    proof {
                        assert(p.history[next as int] == self.history@[next as int]@);
                        assert(echo@ =~= pre + CLEAR_LINE@ + p.history[next as int]);
                    }
                }
            },
            ConsoleEvent::Down => {
                match self.history_index {
                    None => {},
                    Some(i) => {
                        let len = self.history.len();
                        assert(i < len);
                        if i < len - 1 {
                            self.history_index = Some(i + 1);
                            let content = chars_of(self.history[i + 1].as_str());
                            push_text(&mut echo, CLEAR_LINE);
                            push_chars(&mut echo, content.as_slice());
                            self.buffer = content;
                            proof {
                                assert(p.history[i + 1] == self.history@[i + 1]@);
                                assert(echo@ =~= pre + CLEAR_LINE@ + p.history[i + 1]);
                            }
                        } else {
                            self.history_index = None;
                            let mut draft: Vec<char> = Vec::new();
                            std::mem::swap(&mut draft, &mut self.draft);
                            push_text(&mut echo, CLEAR_LINE);
                            push_chars(&mut echo, draft.as_slice());
                            self.buffer = draft;
                            proof {
                                assert(echo@ =~= pre + CLEAR_LINE@ + p.draft);
                            }
                        }
                    },
                }
            },
            _ => {
                push_text(&mut echo, NEW_LINE);
                let line = string_from_chars(self.buffer.as_slice());
                self.buffer.clear();
                self.history_index = None;
                self.draft.clear();
                let changed = push_history(&mut self.history, line.as_str());
                return Step {
                    echo: string_from_chars(echo.as_slice()),
                    submitted: Some(line),
                    history_changed: changed,
                    wants_completions: false,
                };
            },
        }
        Step {
            echo: string_from_chars(echo.as_slice()),
            submitted: None,
            history_changed: false,
            wants_completions: false,
        }
    }

    /// Offers completions for the line after a Tab asked for them; the
    /// first one is previewed. Returns what to echo.
    pub fn offer_completions(&mut self, completions: Vec<String>) -> (echo: String)
        requires
            old(self).wf(),
            old(self).completion_index is None,
        ensures
            final(self).wf(),
            final(self).model() =~= offered(old(self).model(), texts(completions@)).0,
            echo@ == offered(old(self).model(), texts(completions@)).1,
    {
        let ghost e = self.model();
        let mut echo: Vec<char> = Vec::new();
        self.completions = completions;
        if self.completions.len() > 0 {
            self.completion_index = Some(0);
            let completion = chars_of(self.completions[0].as_str());
            push_text(&mut echo, CLEAR_LINE);
            push_text(&mut echo, BRIGHT);
            push_chars(&mut echo, self.buffer.as_slice());
            push_text(&mut echo, DIM);
            push_chars(&mut echo, completion.as_slice());
            push_text(&mut echo, DEFAULT_COLOR);
            proof {
                assert(echo@ =~= preview_echo(e.buffer, texts(self.completions@)[0]));
            }
        }
        string_from_chars(echo.as_slice())
    }
}


/// Law: while locked, a key press submits nothing, leaves the history as it
/// is and discards the partial line.
pub proof fn law_locked_keys_do_nothing(e: EditorView, event: ConsoleEvent)
    ensures
        editor_step(e, event, true).submitted is None,
        !editor_step(e, event, true).history_changed,
        editor_step(e, event, true).editor.history == e.history,
        editor_step(e, event, true).editor.buffer.len() == 0,
{
}

/// Law: browsing up into the history and back down past the newest entry
/// gives back the line that was being typed.
pub proof fn law_down_after_up_restores_the_draft(e: EditorView)
    requires
        e.history.len() > 0,
        e.history_index is None,
        e.completion_index is None,
    ensures
        ({
            let up = editor_step(e, ConsoleEvent::Up, false).editor;
            let down = editor_step(up, ConsoleEvent::Down, false).editor;
            &&& up.history_index == Some(e.history.len() - 1)
            &&& up.buffer == e.history.last()
            &&& down.buffer == e.buffer
            &&& down.history_index is None
        }),
{
}

/// Law: Enter submits the typed line; it is added to the history unless it
/// is blank, `exit`, or the same as the newest entry, and then it is the
/// newest entry.
pub proof fn law_enter_records_new_lines_once(e: EditorView)
    requires
        e.completion_index is None,
    ensures
        editor_step(e, ConsoleEvent::Enter, false).submitted == Some(e.buffer),
        editor_step(e, ConsoleEvent::Enter, false).history_changed == records_line(e.history, e.buffer),
        e.history.len() > 0 && e.history.last() == e.buffer ==> !editor_step(
            e,
            ConsoleEvent::Enter,
            false,
        ).history_changed,
        editor_step(e, ConsoleEvent::Enter, false).history_changed ==> editor_step(
            e,
            ConsoleEvent::Enter,
            false,
        ).editor.history.last() == e.buffer,
{
}

/// Law: Tab walks forward through the completions on offer, one at a time,
/// back to the first after the last: it previews the completion after the one
/// previewed, and leaves the line, the history and the offer as they were.
pub proof fn law_tab_previews_the_next_completion(e: EditorView, i: int)
    requires
        e.completion_index == Some(i),
        0 <= i < e.completions.len(),
    ensures
        ({
            let step = editor_step(e, ConsoleEvent::Tab, false);
            let next = if i + 1 < e.completions.len() {
                i + 1
            } else {
                0
            };
            &&& step.editor.completion_index == Some(next)
            &&& step.echo == preview_echo(e.buffer, e.completions[next])
            &&& step.editor.buffer == e.buffer
            &&& step.editor.history == e.history
            &&& step.editor.completions == e.completions
            &&& step.submitted is None
        }),
{
    let n = e.completions.len() as int;
    if i + 1 < n {
        vstd::arithmetic::div_mod::lemma_small_mod((i + 1) as nat, n as nat);
    } else {
        vstd::arithmetic::div_mod::lemma_mod_self_0(n);
    }
}

} // verus!
