use rev_idle::console::completion::{completion_query, path_completions, CompletionQuery, DirEntryInfo};
use rev_idle::console::editing::{ConsoleEvent, LineEditor};

struct Outcome {
    lines: Vec<String>,
    saved: Option<Vec<String>>,
    exhausted: bool,
}

/// Feeds key presses to an editor the way the console loop does: completions
/// for commands come from the line itself, lines go to `on_line`, and the
/// run ends when `on_line` says so or the keys run out.
fn drive(
    events: Vec<ConsoleEvent>,
    locked: bool,
    history: Vec<String>,
    mut on_line: impl FnMut(&str) -> bool,
) -> Outcome {
    let mut editor = LineEditor::new(history);
    let mut outcome = Outcome { lines: Vec::new(), saved: None, exhausted: true };
    for event in events {
        let step = editor.press(event, locked);
        if step.wants_completions {
            let line: String = editor.buffer.iter().collect();
            let completions = match completion_query(&line) {
                CompletionQuery::Commands(list) => list,
                _ => Vec::new(),
            };
            editor.offer_completions(completions);
        }
        if step.history_changed {
            outcome.saved = Some(editor.history.clone());
        }
        if let Some(line) = step.submitted {
            outcome.lines.push(line.clone());
            if on_line(&line) {
                outcome.exhausted = false;
                break;
            }
        }
    }
    outcome
}

fn chars(text: &str) -> Vec<ConsoleEvent> {
    text.chars().map(ConsoleEvent::Char).collect()
}

fn with(mut events: Vec<ConsoleEvent>, more: &[ConsoleEvent]) -> Vec<ConsoleEvent> {
    events.extend_from_slice(more);
    events
}

#[test]
fn submits_a_line_on_enter_and_stops_when_on_line_requests_it() {
    let outcome = drive(with(chars("exit"), &[ConsoleEvent::Enter]), false, Vec::new(), |_| true);
    assert!(!outcome.exhausted);
    assert_eq!(outcome.lines, vec!["exit".to_string()]);
}

#[test]
fn backspace_removes_the_previous_character() {
    let events = vec![
        ConsoleEvent::Char('h'),
        ConsoleEvent::Char('x'),
        ConsoleEvent::Backspace,
        ConsoleEvent::Char('i'),
        ConsoleEvent::Enter,
    ];
    let outcome = drive(events, false, Vec::new(), |_| true);
    assert_eq!(outcome.lines, vec!["hi".to_string()]);
}

#[test]
fn tab_cycles_commands_and_space_commits_the_preview() {
    for (events, expected) in [
        (with(chars("l"), &[ConsoleEvent::Tab, ConsoleEvent::Char(' '), ConsoleEvent::Enter]), "load "),
        (
            with(chars("re"), &[ConsoleEvent::Tab, ConsoleEvent::Ignored, ConsoleEvent::Tab, ConsoleEvent::Enter]),
            "resume",
        ),
        (with(chars("l"), &[ConsoleEvent::Tab, ConsoleEvent::Char('x'), ConsoleEvent::Enter]), "lx"),
    ] {
        let outcome = drive(events, false, Vec::new(), |_| true);
        assert_eq!(outcome.lines, vec![expected.to_string()]);
    }
}

#[test]
fn keystrokes_including_enter_are_dropped_while_locked() {
    let outcome = drive(with(chars("ex"), &[ConsoleEvent::Enter]), true, Vec::new(), |_| false);
    assert!(outcome.exhausted);
    assert!(outcome.lines.is_empty());
}

#[test]
fn up_and_down_walk_history_and_restore_the_in_progress_draft() {
    let events = vec![
        ConsoleEvent::Char('x'),
        ConsoleEvent::Up,
        ConsoleEvent::Up,
        ConsoleEvent::Down,
        ConsoleEvent::Enter,
    ];
    let history = vec!["load a.js".to_string(), "reload".to_string()];
    let outcome = drive(events, false, history, |_| true);
    assert_eq!(outcome.lines, vec!["reload".to_string()]);
}

#[test]
fn down_past_the_newest_entry_restores_the_draft_typed_before_browsing() {
    let events = with(chars("hi"), &[ConsoleEvent::Up, ConsoleEvent::Down, ConsoleEvent::Enter]);
    let outcome = drive(events, false, vec!["reload".to_string()], |_| true);
    assert_eq!(outcome.lines, vec!["hi".to_string()]);
}

#[test]
fn submitted_lines_are_appended_to_history_without_immediate_duplicates() {
    let mut events = with(chars("reload"), &[ConsoleEvent::Enter]);
    events.extend(with(chars("reload"), &[ConsoleEvent::Enter]));
    let mut remaining = 2;
    let outcome = drive(events, false, Vec::new(), |_| {
        remaining -= 1;
        remaining == 0
    });
    assert_eq!(outcome.saved, Some(vec!["reload".to_string()]));
}

#[test]
fn typed_characters_are_echoed_in_bright_colour() {
    let mut editor = LineEditor::new(Vec::new());
    let step = editor.press(ConsoleEvent::Char('a'), false);
    assert_eq!(step.echo, "\x1B[97ma\x1B[39m");
    let step = editor.press(ConsoleEvent::Backspace, false);
    assert_eq!(step.echo, "\u{8} \u{8}");
    let step = editor.press(ConsoleEvent::Backspace, false);
    assert_eq!(step.echo, "");
}

#[test]
fn locking_clears_a_partial_line_on_screen() {
    let mut editor = LineEditor::new(Vec::new());
    editor.press(ConsoleEvent::Char('a'), false);
    let step = editor.press(ConsoleEvent::Char('b'), true);
    assert_eq!(step.echo, "\r\x1B[K");
    assert!(editor.buffer.is_empty());
    let step = editor.press(ConsoleEvent::Char('b'), true);
    assert_eq!(step.echo, "");
}

#[test]
fn completion_query_finds_commands_and_load_paths() {
    match completion_query("  re") {
        CompletionQuery::Commands(list) => assert_eq!(list, vec!["load".to_string(), "sume".to_string()]),
        other => panic!("{other:?}"),
    }
    match completion_query("load \"C:\\Scripts/fa") {
        CompletionQuery::Directory { directory, prefix, quoted } => {
            assert_eq!(directory, "C:\\Scripts/");
            assert_eq!(prefix, "fa");
            assert!(quoted);
        }
        other => panic!("{other:?}"),
    }
    match completion_query("load scr") {
        CompletionQuery::Directory { directory, prefix, quoted } => {
            assert_eq!(directory, ".");
            assert_eq!(prefix, "scr");
            assert!(!quoted);
        }
        other => panic!("{other:?}"),
    }
    assert!(matches!(completion_query("reload now"), CompletionQuery::Nothing));
}

#[test]
fn path_completions_keep_directories_and_scripts_in_order() {
    let entries = vec![
        DirEntryInfo { name: "farm.txt".to_string(), is_dir: false },
        DirEntryInfo { name: "Farm script.JS".to_string(), is_dir: false },
        DirEntryInfo { name: "farms".to_string(), is_dir: true },
        DirEntryInfo { name: ".js".to_string(), is_dir: false },
        DirEntryInfo { name: "other.js".to_string(), is_dir: false },
    ];
    assert_eq!(
        path_completions("fa", false, &entries),
        vec!["rm script.JS".to_string(), "rms".to_string()]
    );
    assert_eq!(
        path_completions("FA", true, &entries),
        vec!["rm script.JS\"".to_string(), "rms".to_string()]
    );
}
