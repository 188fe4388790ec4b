use rev_idle::console::editing::ConsoleEvent;
use rev_idle::console::input::{console_event, dispatch, Dispatch, VK_BACK, VK_DOWN, VK_RETURN, VK_TAB, VK_UP};
use rev_idle::ScriptCommand;

/// Dispatches a line the way the console thread does, forwarding commands
/// to `sent`; returns whether the console should stop.
fn dispatch_line(line: &str, sent: &mut Vec<ScriptCommand>) -> bool {
    match dispatch(line) {
        Dispatch::ClearScreen => false,
        Dispatch::Send { command, exits } => {
            sent.push(command);
            exits
        }
        Dispatch::Complain(_) => false,
    }
}

fn check_forwarding() {
    let mut sent = Vec::new();
    assert!(!dispatch_line("reload", &mut sent));
    assert!(dispatch_line("exit", &mut sent));
    assert_eq!(sent, vec![ScriptCommand::Reload, ScriptCommand::Exit]);
}

fn check_clear() {
    let mut sent = Vec::new();
    assert!(!dispatch_line("clear", &mut sent));
    assert!(sent.is_empty());
    assert_eq!(dispatch(" clear "), Dispatch::ClearScreen);
}

#[test]
fn console_dispatch_line_forwards_parsed_commands_and_flags_exit() {
    check_forwarding();
}

#[test]
fn mod_dispatch_line_forwards_parsed_commands_and_flags_exit() {
    check_forwarding();
}

#[test]
fn console_dispatch_line_clears_screen_locally_without_forwarding_a_command() {
    check_clear();
}

#[test]
fn mod_dispatch_line_clears_screen_locally_without_forwarding_a_command() {
    check_clear();
}

#[test]
fn unknown_lines_are_complained_about() {
    assert!(matches!(dispatch("dance"), Dispatch::Complain(message) if message.starts_with("commands:")));
}

#[test]
fn console_records_become_key_events() {
    assert_eq!(console_event(true, VK_RETURN, 13), Some(ConsoleEvent::Enter));
    assert_eq!(console_event(true, VK_BACK, 8), Some(ConsoleEvent::Backspace));
    assert_eq!(console_event(true, VK_UP, 0), Some(ConsoleEvent::Up));
    assert_eq!(console_event(true, VK_DOWN, 0), Some(ConsoleEvent::Down));
    assert_eq!(console_event(true, VK_TAB, 9), Some(ConsoleEvent::Tab));
    assert_eq!(console_event(true, 0x41, 'a' as u16), Some(ConsoleEvent::Char('a')));
    assert_eq!(console_event(true, 0x41, 0xE9), Some(ConsoleEvent::Char('é')));
    assert_eq!(console_event(false, 0x41, 'a' as u16), None);
    assert_eq!(console_event(true, 0x11, 0), None);
    assert_eq!(console_event(true, 0x41, 0x85), None);
    assert_eq!(console_event(true, 0x41, 0xD800), None);
}
