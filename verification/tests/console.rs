use rev_idle::{parse_command, ScriptCommand};

#[test]
fn console_parses_lifecycle_commands() {
    assert_eq!(parse_command("reload"), Ok(ScriptCommand::Reload));
    assert_eq!(parse_command(" resume "), Ok(ScriptCommand::Resume));
    assert_eq!(parse_command("exit"), Ok(ScriptCommand::Exit));
}

#[test]
fn console_rejects_the_removed_pause_and_stop_commands() {
    assert!(parse_command("pause").is_err());
    assert!(parse_command("stop").is_err());
}

#[test]
fn console_parses_mouse_capture_command() {
    assert_eq!(parse_command("capture"), Ok(ScriptCommand::Capture));
    assert!(parse_command("capture now").is_err());
}

#[test]
fn console_load_uses_the_entire_remaining_path() {
    assert_eq!(
        parse_command(r#"load C:\My Scripts\farm.js"#),
        Ok(ScriptCommand::Load(r#"C:\My Scripts\farm.js"#.to_string()))
    );
    assert_eq!(
        parse_command(r#"load "C:\My Scripts\farm.js""#),
        Ok(ScriptCommand::Load(r#"C:\My Scripts\farm.js"#.to_string()))
    );
}

#[test]
fn console_rejects_unknown_commands_and_empty_load_paths() {
    assert!(parse_command("").is_err());
    assert!(parse_command("start").is_err());
    assert!(parse_command("load").is_err());
    assert!(parse_command(r#"load """#).is_err());
    assert!(parse_command("pause now").is_err());
    assert!(parse_command("exit now").is_err());
}

#[test]
fn parsing_parses_lifecycle_commands() {
    assert_eq!(parse_command("reload"), Ok(ScriptCommand::Reload));
    assert_eq!(parse_command(" resume "), Ok(ScriptCommand::Resume));
    assert_eq!(parse_command("exit"), Ok(ScriptCommand::Exit));
}

#[test]
fn parsing_rejects_the_removed_pause_and_stop_commands() {
    assert!(parse_command("pause").is_err());
    assert!(parse_command("stop").is_err());
}

#[test]
fn parsing_parses_mouse_capture_command() {
    assert_eq!(parse_command("capture"), Ok(ScriptCommand::Capture));
    assert!(parse_command("capture now").is_err());
}

#[test]
fn parsing_load_uses_the_entire_remaining_path() {
    assert_eq!(
        parse_command(r#"load C:\My Scripts\farm.js"#),
        Ok(ScriptCommand::Load(r#"C:\My Scripts\farm.js"#.to_string()))
    );
    assert_eq!(
        parse_command(r#"load "C:\My Scripts\farm.js""#),
        Ok(ScriptCommand::Load(r#"C:\My Scripts\farm.js"#.to_string()))
    );
}

#[test]
fn parsing_rejects_unknown_commands_and_empty_load_paths() {
    assert!(parse_command("").is_err());
    assert!(parse_command("start").is_err());
    assert!(parse_command("load").is_err());
    assert!(parse_command(r#"load """#).is_err());
    assert!(parse_command("pause now").is_err());
    assert!(parse_command("exit now").is_err());
}

#[test]
fn unknown_command_error_carries_the_usage_text() {
    let error = parse_command("start").unwrap_err();
    assert!(error.contains("load <script-path>"), "{error}");
}

#[test]
fn surrounding_whitespace_does_not_change_the_parsed_command() {
    for line in ["reload", "load a.js", "load \"b c.js\"", "exit", "pause", ""] {
        let padded = format!(" \t{line}\r\n ");
        assert_eq!(parse_command(&padded), parse_command(line));
    }
    assert_eq!(parse_command("\u{3000}load x.js\u{a0}"), Ok(ScriptCommand::Load("x.js".to_string())));
}
