use jobowalls::command::{failure_message, shell_escape, CommandSpec};

#[test]
fn displays_commands_with_escaped_args() {
    let command = CommandSpec::new("hyprctl", vec!["keyword".to_string(), "DP-1,/tmp/a b.png".to_string()]);

    assert_eq!(command.to_string(), "hyprctl keyword 'DP-1,/tmp/a b.png'");
}

#[test]
fn escapes_single_quotes_inside_quoted_words() {
    assert_eq!(shell_escape("it's"), "'it'\\''s'");
    assert_eq!(shell_escape("plain-word_1.0/x:y=z,w"), "plain-word_1.0/x:y=z,w");
    assert_eq!(shell_escape(""), "");
}

#[test]
fn failure_message_prefers_stderr_then_stdout_then_status() {
    assert_eq!(failure_message("exit status: 1", "  boom \n", "out"), "boom");
    assert_eq!(failure_message("exit status: 1", "  ", " out "), "out");
    assert_eq!(failure_message("exit status: 1", "", ""), "exited with status exit status: 1");
}
