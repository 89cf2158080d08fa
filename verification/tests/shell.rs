use toolbox::shell::{command_line, interpret, interpret_command, Step};

fn dispatched(step: Step) -> Vec<String> {
    match step {
        Step::Dispatch(arguments) => arguments,
        other => panic!("expected a command, got {:?}", other),
    }
}

#[test]
fn exit_and_quit_leave_the_prompt() {
    assert!(matches!(interpret("exit"), Step::Quit));
    assert!(matches!(interpret("quit"), Step::Quit));
    assert!(matches!(interpret("  exit \n"), Step::Quit));
    assert!(matches!(interpret("\tquit\r\n"), Step::Quit));
}

#[test]
fn help_shows_the_help() {
    assert!(matches!(interpret("help"), Step::Help));
    assert!(matches!(interpret(" help\n"), Step::Help));
}

#[test]
fn the_keywords_are_exact() {
    assert_eq!(dispatched(interpret("Exit")), vec!["toolbox", "Exit"]);
    assert_eq!(dispatched(interpret("exit now")), vec!["toolbox", "exit", "now"]);
    assert_eq!(dispatched(interpret("helps")), vec!["toolbox", "helps"]);
}

#[test]
fn a_command_is_split_like_a_shell_line() {
    assert_eq!(
        dispatched(interpret("todo add 'buy milk' --priority high\n")),
        vec!["toolbox", "todo", "add", "buy milk", "--priority", "high"]
    );
    assert_eq!(
        dispatched(interpret("bulk-rename --pattern \"(\\\\d+)\" --replace 00\\$1")),
        vec!["toolbox", "bulk-rename", "--pattern", "(\\d+)", "--replace", "00$1"]
    );
}

#[test]
fn an_empty_line_is_a_command_without_words() {
    assert_eq!(dispatched(interpret("")), vec!["toolbox"]);
    assert_eq!(dispatched(interpret("   \n")), vec!["toolbox"]);
}

#[test]
fn a_line_that_cannot_be_split_is_a_command_without_words() {
    assert_eq!(dispatched(interpret("todo add 'unclosed")), vec!["toolbox"]);
    assert_eq!(dispatched(interpret("trailing \\")), vec!["toolbox"]);
}

#[test]
fn a_command_is_not_trimmed_again() {
    assert_eq!(dispatched(interpret_command(" exit")), vec!["toolbox", "exit"]);
    assert!(matches!(interpret_command("exit"), Step::Quit));
    assert!(matches!(interpret_command("help"), Step::Help));
}

#[test]
fn the_program_name_comes_first() {
    assert_eq!(command_line(None), vec!["toolbox"]);
    assert_eq!(command_line(Some(Vec::new())), vec!["toolbox"]);
    assert_eq!(
        command_line(Some(vec!["dir-size".to_string(), "--top".to_string(), "3".to_string()])),
        vec!["toolbox", "dir-size", "--top", "3"]
    );
}
