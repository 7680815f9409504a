use opengoose::commands::{parse_command, Command};

#[test]
fn parse_command_board() {
    assert_eq!(parse_command("/board"), Command::Board);
}

#[test]
fn parse_command_quit_variants() {
    assert_eq!(parse_command("/quit"), Command::Quit);
    assert_eq!(parse_command("/q"), Command::Quit);
}

#[test]
fn parse_command_task_usage() {
    assert_eq!(parse_command("/task"), Command::TaskUsage);
    assert_eq!(parse_command("/task \"\""), Command::TaskUsage);
}

#[test]
fn parse_command_task_with_title() {
    assert_eq!(parse_command("/task \"implement feature\""), Command::Task("implement feature"));
    assert_eq!(parse_command("/task do stuff"), Command::Task("do stuff"));
}

#[test]
fn parse_command_chat() {
    assert_eq!(parse_command("hello world"), Command::Chat("hello world"));
    assert_eq!(parse_command("/unknown"), Command::Chat("/unknown"));
}

#[test]
fn parse_command_task_title_trimming() {
    assert_eq!(parse_command("/task    \"  spaced\"  "), Command::Task("  spaced"));
    assert_eq!(parse_command("/task    "), Command::TaskUsage);
    assert_eq!(parse_command("/tasks"), Command::Chat("/tasks"));
    assert_eq!(parse_command(" /quit"), Command::Chat(" /quit"));
}
