use please::command::{
    greeting_message, parse_command, parse_index, tasks_file, terminal_dimensions, Command, Edit,
};
use please::render::{center, render_banner, render_greeting, render_task_table, BannerStyle};
use please::task::{IndexError, Task, TerminalError};

fn args(words: &[&str]) -> Vec<String> {
    words.iter().map(|w| w.to_string()).collect()
}

#[test]
fn center_odd_spare() {
    let r = center("Tasks", 10);
    assert_eq!(r, "  Tasks   ");
    assert_eq!(r.chars().count(), 10);
}

#[test]
fn center_even_spare() {
    assert_eq!(center("ab", 6), "  ab  ");
    assert_eq!(center("abc", 3), "abc");
}

#[test]
fn center_too_long_is_unpadded() {
    assert_eq!(center("Tasks", 3), "Tasks");
}

#[test]
fn banner_info_and_error() {
    let info = render_banner("HI", BannerStyle::Info, 10);
    assert_eq!(info, "\x1b[48;5;119m\x1b[38;5;0m    HI \x1b[38;5;0m   \x1b[0m");
    let err = render_banner("BAD", BannerStyle::Error, 9);
    assert_eq!(err, "\x1b[48;5;9m\x1b[38;5;0m   BAD \x1b[38;5;0m  \x1b[0m");
}

#[test]
fn banner_even_and_odd_spare() {
    let info = render_banner("CLEANED ALL TASKS", BannerStyle::Info, 21);
    assert_eq!(info, "\x1b[48;5;119m\x1b[38;5;0m  CLEANED ALL TASKS \x1b[38;5;0m \x1b[0m");
    let err = render_banner("INVALID TASK NUMBER", BannerStyle::Error, 24);
    assert_eq!(err, "\x1b[48;5;9m\x1b[38;5;0m  INVALID TASK NUMBER \x1b[38;5;0m  \x1b[0m");
}

#[test]
fn banner_in_narrow_terminal() {
    let exact = render_banner("ab", BannerStyle::Info, 2);
    assert_eq!(exact, "\x1b[48;5;119m\x1b[38;5;0mab\x1b[38;5;0m\x1b[0m");
    let one = render_banner("ab", BannerStyle::Error, 3);
    assert_eq!(one, "\x1b[48;5;9m\x1b[38;5;0mab \x1b[38;5;0m\x1b[0m");
}

#[test]
fn greeting_line() {
    let g = render_greeting("hey", 11);
    assert_eq!(
        g,
        "\x1b[38;5;11m\u{2014}\u{2014}\u{2014} \x1b[38;5;214mhey \x1b[38;5;11m\u{2014}\u{2014}\u{2014}\x1b[0m"
    );
}

#[test]
fn greeting_line_in_narrow_terminal() {
    assert_eq!(render_greeting("hey", 4), "\x1b[38;5;11m\x1b[38;5;214mhey \x1b[38;5;11m\x1b[0m");
    assert_eq!(render_greeting("hey", 2), "\x1b[38;5;11m\x1b[38;5;214mhey\x1b[38;5;11m\x1b[0m");
}

#[test]
fn greeting_text() {
    assert_eq!(greeting_message("bob", 13 * 3600 + 5 * 60 + 7), "Hello, bob! | It's 13:05");
    assert_eq!(greeting_message("amy", 86400 + 9 * 3600 + 45 * 60), "Hello, amy! | It's 9:45");
}

#[test]
fn empty_table() {
    let t = render_task_table(&Vec::new(), 24);
    assert_eq!(t, "\x1b[38;5;119m   You have no tasks!   \x1b[0m\n");
}

#[test]
fn one_row_table() {
    let ts = vec![Task::new("buy milk", false)];
    let t = render_task_table(&ts, 80);
    let border = format!("+-----+{}+---+", "-".repeat(12));
    let indent = " ".repeat(28);
    let expected = format!(
        "\x1b[38;5;241m{}Tasks{}\x1b[0m\n{}{}{}\n{}|\x1b[38;5;219m 1   \x1b[0m|\x1b[38;5;9m buy milk \x1b[0m  |\x1b[38;5;196m \u{274c}\x1b[0m|\n{}{}\n",
        " ".repeat(37),
        " ".repeat(38),
        " ".repeat(28),
        border,
        " ".repeat(28),
        indent,
        indent,
        border
    );
    assert_eq!(t, expected);
}

#[test]
fn table_pads_names_and_marks_done() {
    let ts = vec![Task::new("a", true), Task::new("long name", false)];
    let t = render_task_table(&ts, 0);
    let cell = format!("|\x1b[38;5;40m a{} \x1b[0m  |\x1b[38;5;40m \u{2705}\x1b[0m|", " ".repeat(8));
    assert!(t.contains(&cell));
    assert!(t.contains("\x1b[38;5;219m 2   \x1b[0m"));
    assert!(t.contains(&format!("+-----+{}+---+", "-".repeat(13))));
}

#[test]
fn index_text() {
    assert_eq!(parse_index("12"), Ok(12));
    assert_eq!(parse_index("0"), Ok(0));
    assert_eq!(parse_index(""), Err(IndexError));
    assert_eq!(parse_index("x1"), Err(IndexError));
    assert_eq!(parse_index("-1"), Err(IndexError));
    assert_eq!(parse_index("99999999999999999999999"), Err(IndexError));
}

#[test]
fn commands() {
    assert_eq!(parse_command(&args(&[])), Command::Greet);
    assert_eq!(parse_command(&args(&["list"])), Command::List);
    assert_eq!(parse_command(&args(&["clean"])), Command::Apply(Edit::Clean));
    assert_eq!(parse_command(&args(&["cleanall"])), Command::Apply(Edit::CleanAll));
    assert_eq!(parse_command(&args(&["cleanall", "x"])), Command::Apply(Edit::CleanAll));
    assert_eq!(parse_command(&args(&["add", "buy", "milk"])), Command::Add("buy milk".to_string()));
    assert_eq!(parse_command(&args(&["remove", "2"])), Command::Apply(Edit::Remove(2)));
    assert_eq!(parse_command(&args(&["do", "1"])), Command::Apply(Edit::Do(1)));
    assert_eq!(parse_command(&args(&["undo", "3"])), Command::Apply(Edit::Undo(3)));
    assert_eq!(parse_command(&args(&["do", "one"])), Command::BadIndex);
    assert_eq!(parse_command(&args(&["frob"])), Command::Invalid);
    assert_eq!(parse_command(&args(&["list", "x"])), Command::Invalid);
}

#[test]
fn terminal_size_checks() {
    assert_eq!(terminal_dimensions(80, 24), Ok((80, 24)));
    assert_eq!(terminal_dimensions(-1, 24), Err(TerminalError));
    assert_eq!(terminal_dimensions(80, -1), Err(TerminalError));
}

#[test]
fn record_file_path() {
    assert_eq!(tasks_file("/home/u"), "/home/u/.config/please-rs/tasks.txt");
}
