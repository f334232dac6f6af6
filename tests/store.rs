use please::command::{apply_edit, Edit};
use please::ops::{clear_all, clear_completed, remove_at, set_done};
use please::record::{format_records, parse_records, record_line};
use please::render::render_task_table;
use please::task::{IndexError, StorageError, Task};

fn list(items: &[(&str, bool)]) -> Vec<Task> {
    items.iter().map(|(n, d)| Task::new(n, *d)).collect()
}

#[test]
fn parse_empty_file() {
    assert_eq!(parse_records(""), Ok(Vec::new()));
}

#[test]
fn parse_two_records() {
    let ts = parse_records("buy milk:false\nwalk dog:true\n").unwrap();
    assert_eq!(ts, list(&[("buy milk", false), ("walk dog", true)]));
}

#[test]
fn parse_last_line_without_break() {
    let ts = parse_records("a:true\nb:false").unwrap();
    assert_eq!(ts, list(&[("a", true), ("b", false)]));
}

#[test]
fn parse_empty_name() {
    assert_eq!(parse_records(":true\n").unwrap(), list(&[("", true)]));
}

#[test]
fn parse_rejects_missing_delimiter() {
    assert_eq!(parse_records("a:true\nnothing here\n"), Err(StorageError));
}

#[test]
fn parse_rejects_bad_flag() {
    assert_eq!(parse_records("a:yes\n"), Err(StorageError));
    assert_eq!(parse_records("a:True\n"), Err(StorageError));
    assert_eq!(parse_records("a:truex\n"), Err(StorageError));
}

#[test]
fn parse_rejects_extra_field() {
    assert_eq!(parse_records("a:b:true\n"), Err(StorageError));
}

#[test]
fn parse_rejects_blank_line() {
    assert_eq!(parse_records("a:true\n\nb:false\n"), Err(StorageError));
    assert_eq!(parse_records("\n"), Err(StorageError));
}

#[test]
fn load_then_save_is_identical() {
    let text = "one:true\ntwo:false\nthree three:true\n";
    let ts = parse_records(text).unwrap();
    assert_eq!(format_records(&ts), text);
}

#[test]
fn save_then_load_gives_list() {
    let ts = list(&[("x", false), ("y y", true)]);
    let text = format_records(&ts);
    assert_eq!(text, "x:false\ny y:true\n");
    assert_eq!(parse_records(&text).unwrap(), ts);
}

#[test]
fn append_then_load() {
    let mut text = String::from("a:true\n");
    text.push_str(&record_line("buy milk"));
    let ts = parse_records(&text).unwrap();
    assert_eq!(ts, list(&[("a", true), ("buy milk", false)]));
}

#[test]
fn record_line_text() {
    assert_eq!(record_line("buy milk"), "buy milk:false\n");
}

#[test]
fn remove_middle() {
    let ts = list(&[("a", false), ("b", true), ("c", false)]);
    let out = remove_at(&ts, 2).unwrap();
    assert_eq!(out, list(&[("a", false), ("c", false)]));
}

#[test]
fn remove_first_and_last() {
    let ts = list(&[("a", false), ("b", true), ("c", false)]);
    assert_eq!(remove_at(&ts, 1).unwrap(), list(&[("b", true), ("c", false)]));
    assert_eq!(remove_at(&ts, 3).unwrap(), list(&[("a", false), ("b", true)]));
}

#[test]
fn remove_out_of_range() {
    let ts = list(&[("a", false)]);
    assert_eq!(remove_at(&ts, 0), Err(IndexError));
    assert_eq!(remove_at(&ts, 2), Err(IndexError));
    assert_eq!(remove_at(&Vec::new(), 1), Err(IndexError));
    assert_eq!(ts, list(&[("a", false)]));
}

#[test]
fn set_done_changes_one() {
    let ts = list(&[("a", false), ("b", false)]);
    assert_eq!(set_done(&ts, 2, true).unwrap(), list(&[("a", false), ("b", true)]));
    let back = set_done(&list(&[("a", true)]), 1, false).unwrap();
    assert_eq!(back, list(&[("a", false)]));
}

#[test]
fn set_done_out_of_range() {
    let ts = list(&[("a", false), ("b", false)]);
    assert_eq!(set_done(&ts, 0, true), Err(IndexError));
    assert_eq!(set_done(&ts, 3, true), Err(IndexError));
}

#[test]
fn clear_completed_keeps_pending_in_order() {
    let ts = list(&[("a", true), ("b", false), ("c", true), ("d", false)]);
    assert_eq!(clear_completed(&ts), list(&[("b", false), ("d", false)]));
    assert_eq!(clear_completed(&Vec::new()), Vec::new());
}

#[test]
fn clear_all_is_empty() {
    assert!(clear_all().is_empty());
}

#[test]
fn edit_messages() {
    let ts = list(&[("a", false), ("b", true)]);
    let (out, m) = apply_edit(Edit::Remove(1), &ts).unwrap();
    assert_eq!((out, m.as_str()), (list(&[("b", true)]), "REMOVED TASK 'a'"));
    let (out, m) = apply_edit(Edit::Do(1), &ts).unwrap();
    assert_eq!((out, m.as_str()), (list(&[("a", true), ("b", true)]), "COMPLETED TASK 'a'"));
    let (out, m) = apply_edit(Edit::Undo(2), &ts).unwrap();
    assert_eq!((out, m.as_str()), (list(&[("a", false), ("b", false)]), "UNDONE TASK 'b'"));
    let (out, m) = apply_edit(Edit::Clean, &ts).unwrap();
    assert_eq!((out, m.as_str()), (list(&[("a", false)]), "CLEANED FINISHED TASKS"));
    let (out, m) = apply_edit(Edit::CleanAll, &ts).unwrap();
    assert_eq!((out, m.as_str()), (Vec::new(), "CLEANED ALL TASKS"));
    assert_eq!(apply_edit(Edit::Do(3), &ts), Err(IndexError));
    assert_eq!(apply_edit(Edit::Remove(0), &ts), Err(IndexError));
}

#[test]
fn add_do_clean_list_scenario() {
    let mut file = String::new();
    file.push_str(&record_line("buy milk"));
    assert_eq!(file, "buy milk:false\n");
    let ts = parse_records(&file).unwrap();
    let (ts, _) = apply_edit(Edit::Do(1), &ts).unwrap();
    let file = format_records(&ts);
    assert_eq!(file, "buy milk:true\n");
    let ts = parse_records(&file).unwrap();
    let (ts, _) = apply_edit(Edit::Clean, &ts).unwrap();
    let file = format_records(&ts);
    assert_eq!(file, "");
    let ts = parse_records(&file).unwrap();
    let shown = render_task_table(&ts, 40);
    assert!(shown.contains("You have no tasks!"));
}

#[test]
fn table_after_remove_renumbers_rows() {
    let ts = list(&[("a", false), ("b", true), ("c", false)]);
    let out = remove_at(&ts, 1).unwrap();
    let shown = render_task_table(&out, 0);
    assert!(shown.contains("\x1b[38;5;219m 1   \x1b[0m|\x1b[38;5;40m b \x1b[0m"));
    assert!(shown.contains("\x1b[38;5;219m 2   \x1b[0m|\x1b[38;5;9m c \x1b[0m"));
    assert!(!shown.contains(" 3   "));
}
