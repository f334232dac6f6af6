//! What one invocation asks for, and the decisions taken on it: which edit,
//! which message, which path and which greeting.

use vstd::prelude::*;
use crate::ops::{clear_all, clear_completed, index_in_range, pending, remove_at, set_done};
use crate::task::{model, IndexError, Task, TaskModel, TerminalError};
use crate::text::{chars_of, decimal, push_decimal};

verus! {

broadcast use vstd::string::group_string_axioms;

/// An edit that rewrites the whole list.
#[derive(Debug, Clone, Copy, PartialEq, Eq)]
pub enum Edit {
    Remove(usize),
    Do(usize),
    Undo(usize),
    Clean,
    CleanAll,
}

/// What the arguments of one invocation ask for.
#[derive(Debug, PartialEq, Eq)]
pub enum Command {
    Greet,
    List,
    Add(String),
    Apply(Edit),
    BadIndex,
    Invalid,
}

/// Every character of `s` is a decimal digit.
pub open spec fn all_digits(s: Seq<char>) -> bool {
    forall|i: int| 0 <= i < s.len() ==> '0' <= #[trigger] s[i] <= '9'
}

/// The number that a string of decimal digits writes.
pub open spec fn numeral_value(s: Seq<char>) -> nat
    decreases s.len(),
{
    if s.len() == 0 {
        0
    } else {
        numeral_value(s.drop_last()) * 10 + ((s.last() as u32 - '0' as u32) as nat)
    }
}

/// `s` writes a task number: one or more digits, for a value that fits in `usize`.
pub open spec fn is_index_text(s: Seq<char>) -> bool {
    s.len() > 0 && all_digits(s) && numeral_value(s) <= usize::MAX
}

proof fn lemma_numeral_grows(s: Seq<char>, i: int)
    requires
        all_digits(s),
        0 <= i <= s.len(),
    ensures
        numeral_value(s.take(i)) <= numeral_value(s),
    decreases s.len() - i,
{
    if i < s.len() {
        lemma_numeral_grows(s, i + 1);
        assert(s.take(i + 1).drop_last() =~= s.take(i));
        assert('0' <= s[i] <= '9');
    } else {
        assert(s.take(i) =~= s);
    }
}

/// Reads a 1-based task number written in decimal digits.
pub fn parse_index(text: &str) -> (r: Result<usize, IndexError>)
    ensures
        r is Ok <==> is_index_text(text@),
        r matches Ok(n) ==> n == numeral_value(text@),
{
    let cs = chars_of(text);
    if cs.len() == 0 {
        return Err(IndexError);
    }
    let mut value: usize = 0;
    let mut k: usize = 0;
    while k < cs.len()
        invariant
            cs@ == text@,
            k <= cs@.len(),
            all_digits(cs@.take(k as int)),
            value == numeral_value(cs@.take(k as int)),
        decreases cs@.len() - k,
    {
        let c = cs[k];
        assert(cs@.take(k + 1).drop_last() =~= cs@.take(k as int));
        if c < '0' || c > '9' {
            assert(!all_digits(text@));
            return Err(IndexError);
        }
        let d = (c as u32 - '0' as u32) as usize;
        if value > (usize::MAX - d) / 10 {
            proof {
                if all_digits(text@) {
                    lemma_numeral_grows(text@, k + 1);
                }
            }
            return Err(IndexError);
        }
        value = value * 10 + d;
        proof {
            assert forall|i: int| 0 <= i < k + 1 implies '0' <= #[trigger] cs@.take(k + 1)[i] <= '9' by {
                if i < k {
                    assert(cs@.take(k + 1)[i] == cs@.take(k as int)[i]);
                }
            }
        }
        k += 1;
    }
    assert(cs@.take(k as int) =~= cs@);
    Ok(value)
}

/// The text of `parts`, separated by single spaces.
pub open spec fn joined(parts: Seq<Seq<char>>) -> Seq<char>
    decreases parts.len(),
{
    if parts.len() == 0 {
        Seq::empty()
    } else if parts.len() == 1 {
        parts[0]
    } else {
        joined(parts.drop_last()) + seq![' '] + parts.last()
    }
}

/// The text of each argument.
pub open spec fn arg_texts(args: Seq<String>) -> Seq<Seq<char>> {
    args.map_values(|a: String| a@)
}

/// The command for a task number argument of a `remove`, `do` or `undo`.
pub open spec fn indexed(verb: Seq<char>, index: Seq<char>) -> Command {
    if !is_index_text(index) {
        Command::BadIndex
    } else {
        let n = numeral_value(index) as usize;
        if verb == "remove"@ {
            Command::Apply(Edit::Remove(n))
        } else if verb == "do"@ {
            Command::Apply(Edit::Do(n))
        } else {
            Command::Apply(Edit::Undo(n))
        }
    }
}

/// Whether the argument reads `word`.
fn is_word(a: &String, word: &str) -> (r: bool)
    ensures
        r == (a@ == word@),
{
    let w = word.to_owned();
    a.eq(&w)
}

/// The command that the arguments (the program's name left out) ask for: none
/// lists the tasks under a greeting; one is `list`, `clean` or `cleanall`;
/// two or more are `add` and the words of a name, `remove`, `do` or `undo` and
/// a task number, or `cleanall`. Anything else is invalid.
pub fn parse_command(args: &Vec<String>) -> (r: Command)
    ensures
        args@.len() == 0 ==> r == Command::Greet,
        args@.len() == 1 ==> r == (if args@[0]@ == "cleanall"@ {
            Command::Apply(Edit::CleanAll)
        } else if args@[0]@ == "clean"@ {
            Command::Apply(Edit::Clean)
        } else if args@[0]@ == "list"@ {
            Command::List
        } else {
            Command::Invalid
        }),
        args@.len() >= 2 ==> {
            let verb = args@[0]@;
            if verb == "add"@ {
                r matches Command::Add(name) && name@ == joined(arg_texts(args@).skip(1))
            } else if verb == "remove"@ || verb == "do"@ || verb == "undo"@ {
                r == indexed(verb, args@[1]@)
            } else if verb == "cleanall"@ {
                r == Command::Apply(Edit::CleanAll)
            } else {
                r == Command::Invalid
            }
        },
{
    if args.len() == 0 {
        return Command::Greet;
    }
    if args.len() == 1 {
        if is_word(&args[0], "cleanall") {
            return Command::Apply(Edit::CleanAll);
        } else if is_word(&args[0], "clean") {
            return Command::Apply(Edit::Clean);
        } else if is_word(&args[0], "list") {
            return Command::List;
        } else {
            return Command::Invalid;
        }
    }
    if is_word(&args[0], "add") {
        let mut name = String::new();
        name.append(args[1].as_str());
        let mut k: usize = 2;
        proof {
            reveal_strlit(" ");
            assert(" "@ =~= seq![' ']);
            assert(arg_texts(args@).skip(1).take(1) =~= seq![args@[1]@]);
        }
        while k < args.len()
            invariant
                2 <= k <= args@.len(),
                " "@ == seq![' '],
                name@ == joined(arg_texts(args@).skip(1).take(k - 1)),
            decreases args@.len() - k,
        {
            name.append(" ");
            name.append(args[k].as_str());
            proof {
                let parts = arg_texts(args@).skip(1).take(k as int);
                assert(parts.drop_last() =~= arg_texts(args@).skip(1).take(k - 1));
                assert(parts.last() == args@[k as int]@);
                assert(parts.len() == k);
                assert(name@ =~= joined(parts));
            }
            k += 1;
        }
        assert(arg_texts(args@).skip(1).take(k - 1) =~= arg_texts(args@).skip(1));
        return Command::Add(name);
    }
    let remove = is_word(&args[0], "remove");
    let done = is_word(&args[0], "do");
    let undone = is_word(&args[0], "undo");
    if remove || done || undone {
        match parse_index(args[1].as_str()) {
            Ok(n) => {
                if remove {
                    Command::Apply(Edit::Remove(n))
                } else if done {
                    Command::Apply(Edit::Do(n))
                } else {
                    Command::Apply(Edit::Undo(n))
                }
            },
            Err(_) => Command::BadIndex,
        }
    } else if is_word(&args[0], "cleanall") {
        Command::Apply(Edit::CleanAll)
    } else {
        Command::Invalid
    }
}

/// The edit can be made on a list of `len` tasks: a task number names a task.
pub open spec fn edit_applies(edit: Edit, len: nat) -> bool {
    match edit {
        Edit::Remove(i) => index_in_range(len, i),
        Edit::Do(i) => index_in_range(len, i),
        Edit::Undo(i) => index_in_range(len, i),
        Edit::Clean => true,
        Edit::CleanAll => true,
    }
}

/// The list after the edit.
pub open spec fn edited(edit: Edit, ts: Seq<TaskModel>) -> Seq<TaskModel> {
    match edit {
        Edit::Remove(i) => ts.remove(i - 1),
        Edit::Do(i) => ts.update(i - 1, TaskModel { name: ts[i - 1].name, done: true }),
        Edit::Undo(i) => ts.update(i - 1, TaskModel { name: ts[i - 1].name, done: false }),
        Edit::Clean => pending(ts),
        Edit::CleanAll => Seq::empty(),
    }
}

/// The message that reports the edit.
pub open spec fn edit_message(edit: Edit, ts: Seq<TaskModel>) -> Seq<char> {
    match edit {
        Edit::Remove(i) => "REMOVED TASK '"@ + ts[i - 1].name + "'"@,
        Edit::Do(i) => "COMPLETED TASK '"@ + ts[i - 1].name + "'"@,
        Edit::Undo(i) => "UNDONE TASK '"@ + ts[i - 1].name + "'"@,
        Edit::Clean => "CLEANED FINISHED TASKS"@,
        Edit::CleanAll => "CLEANED ALL TASKS"@,
    }
}

/// Makes the edit on `tasks`: the new list and the message that reports it, or
/// `IndexError`, with nothing to store, when a task number names no task.
pub fn apply_edit(edit: Edit, tasks: &Vec<Task>) -> (r: Result<(Vec<Task>, String), IndexError>)
    ensures
        r is Err <==> !edit_applies(edit, tasks@.len()),
        r matches Ok((out, message)) ==> {
            &&& model(out@) == edited(edit, model(tasks@))
            &&& message@ == edit_message(edit, model(tasks@))
        },
{
    let mut message = String::new();
    match edit {
        Edit::Remove(i) => {
            let out = remove_at(tasks, i)?;
            message.append("REMOVED TASK '");
            message.append(tasks[i - 1].name.as_str());
            message.append("'");
            Ok((out, message))
        },
        Edit::Do(i) => {
            let out = set_done(tasks, i, true)?;
            message.append("COMPLETED TASK '");
            message.append(tasks[i - 1].name.as_str());
            message.append("'");
            Ok((out, message))
        },
        Edit::Undo(i) => {
            let out = set_done(tasks, i, false)?;
            message.append("UNDONE TASK '");
            message.append(tasks[i - 1].name.as_str());
            message.append("'");
            Ok((out, message))
        },
        Edit::Clean => {
            message.append("CLEANED FINISHED TASKS");
            Ok((clear_completed(tasks), message))
        },
        Edit::CleanAll => {
            message.append("CLEANED ALL TASKS");
            let out = clear_all();
            assert(model(out@) =~= Seq::<TaskModel>::empty());
            Ok((out, message))
        },
    }
}

/// The message that reports a task number that names no task.
pub fn index_error_message() -> (r: String)
    ensures
        r@ == "INVALID TASK NUMBER"@,
{
    "INVALID TASK NUMBER".to_owned()
}

/// The message that reports arguments that ask for nothing known.
pub fn invalid_command_message() -> (r: String)
    ensures
        r@ == "INVALID COMMAND / ARGUMENTS"@,
{
    "INVALID COMMAND / ARGUMENTS".to_owned()
}

/// The message that reports a task added with this name.
pub fn added_message(name: &str) -> (r: String)
    ensures
        r@ == "ADDED TASK '"@ + name@ + "'"@,
{
    let mut message = String::new();
    message.append("ADDED TASK '");
    message.append(name);
    message.append("'");
    message
}

/// The terminal size from the platform's raw column and line counts, which
/// are negative where the platform could not tell.
pub fn terminal_dimensions(cols: i32, lines: i32) -> (r: Result<(usize, usize), TerminalError>)
    ensures
        r is Err <==> cols < 0 || lines < 0,
        r matches Ok((c, l)) ==> c == cols && l == lines,
{
    if cols < 0 || lines < 0 {
        Err(TerminalError)
    } else {
        Ok((cols as usize, lines as usize))
    }
}

/// The directory that holds the record file, under the home directory `home`.
pub fn config_dir(home: &str) -> (r: String)
    ensures
        r@ == home@ + "/.config/please-rs"@,
{
    let mut path = home.to_owned();
    path.append("/.config/please-rs");
    path
}

/// The path of the record file, under the home directory `home`.
pub fn tasks_file(home: &str) -> (r: String)
    ensures
        r@ == home@ + "/.config/please-rs"@ + "/tasks.txt"@,
{
    let mut path = config_dir(home);
    path.append("/tasks.txt");
    path
}

/// A minute or hour of the clock: two digits for a minute, as many as needed
/// for an hour.
pub open spec fn clock_minute(m: nat) -> Seq<char> {
    if m < 10 {
        seq!['0'] + decimal(m)
    } else {
        decimal(m)
    }
}

/// The greeting for `user` at `secs` seconds since the epoch: the hour and
/// minute of the day, in universal time.
pub open spec fn greeting_text(user: Seq<char>, secs: nat) -> Seq<char> {
    "Hello, "@ + user + "! | It's "@ + decimal(secs / 3600 % 24) + seq![':'] + clock_minute(
        secs / 60 % 60,
    )
}

/// The greeting for `user` at `secs` seconds since the epoch.
pub fn greeting_message(user: &str, secs: u64) -> (r: String)
    ensures
        r@ == greeting_text(user@, secs as nat),
{
    let hour = (secs / 3600 % 24) as usize;
    let minute = (secs / 60 % 60) as usize;
    proof {
        reveal_strlit(":");
        reveal_strlit("0");
    }
    let mut out = String::new();
    out.append("Hello, ");
    out.append(user);
    out.append("! | It's ");
    push_decimal(&mut out, hour);
    out.append(":");
    if minute < 10 {
        out.append("0");
    }
    push_decimal(&mut out, minute);
    assert(out@ =~= greeting_text(user@, secs as nat));
    out
}

} // verus!
