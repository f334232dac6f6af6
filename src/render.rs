//! The text drawn in the terminal: centered lines, banners, the greeting and
//! the task table, each with its color codes.

use vstd::prelude::*;
use crate::task::{model, Task, TaskModel};
use crate::text::{decimal, pad_right, push_decimal, push_padded, push_repeat, push_spaces, repeat};

verus! {

broadcast use vstd::string::group_string_axioms;

/// Spaces before a text of `len` characters centered in `width` columns: half
/// the spare room, rounded down; none where the text does not fit.
pub open spec fn left_pad(len: nat, width: nat) -> nat {
    if len <= width {
        ((width - len) as nat) / 2
    } else {
        0
    }
}

/// Spaces after it: as many as before when the spare room is even, one more
/// when it is odd; none where the text does not fit.
pub open spec fn right_pad(len: nat, width: nat) -> nat {
    if len <= width {
        if ((width - len) as nat) % 2 == 0 {
            left_pad(len, width)
        } else {
            left_pad(len, width) + 1
        }
    } else {
        0
    }
}

/// `text` centered in `width` columns.
pub open spec fn centered(text: Seq<char>, width: nat) -> Seq<char> {
    repeat(' ', left_pad(text.len(), width)) + text + repeat(' ', right_pad(text.len(), width))
}

/// The two kinds of one-line banner.
#[derive(Debug, Clone, Copy, PartialEq, Eq)]
pub enum BannerStyle {
    Info,
    Error,
}

pub open spec fn reset() -> Seq<char> {
    "\x1b[0m"@
}

/// Background and foreground codes that open a banner.
pub open spec fn banner_colors(style: BannerStyle) -> Seq<char> {
    match style {
        BannerStyle::Info => "\x1b[48;5;119m\x1b[38;5;0m"@,
        BannerStyle::Error => "\x1b[48;5;9m\x1b[38;5;0m"@,
    }
}

/// A banner: the message centered over the full width on a background color.
/// The foreground code stands once more after the first space that follows
/// the message, where there is such a space.
pub open spec fn banner(message: Seq<char>, style: BannerStyle, width: nat) -> Seq<char> {
    let left = left_pad(message.len(), width);
    let right = right_pad(message.len(), width);
    let gap: nat = if right >= 1 {
        1
    } else {
        0
    };
    banner_colors(style) + repeat(' ', left) + message + repeat(' ', gap) + "\x1b[38;5;0m"@ + repeat(
        ' ',
        (right - gap) as nat,
    ) + reset()
}

/// The greeting line: the message centered over the full width, a space on
/// each side of it where there is room, and rules of dashes filling the rest.
pub open spec fn greeting(message: Seq<char>, width: nat) -> Seq<char> {
    let left = left_pad(message.len(), width);
    let right = right_pad(message.len(), width);
    let lgap: nat = if left >= 1 {
        1
    } else {
        0
    };
    let rgap: nat = if right >= 1 {
        1
    } else {
        0
    };
    "\x1b[38;5;11m"@ + repeat('\u{2014}', (left - lgap) as nat) + repeat(' ', lgap)
        + "\x1b[38;5;214m"@ + message + repeat(' ', rgap) + "\x1b[38;5;11m"@ + repeat(
        '\u{2014}',
        (right - rgap) as nat,
    ) + reset()
}

/// `text` centered in `width` columns.
pub fn center(text: &str, width: usize) -> (r: String)
    ensures
        r@ == centered(text@, width as nat),
{
    let len = text.unicode_len();
    let mut out = String::new();
    let (left, right) = if len <= width {
        let spare = width - len;
        let left = spare / 2;
        (left, if spare % 2 == 0 { left } else { left + 1 })
    } else {
        (0, 0)
    };
    push_spaces(&mut out, left);
    out.append(text);
    push_spaces(&mut out, right);
    assert(out@ =~= centered(text@, width as nat));
    out
}

/// The one-line banner for `message` over `width` columns.
pub fn render_banner(message: &str, style: BannerStyle, width: usize) -> (r: String)
    ensures
        r@ == banner(message@, style, width as nat),
{
    let len = message.unicode_len();
    let (left, right) = if len <= width {
        let spare = width - len;
        let left = spare / 2;
        (left, if spare % 2 == 0 { left } else { left + 1 })
    } else {
        (0, 0)
    };
    let mut out = String::new();
    match style {
        BannerStyle::Info => out.append("\x1b[48;5;119m\x1b[38;5;0m"),
        BannerStyle::Error => out.append("\x1b[48;5;9m\x1b[38;5;0m"),
    }
    push_spaces(&mut out, left);
    out.append(message);
    let gap: usize = if right >= 1 { 1 } else { 0 };
    push_spaces(&mut out, gap);
    out.append("\x1b[38;5;0m");
    push_spaces(&mut out, right - gap);
    out.append("\x1b[0m");
    assert(out@ =~= banner(message@, style, width as nat));
    out
}

/// The greeting line for `message` over `width` columns.
pub fn render_greeting(message: &str, width: usize) -> (r: String)
    ensures
        r@ == greeting(message@, width as nat),
{
    let len = message.unicode_len();
    let (left, right) = if len <= width {
        let spare = width - len;
        let left = spare / 2;
        (left, if spare % 2 == 0 { left } else { left + 1 })
    } else {
        (0, 0)
    };
    let lgap: usize = if left >= 1 { 1 } else { 0 };
    let rgap: usize = if right >= 1 { 1 } else { 0 };
    proof {
        reveal_strlit("\u{2014}");
    }
    let mut out = String::new();
    out.append("\x1b[38;5;11m");
    push_repeat(&mut out, "\u{2014}", left - lgap);
    push_spaces(&mut out, lgap);
    out.append("\x1b[38;5;214m");
    out.append(message);
    push_spaces(&mut out, rgap);
    out.append("\x1b[38;5;11m");
    push_repeat(&mut out, "\u{2014}", right - rgap);
    out.append("\x1b[0m");
    assert(out@ =~= greeting(message@, width as nat));
    out
}

/// The length of the longest name in the list; 0 for an empty list.
pub open spec fn longest(ts: Seq<TaskModel>) -> nat
    decreases ts.len(),
{
    if ts.len() == 0 {
        0
    } else {
        let rest = longest(ts.drop_last());
        if ts.last().name.len() > rest {
            ts.last().name.len()
        } else {
            rest
        }
    }
}

/// A horizontal rule of the table, for names of `w` columns.
pub open spec fn border(w: nat) -> Seq<char> {
    seq!['+'] + repeat('-', 5) + seq!['+'] + repeat('-', w + 4) + seq!['+'] + repeat('-', 3) + seq![
        '+',
    ]
}

/// Spaces before each row and the rule under it: about half the terminal less
/// half the table, never below zero, and one more where half the terminal is
/// not zero.
pub open spec fn row_indent(cols: nat, w: nat) -> Seq<char> {
    let half = cols / 2;
    let table = (w + 18) / 2;
    (if half != 0 {
        seq![' ']
    } else {
        Seq::empty()
    }) + repeat(' ', if half >= table { (half - table) as nat } else { 0 })
}

pub open spec fn name_color(done: bool) -> Seq<char> {
    if done {
        "\x1b[38;5;40m"@
    } else {
        "\x1b[38;5;9m"@
    }
}

pub open spec fn glyph_color(done: bool) -> Seq<char> {
    if done {
        "\x1b[38;5;40m"@
    } else {
        "\x1b[38;5;196m"@
    }
}

/// A check mark for a task that is done, a cross for one that is not.
pub open spec fn glyph(done: bool) -> Seq<char> {
    if done {
        "\u{2705}"@
    } else {
        "\u{274c}"@
    }
}

/// The row of the task `t` at the 1-based position `i`: its number, its name
/// padded to `w` columns, and its glyph, each in its color.
pub open spec fn row(i: nat, t: TaskModel, w: nat) -> Seq<char> {
    seq!['|'] + "\x1b[38;5;219m"@ + seq![' '] + pad_right(decimal(i), 3) + seq![' '] + reset()
        + seq!['|'] + name_color(t.done) + seq![' '] + pad_right(t.name, w) + seq![' '] + reset()
        + "  |"@ + glyph_color(t.done) + seq![' '] + glyph(t.done) + reset() + seq!['|']
}

/// The rows of the tasks, each followed by a rule, every line indented.
pub open spec fn rows(ts: Seq<TaskModel>, w: nat, cols: nat) -> Seq<char>
    decreases ts.len(),
{
    if ts.len() == 0 {
        Seq::empty()
    } else {
        rows(ts.drop_last(), w, cols) + row_indent(cols, w) + row(ts.len(), ts.last(), w) + seq![
            '\n',
        ] + row_indent(cols, w) + border(w) + seq!['\n']
    }
}

/// The whole table for a list in a terminal of `cols` columns: a notice where
/// the list is empty; else a title, a rule, and each task's row and rule.
pub open spec fn table(ts: Seq<TaskModel>, cols: nat) -> Seq<char> {
    if ts.len() == 0 {
        "\x1b[38;5;119m"@ + centered("You have no tasks!"@, cols) + reset() + seq!['\n']
    } else {
        "\x1b[38;5;241m"@ + centered("Tasks"@, cols) + reset() + seq!['\n'] + centered(
            border(longest(ts)),
            cols,
        ) + seq!['\n'] + rows(ts, longest(ts), cols)
    }
}

/// The length of the longest name among `tasks`.
fn longest_name(tasks: &Vec<Task>) -> (r: usize)
    ensures
        r == longest(model(tasks@)),
{
    let mut best: usize = 0;
    let mut k: usize = 0;
    while k < tasks.len()
        invariant
            k <= tasks@.len(),
            best == longest(model(tasks@).take(k as int)),
        decreases tasks@.len() - k,
    {
        assert(model(tasks@).take(k + 1).drop_last() =~= model(tasks@).take(k as int));
        assert(model(tasks@).take(k + 1).last() == tasks@[k as int]@);
        let len = tasks[k].name.as_str().unicode_len();
        if len > best {
            best = len;
        }
        k += 1;
    }
    assert(model(tasks@).take(k as int) =~= model(tasks@));
    best
}

/// Appends a rule of the table for names of `w` columns.
fn push_border(out: &mut String, w: usize)
    ensures
        final(out)@ == old(out)@ + border(w as nat),
{
    proof {
        reveal_strlit("+");
        reveal_strlit("-");
    }
    out.append("+");
    push_repeat(out, "-", 5);
    out.append("+");
    push_repeat(out, "-", w);
    push_repeat(out, "-", 4);
    out.append("+");
    push_repeat(out, "-", 3);
    out.append("+");
    assert(repeat('-', w as nat) + repeat('-', 4) =~= repeat('-', (w + 4) as nat));
    assert(final(out)@ =~= old(out)@ + border(w as nat));
}

/// Appends the indentation of the rows.
fn push_indent(out: &mut String, cols: usize, w: usize)
    ensures
        final(out)@ == old(out)@ + row_indent(cols as nat, w as nat),
{
    let half = cols / 2;
    let table = w / 2 + 9;
    assert(table == (w + 18) / 2);
    if half != 0 {
        proof {
            reveal_strlit(" ");
        }
        out.append(" ");
    }
    let n = if half >= table { half - table } else { 0 };
    push_spaces(out, n);
    assert(final(out)@ =~= old(out)@ + row_indent(cols as nat, w as nat));
}

/// Appends the row of the task `t` at the 1-based position `i`.
fn push_row(out: &mut String, i: usize, t: &Task, w: usize)
    ensures
        final(out)@ == old(out)@ + row(i as nat, t@, w as nat),
{
    proof {
        reveal_strlit("|");
        reveal_strlit(" ");
    }
    out.append("|");
    out.append("\x1b[38;5;219m");
    out.append(" ");
    let mut number = String::new();
    push_decimal(&mut number, i);
    push_padded(out, number.as_str(), 3);
    out.append(" ");
    out.append("\x1b[0m");
    out.append("|");
    if t.done {
        out.append("\x1b[38;5;40m");
    } else {
        out.append("\x1b[38;5;9m");
    }
    out.append(" ");
    push_padded(out, t.name.as_str(), w);
    out.append(" ");
    out.append("\x1b[0m");
    out.append("  |");
    if t.done {
        out.append("\x1b[38;5;40m");
    } else {
        out.append("\x1b[38;5;196m");
    }
    out.append(" ");
    if t.done {
        out.append("\u{2705}");
    } else {
        out.append("\u{274c}");
    }
    out.append("\x1b[0m");
    out.append("|");
    assert(number@ =~= decimal(i as nat));
    assert(final(out)@ =~= old(out)@ + row(i as nat, t@, w as nat));
}

/// The task table for `tasks` in a terminal of `cols` columns.
#[verifier::rlimit(40)]
pub fn render_task_table(tasks: &Vec<Task>, cols: usize) -> (r: String)
    ensures
        r@ == table(model(tasks@), cols as nat),
{
    proof {
        reveal_strlit("\n");
    }
    assert("\n"@ =~= seq!['\n']);
    let mut out = String::new();
    if tasks.len() == 0 {
        out.append("\x1b[38;5;119m");
        let line = center("You have no tasks!", cols);
        out.append(line.as_str());
        out.append("\x1b[0m");
        out.append("\n");
        assert(out@ =~= table(model(tasks@), cols as nat));
        return out;
    }
    let w = longest_name(tasks);
    out.append("\x1b[38;5;241m");
    let title = center("Tasks", cols);
    out.append(title.as_str());
    out.append("\x1b[0m");
    out.append("\n");
    let mut rule = String::new();
    push_border(&mut rule, w);
    assert(rule@ =~= border(w as nat));
    let top = center(rule.as_str(), cols);
    out.append(top.as_str());
    out.append("\n");
    let ghost head = out@;
    let mut k: usize = 0;
    while k < tasks.len()
        invariant
            k <= tasks@.len(),
            "\n"@ == seq!['\n'],
            w == longest(model(tasks@)),
            out@ == head + rows(model(tasks@).take(k as int), w as nat, cols as nat),
        decreases tasks@.len() - k,
    {
        let ghost before = out@;
        push_indent(&mut out, cols, w);
        push_row(&mut out, k + 1, &tasks[k], w);
        out.append("\n");
        push_indent(&mut out, cols, w);
        push_border(&mut out, w);
        out.append("\n");
        proof {
            let prefix = model(tasks@).take(k + 1);
            assert(prefix.drop_last() =~= model(tasks@).take(k as int));
            assert(prefix.last() == tasks@[k as int]@);
            assert(prefix.len() == k + 1);
            assert(rows(prefix, w as nat, cols as nat) == rows(prefix.drop_last(), w as nat, cols as nat)
                + row_indent(cols as nat, w as nat) + row((k + 1) as nat, tasks@[k as int]@, w as nat)
                + seq!['\n'] + row_indent(cols as nat, w as nat) + border(w as nat) + seq!['\n']);
            assert(out@ =~= head + rows(prefix, w as nat, cols as nat));
        }
        k += 1;
    }
    assert(model(tasks@).take(k as int) =~= model(tasks@));
    assert(out@ =~= table(model(tasks@), cols as nat));
    out
}

/// The lines drawn for the task `t` at the 1-based position `k`: its row and
/// the rule under it, both indented.
pub open spec fn row_block(k: nat, t: TaskModel, w: nat, cols: nat) -> Seq<char> {
    row_indent(cols, w) + row(k, t, w) + seq!['\n'] + row_indent(cols, w) + border(w) + seq!['\n']
}

/// The blocks of the tasks of `ts`, each numbered by its position.
pub open spec fn row_blocks(ts: Seq<TaskModel>, w: nat, cols: nat) -> Seq<Seq<char>> {
    Seq::new(ts.len(), |k: int| row_block((k + 1) as nat, ts[k], w, cols))
}

/// The rows of a table are one block per task, in list order, where the task at
/// 0-based position `k` is shown with the number `k + 1`: after an edit, each
/// row shows the task that the edited list holds at that position.
pub proof fn lemma_rows_by_position(ts: Seq<TaskModel>, w: nat, cols: nat)
    ensures
        rows(ts, w, cols) == row_blocks(ts, w, cols).flatten(),
        row_blocks(ts, w, cols).len() == ts.len(),
        forall|k: int|
            0 <= k < ts.len() ==> #[trigger] row_blocks(ts, w, cols)[k] == row_block(
                (k + 1) as nat,
                ts[k],
                w,
                cols,
            ),
    decreases ts.len(),
{
    if ts.len() > 0 {
        lemma_rows_by_position(ts.drop_last(), w, cols);
        let blocks = row_blocks(ts, w, cols);
        assert(blocks.drop_last() =~= row_blocks(ts.drop_last(), w, cols));
        blocks.drop_last().lemma_flatten_push(blocks.last());
        assert(blocks.drop_last().push(blocks.last()) =~= blocks);
        assert(rows(ts, w, cols) =~= rows(ts.drop_last(), w, cols) + blocks.last());
    } else {
        assert(row_blocks(ts, w, cols) =~= Seq::<Seq<char>>::empty());
    }
}

} // verus!
