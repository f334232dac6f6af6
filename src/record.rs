//! The record file: one line `<name>:<true|false>` per task, in list order.

use vstd::prelude::*;
use crate::task::{model, valid_name, valid_tasks, StorageError, Task, TaskModel};
use crate::text::chars_of;

verus! {

broadcast use vstd::string::group_string_axioms;

/// How a completion flag is written.
pub open spec fn flag_text(done: bool) -> Seq<char> {
    if done {
        seq!['t', 'r', 'u', 'e']
    } else {
        seq!['f', 'a', 'l', 's', 'e']
    }
}

/// The line that stores one task, with its line break.
pub open spec fn record(t: TaskModel) -> Seq<char> {
    t.name + seq![':'] + flag_text(t.done) + seq!['\n']
}

/// The whole file that stores a list: its records, in order.
pub open spec fn encode(ts: Seq<TaskModel>) -> Seq<char>
    decreases ts.len(),
{
    if ts.len() == 0 {
        Seq::empty()
    } else {
        record(ts[0]) + encode(ts.drop_first())
    }
}

/// The text with a line break added after a last line that lacks one.
pub open spec fn terminated(c: Seq<char>) -> Seq<char> {
    if c.len() == 0 || c.last() == '\n' {
        c
    } else {
        c.push('\n')
    }
}

/// `c` is a valid record file that stores the list `ts`.
pub open spec fn loads_as(c: Seq<char>, ts: Seq<TaskModel>) -> bool {
    valid_tasks(ts) && encode(ts) == terminated(c)
}

/// `w` stands in `s` from position `k` on.
pub open spec fn occurs_at(s: Seq<char>, k: int, w: Seq<char>) -> bool {
    0 <= k && k + w.len() <= s.len() && s.subrange(k, k + w.len()) == w
}

proof fn lemma_encode_push(ts: Seq<TaskModel>, t: TaskModel)
    ensures
        encode(ts.push(t)) == encode(ts) + record(t),
    decreases ts.len(),
{
    if ts.len() == 0 {
        assert(ts.push(t).drop_first() =~= Seq::<TaskModel>::empty());
        assert(encode(ts.push(t).drop_first()) == Seq::<char>::empty());
        assert(ts.push(t)[0] == t);
        assert(encode(ts.push(t)) =~= encode(ts) + record(t));
    } else {
        assert(ts.push(t).drop_first() =~= ts.drop_first().push(t));
        lemma_encode_push(ts.drop_first(), t);
        assert(encode(ts.push(t)) =~= encode(ts) + record(t));
    }
}

proof fn lemma_encode_ends_with_break(ts: Seq<TaskModel>)
    requires
        ts.len() > 0,
    ensures
        encode(ts).len() > 0,
        encode(ts).last() == '\n',
{
    lemma_encode_push(ts.drop_last(), ts.last());
    assert(ts.drop_last().push(ts.last()) =~= ts);
}

/// Two records that start the same text are the same record.
proof fn lemma_record_head(t: TaskModel, u: TaskModel, p: Seq<char>, q: Seq<char>)
    requires
        valid_name(t.name),
        valid_name(u.name),
        record(t) + p == record(u) + q,
    ensures
        t == u,
        p == q,
{
    let l = record(t) + p;
    let n = t.name.len() as int;
    let m = u.name.len() as int;
    assert(l[n] == ':');
    assert((record(u) + q)[m] == ':');
    if n < m {
        assert(l[n] == u.name[n]);
    } else if m < n {
        assert(l[m] == t.name[m]);
    } else {
        assert(t.name =~= u.name) by {
            assert forall|i: int| 0 <= i < n implies t.name[i] == u.name[i] by {
                assert(l[i] == t.name[i]);
                assert((record(u) + q)[i] == u.name[i]);
            }
        }
        assert(l[n + 1] == flag_text(t.done)[0]);
        assert((record(u) + q)[m + 1] == flag_text(u.done)[0]);
        assert(t.done == u.done);
        assert(record(t) == record(u));
        assert(p =~= l.skip(record(t).len() as int));
        assert(q =~= (record(u) + q).skip(record(u).len() as int));
    }
}

/// A text that starts with the file of a valid list `a`, and is the file of a
/// valid list `b`, has `a` as a prefix of `b` and the rest of `b` after it.
proof fn lemma_encode_prefix(a: Seq<TaskModel>, b: Seq<TaskModel>, x: Seq<char>)
    requires
        valid_tasks(a),
        valid_tasks(b),
        encode(b) == encode(a) + x,
    ensures
        a.len() <= b.len(),
        b.take(a.len() as int) == a,
        x == encode(b.skip(a.len() as int)),
    decreases a.len(),
{
    if a.len() == 0 {
        assert(encode(a) + x =~= x);
        assert(b.take(0) =~= a);
        assert(b.skip(0) =~= b);
    } else {
        if b.len() == 0 {
            assert((encode(a) + x).len() > 0);
        }
        assert(valid_name(a[0].name));
        assert(valid_name(b[0].name));
        assert(encode(a) + x =~= record(a[0]) + (encode(a.drop_first()) + x));
        lemma_record_head(a[0], b[0], encode(a.drop_first()) + x, encode(b.drop_first()));
        assert forall|i: int| 0 <= i < a.drop_first().len() implies valid_name(
            #[trigger] a.drop_first()[i].name,
        ) by {
            assert(a.drop_first()[i] == a[i + 1]);
        }
        assert forall|i: int| 0 <= i < b.drop_first().len() implies valid_name(
            #[trigger] b.drop_first()[i].name,
        ) by {
            assert(b.drop_first()[i] == b[i + 1]);
        }
        lemma_encode_prefix(a.drop_first(), b.drop_first(), x);
        assert(b.take(a.len() as int) =~= a) by {
            assert forall|i: int| 0 <= i < a.len() implies b.take(a.len() as int)[i] == a[i] by {
                if i > 0 {
                    assert(b.drop_first().take(a.drop_first().len() as int)[i - 1] == a.drop_first()[i - 1]);
                }
            }
        }
        assert(b.skip(a.len() as int) =~= b.drop_first().skip(a.drop_first().len() as int));
    }
}

/// A valid record file stores exactly one list.
pub proof fn lemma_load_unique(c: Seq<char>, a: Seq<TaskModel>, b: Seq<TaskModel>)
    requires
        loads_as(c, a),
        loads_as(c, b),
    ensures
        a == b,
{
    assert(encode(b) =~= encode(a) + Seq::<char>::empty());
    lemma_encode_prefix(a, b, Seq::<char>::empty());
    if b.skip(a.len() as int).len() > 0 {
        assert(encode(b.skip(a.len() as int)).len() > 0);
    }
    assert(b =~= b.take(a.len() as int));
}

/// Saving a valid list and loading the file gives the list back.
pub proof fn lemma_save_then_load(ts: Seq<TaskModel>)
    requires
        valid_tasks(ts),
    ensures
        loads_as(encode(ts), ts),
{
    if ts.len() > 0 {
        lemma_encode_ends_with_break(ts);
    }
}

/// Loading a valid record file whose last line is terminated and saving the
/// list again gives the same text.
pub proof fn lemma_load_then_save(c: Seq<char>, ts: Seq<TaskModel>)
    requires
        loads_as(c, ts),
        c.len() == 0 || c.last() == '\n',
    ensures
        encode(ts) == c,
{
}

/// Appending the record of a new task to a terminated record file gives the
/// file of the list with that task, not done, at its end, and of no other list.
pub proof fn lemma_append_then_load(c: Seq<char>, ts: Seq<TaskModel>, name: Seq<char>)
    requires
        loads_as(c, ts),
        c.len() == 0 || c.last() == '\n',
        valid_name(name),
    ensures
        loads_as(c + record(TaskModel { name, done: false }), ts.push(TaskModel { name, done: false })),
        forall|other: Seq<TaskModel>|
            loads_as(c + record(TaskModel { name, done: false }), other) ==> other == ts.push(
                TaskModel { name, done: false },
            ),
{
    let t = TaskModel { name, done: false };
    let next = ts.push(t);
    lemma_encode_push(ts, t);
    assert forall|i: int| 0 <= i < next.len() implies valid_name(#[trigger] next[i].name) by {
        if i < ts.len() {
            assert(next[i] == ts[i]);
        }
    }
    lemma_encode_ends_with_break(next);
    assert(loads_as(c + record(t), next));
    assert forall|other: Seq<TaskModel>| loads_as(c + record(t), other) implies other == next by {
        lemma_load_unique(c + record(t), next, other);
    }
}

/// Where the rest `x` of a text is the file of a non-empty valid list, its first
/// line reaches a delimiter before any line break: right after the first name,
/// followed by that task's flag and a line break.
proof fn lemma_line_shape(x: Seq<char>, rest: Seq<TaskModel>, j: int)
    requires
        valid_tasks(rest),
        rest.len() > 0,
        x == encode(rest),
        0 <= j < x.len(),
        forall|k: int| 0 <= k < j ==> x[k] != ':' && x[k] != '\n',
        x[j] == ':' || x[j] == '\n',
    ensures
        j == rest[0].name.len(),
        x[j] == ':',
        x[j] == ':' ==> occurs_at(x, j + 1, flag_text(rest[0].done).push('\n')),
{
    let t = rest[0];
    assert(valid_name(t.name));
    let n = t.name.len() as int;
    assert(x =~= record(t) + encode(rest.drop_first()));
    assert(x[n] == ':');
    if j < n {
        assert(x[j] == t.name[j]);
    }
    let w = flag_text(t.done).push('\n');
    assert(x.subrange(n + 1, n + 1 + w.len()) =~= w) by {
        assert forall|i: int| 0 <= i < w.len() implies x.subrange(n + 1, n + 1 + w.len())[i] == w[i] by {
            assert(x[n + 1 + i] == record(t)[n + 1 + i]);
        }
    }
}

/// In a text `cs` that is the file of a valid list and starts with the file of
/// `acc`, the line after it has its delimiter where the scan for the first
/// delimiter or line break stops, and a flag with a line break after it.
proof fn lemma_line_of_loadable(
    c: Seq<char>,
    cs: Seq<char>,
    acc: Seq<TaskModel>,
    pos: int,
    j: int,
    ts: Seq<TaskModel>,
)
    requires
        cs == terminated(c),
        loads_as(c, ts),
        valid_tasks(acc),
        encode(acc) == cs.take(pos),
        0 <= pos < cs.len(),
        pos <= j <= cs.len(),
        forall|k: int| pos <= k < j ==> cs[k] != ':' && cs[k] != '\n',
        j == cs.len() || cs[j] == ':' || cs[j] == '\n',
    ensures
        j < cs.len(),
        cs[j] == ':',
        ts.len() > acc.len(),
        occurs_at(cs, j + 1, flag_text(ts[acc.len() as int].done).push('\n')),
{
    let x = cs.skip(pos);
    assert(cs =~= cs.take(pos) + x);
    lemma_encode_prefix(acc, ts, x);
    let rest = ts.skip(acc.len() as int);
    assert(valid_tasks(rest)) by {
        assert forall|i: int| 0 <= i < rest.len() implies valid_name(#[trigger] rest[i].name) by {
            assert(rest[i] == ts[acc.len() + i]);
        }
    }
    if rest.len() == 0 {
        assert(x.len() > 0);
    }
    if j == cs.len() {
        lemma_encode_ends_with_break(rest);
        assert(x[cs.len() - 1 - pos] == cs[cs.len() - 1]);
    }
    assert forall|k: int| 0 <= k < j - pos implies x[k] != ':' && x[k] != '\n' by {
        assert(x[k] == cs[pos + k]);
    }
    lemma_line_shape(x, rest, j - pos);
    assert(rest[0] == ts[acc.len() as int]);
    let w = flag_text(rest[0].done).push('\n');
    assert(cs.subrange(j + 1, j + 1 + w.len()) =~= x.subrange(j + 1 - pos, j + 1 - pos + w.len()));
}

/// Appends the record of one task to `out`.
fn push_record(out: &mut String, t: &Task)
    ensures
        final(out)@ == old(out)@ + record(t@),
{
    out.append(t.name.as_str());
    proof {
        reveal_strlit(":");
        reveal_strlit("true");
        reveal_strlit("false");
        reveal_strlit("\n");
    }
    out.append(":");
    if t.done {
        out.append("true");
    } else {
        out.append("false");
    }
    out.append("\n");
    assert(final(out)@ =~= old(out)@ + record(t@));
}

/// The record file that stores `tasks`.
pub fn format_records(tasks: &Vec<Task>) -> (r: String)
    ensures
        r@ == encode(model(tasks@)),
{
    let mut out = String::new();
    let mut i: usize = 0;
    while i < tasks.len()
        invariant
            i <= tasks@.len(),
            out@ == encode(model(tasks@).take(i as int)),
        decreases tasks@.len() - i,
    {
        push_record(&mut out, &tasks[i]);
        proof {
            lemma_encode_push(model(tasks@).take(i as int), tasks@[i as int]@);
            assert(model(tasks@).take(i as int).push(tasks@[i as int]@) =~= model(tasks@).take(
                i + 1,
            ));
        }
        i += 1;
    }
    assert(model(tasks@).take(i as int) =~= model(tasks@));
    out
}

/// The line that adds a task with this name, not done, at the end of a record file.
pub fn record_line(name: &str) -> (r: String)
    ensures
        r@ == record(TaskModel { name: name@, done: false }),
{
    let mut out = String::new();
    let t = Task::new(name, false);
    push_record(&mut out, &t);
    out
}

/// Whether the characters `w` stand in `cs` from position `k` on.
fn word_at(cs: &Vec<char>, k: usize, w: &Vec<char>) -> (r: bool)
    ensures
        r == occurs_at(cs@, k as int, w@),
{
    if k > cs.len() || w.len() > cs.len() - k {
        return false;
    }
    let mut i: usize = 0;
    while i < w.len()
        invariant
            k + w.len() <= cs.len(),
            i <= w.len(),
            forall|m: int| 0 <= m < i ==> cs@[k + m] == w@[m],
        decreases w@.len() - i,
    {
        if cs[k + i] != w[i] {
            assert(cs@.subrange(k as int, k + w@.len())[i as int] != w@[i as int]);
            return false;
        }
        i += 1;
    }
    assert(cs@.subrange(k as int, k + w@.len()) =~= w@);
    true
}

/// Reads a record file: the list it stores, or `StorageError` when it is no
/// valid record file. A last line without a line break is accepted.
pub fn parse_records(content: &str) -> (r: Result<Vec<Task>, StorageError>)
    ensures
        match r {
            Ok(ts) => loads_as(content@, model(ts@)),
            Err(_) => forall|ts: Seq<TaskModel>| !loads_as(content@, ts),
        },
{
    let mut cs = chars_of(content);
    if cs.len() > 0 && cs[cs.len() - 1] != '\n' {
        cs.push('\n');
    }
    assert(cs@ == terminated(content@));
    let yes: Vec<char> = vec!['t', 'r', 'u', 'e', '\n'];
    let no: Vec<char> = vec!['f', 'a', 'l', 's', 'e', '\n'];
    assert(yes@ =~= flag_text(true).push('\n'));
    assert(no@ =~= flag_text(false).push('\n'));
    let n = cs.len();
    let mut tasks: Vec<Task> = Vec::new();
    let mut pos: usize = 0;
    while pos < n
        invariant
            n == cs@.len(),
            cs@ == terminated(content@),
            n == 0 || cs@[n - 1] == '\n',
            yes@ == flag_text(true).push('\n'),
            no@ == flag_text(false).push('\n'),
            pos <= n,
            valid_tasks(model(tasks@)),
            encode(model(tasks@)) == cs@.take(pos as int),
        decreases n - pos,
    {
        let mut j: usize = pos;
        while j < n && cs[j] != ':' && cs[j] != '\n'
            invariant
                n == cs@.len(),
                pos <= j <= n,
                forall|k: int| pos <= k < j ==> cs@[k] != ':' && cs@[k] != '\n',
            decreases n - j,
        {
            j += 1;
        }
        let ghost acc = model(tasks@);
        if j == n || cs[j] != ':' {
            proof {
                assert forall|ts: Seq<TaskModel>| !loads_as(content@, ts) by {
                    if loads_as(content@, ts) {
                        lemma_line_of_loadable(content@, cs@, acc, pos as int, j as int, ts);
                    }
                }
            }
            return Err(StorageError);
        }
        let is_yes = word_at(&cs, j + 1, &yes);
        let is_no = word_at(&cs, j + 1, &no);
        if !is_yes && !is_no {
            proof {
                assert forall|ts: Seq<TaskModel>| !loads_as(content@, ts) by {
                    if loads_as(content@, ts) {
                        lemma_line_of_loadable(content@, cs@, acc, pos as int, j as int, ts);
                    }
                }
            }
            return Err(StorageError);
        }
        let done = is_yes;
        let ghost w = flag_text(done).push('\n');
        let name = content.substring_char(pos, j);
        assert(name@ =~= cs@.subrange(pos as int, j as int));
        let t = Task::new(name, done);
        proof {
            assert(valid_name(t@.name)) by {
                assert forall|i: int| 0 <= i < t@.name.len() implies t@.name[i] != ':' && t@.name[i] != '\n' by {
                    assert(t@.name[i] == cs@[pos + i]);
                }
            }
            lemma_encode_push(acc, t@);
            assert(cs@.subrange(j + 1, j + 1 + w.len()) == w);
            assert(cs@.subrange(pos as int, j + 1 + w.len()) =~= cs@.subrange(pos as int, j as int)
                + seq![':'] + w);
            assert(record(t@) =~= t@.name + seq![':'] + w);
            assert(cs@.take(j + 1 + w.len()) =~= cs@.take(pos as int) + cs@.subrange(pos as int, j + 1 + w.len()));
        }
        tasks.push(t);
        proof {
            assert(model(tasks@) =~= acc.push(t@));
            assert forall|i: int| 0 <= i < model(tasks@).len() implies valid_name(#[trigger] model(tasks@)[i].name) by {
                if i < acc.len() {
                    assert(model(tasks@)[i] == acc[i]);
                }
            }
        }
        pos = j + 1 + if done { 5 } else { 6 };
    }
    assert(cs@.take(n as int) =~= cs@);
    Ok(tasks)
}

} // verus!
