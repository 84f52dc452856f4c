//! Text in and out: decimal numbers, task ids typed by the user, and the
//! listing of a task list.

use vstd::prelude::*;
use vstd::string::*;
use crate::task::{count_done, done_count, TaskList, TaskView};

verus! {

/// The character of a decimal digit.
pub open spec fn digit_char(d: nat) -> char {
    seq!['0', '1', '2', '3', '4', '5', '6', '7', '8', '9'][d as int]
}

/// `n` written in decimal, without leading zeros.
pub open spec fn decimal(n: nat) -> Seq<char>
    decreases n,
{
    if n < 10 {
        seq![digit_char(n)]
    } else {
        decimal(n / 10).push(digit_char(n % 10))
    }
}

/// Every character of `s` is an ASCII digit.
pub open spec fn all_digits(s: Seq<char>) -> bool {
    forall|i: int| 0 <= i < s.len() ==> '0' <= #[trigger] s[i] <= '9'
}

/// The number that a string of ASCII digits denotes.
pub open spec fn digits_value(s: Seq<char>) -> nat
    decreases s.len(),
{
    if s.len() == 0 {
        0
    } else {
        digits_value(s.drop_last()) * 10 + (s.last() as nat - '0' as nat) as nat
    }
}

/// The digits of an unsigned number as typed: one optional leading `+`.
pub open spec fn unsigned_digits(s: Seq<char>) -> Seq<char> {
    if s.len() > 0 && s[0] == '+' {
        s.drop_first()
    } else {
        s
    }
}

/// The `u32` that `s` denotes: an optional `+`, then at least one ASCII digit,
/// and a value that fits.
pub open spec fn parsed_u32(s: Seq<char>) -> Option<u32> {
    let d = unsigned_digits(s);
    if d.len() > 0 && all_digits(d) && digits_value(d) <= u32::MAX {
        Some(digits_value(d) as u32)
    } else {
        None
    }
}

/// The marker in front of a task: checked when done.
pub open spec fn status_glyph(done: bool) -> Seq<char> {
    if done {
        "[✓] "@
    } else {
        "[ ] "@
    }
}

/// One line of the listing: status, id and description.
pub open spec fn task_line(t: TaskView) -> Seq<char> {
    status_glyph(t.done) + decimal(t.id) + " "@ + t.description + "\n"@
}

/// The lines of all tasks, in list order.
pub open spec fn task_lines(s: Seq<TaskView>) -> Seq<char>
    decreases s.len(),
{
    if s.len() == 0 {
        Seq::empty()
    } else {
        task_lines(s.drop_last()) + task_line(s.last())
    }
}

/// The closing line that counts the finished tasks, with a blank line after it;
/// its wording names what it counts.
pub open spec fn done_summary(n: nat) -> Seq<char> {
    "You have "@ + decimal(n) + " completed task(s).\n\n"@
}

/// The whole listing: every task, then the count of finished ones when there
/// is at least one.
pub open spec fn listing(s: Seq<TaskView>) -> Seq<char> {
    if done_count(s) > 0 {
        task_lines(s) + done_summary(done_count(s))
    } else {
        task_lines(s)
    }
}

fn digit_str(d: u32) -> (r: &'static str)
    requires
        d < 10,
    ensures
        r@ == seq![digit_char(d as nat)],
{
    proof {
        reveal_strlit("0");
        reveal_strlit("1");
        reveal_strlit("2");
        reveal_strlit("3");
        reveal_strlit("4");
        reveal_strlit("5");
        reveal_strlit("6");
        reveal_strlit("7");
        reveal_strlit("8");
        reveal_strlit("9");
    }
    let r = match d {
        0 => "0",
        1 => "1",
        2 => "2",
        3 => "3",
        4 => "4",
        5 => "5",
        6 => "6",
        7 => "7",
        8 => "8",
        _ => "9",
    };
    assert(r@ =~= seq![digit_char(d as nat)]);
    r
}

/// Appends `n` in decimal.
fn push_decimal(out: &mut String, n: usize)
    ensures
        final(out)@ == old(out)@ + decimal(n as nat),
    decreases n,
{
    if n >= 10 {
        push_decimal(out, n / 10);
    }
    out.append(digit_str((n % 10) as u32));
    assert(final(out)@ =~= old(out)@ + decimal(n as nat));
}

/// `n` in decimal.
pub fn decimal_text(n: usize) -> (r: String)
    ensures
        r@ == decimal(n as nat),
{
    let mut out = String::new();
    push_decimal(&mut out, n);
    assert(out@ =~= decimal(n as nat));
    out
}

/// A prefix of a digit string denotes no more than the whole string.
proof fn lemma_digits_value_prefix(s: Seq<char>, k: int)
    requires
        0 <= k <= s.len(),
        all_digits(s),
    ensures
        digits_value(s.subrange(0, k)) <= digits_value(s),
    decreases s.len(),
{
    if k < s.len() {
        let p = s.drop_last();
        assert(all_digits(p)) by {
            assert forall|i: int| 0 <= i < p.len() implies '0' <= #[trigger] p[i] <= '9' by {
                assert(p[i] == s[i]);
            }
        }
        lemma_digits_value_prefix(p, k);
        assert(p.subrange(0, k) =~= s.subrange(0, k));
    } else {
        assert(s.subrange(0, k) =~= s);
    }
}

/// Reads a task id as typed: an optional `+` and decimal digits that fit in a
/// `u32`; anything else, the empty string included, gives `None`.
pub fn parse_u32(s: &str) -> (r: Option<u32>)
    ensures
        r == parsed_u32(s@),
{
    let n = s.unicode_len();
    let mut start: usize = 0;
    if n > 0 && s.get_char(0) == '+' {
        start = 1;
    }
    let ghost d = unsigned_digits(s@);
    assert(d =~= s@.subrange(start as int, n as int));
    if start == n {
        return None;
    }
    let mut value: u64 = 0;
    let mut i: usize = start;
    while i < n
        invariant
            n == s@.len(),
            d == s@.subrange(start as int, n as int),
            d == unsigned_digits(s@),
            start <= i <= n,
            value <= u32::MAX,
            all_digits(s@.subrange(start as int, i as int)),
            value == digits_value(s@.subrange(start as int, i as int)),
        decreases n - i,
    {
        let c = s.get_char(i);
        if c < '0' || c > '9' {
            assert(d[i - start] == c);
            assert(!all_digits(d));
            return None;
        }
        let ghost prev = s@.subrange(start as int, i as int);
        let ghost next = s@.subrange(start as int, i + 1);
        assert(next.drop_last() =~= prev);
        assert(all_digits(next)) by {
            assert forall|j: int| 0 <= j < next.len() implies '0' <= #[trigger] next[j] <= '9' by {
                if j < prev.len() {
                    assert(next[j] == prev[j]);
                }
            }
        }
        value = value * 10 + (c as u64 - '0' as u64);
        assert(value == digits_value(next));
        if value > u32::MAX as u64 {
            proof {
                if all_digits(d) {
                    assert(d.subrange(0, i + 1 - start) =~= next);
                    lemma_digits_value_prefix(d, i + 1 - start);
                }
                assert(!(all_digits(d) && digits_value(d) <= u32::MAX));
            }
            return None;
        }
        i = i + 1;
    }
    Some(value as u32)
}

/// Appends the listing line of one task.
fn push_task_line(out: &mut String, t: &crate::task::Task)
    ensures
        final(out)@ == old(out)@ + task_line(t@),
{
    if t.done {
        out.append("[✓] ");
    } else {
        out.append("[ ] ");
    }
    push_decimal(out, t.id as usize);
    out.append(" ");
    out.append(t.description.as_str());
    out.append("\n");
    assert(final(out)@ =~= old(out)@ + task_line(t@));
}

/// The listing of a task list: one line per task, `[✓]` or `[ ]`, id and
/// description, then, when any task is done, a line with their number.
pub fn display_tasks(tasks: &TaskList) -> (r: String)
    ensures
        r@ == listing(tasks@),
{
    let mut out = String::new();
    let n = tasks.tasks.len();
    let mut i: usize = 0;
    while i < n
        invariant
            n == tasks@.len(),
            i <= n,
            out@ == task_lines(tasks@.subrange(0, i as int)),
        decreases n - i,
    {
        assert(tasks@.subrange(0, i + 1).drop_last() =~= tasks@.subrange(0, i as int));
        push_task_line(&mut out, &tasks.tasks[i]);
        i = i + 1;
    }
    assert(tasks@.subrange(0, n as int) =~= tasks@);
    let count = count_done(tasks);
    if count > 0 {
        out.append("You have ");
        push_decimal(&mut out, count);
        out.append(" completed task(s).\n\n");
        assert(out@ =~= listing(tasks@));
    }
    out
}

} // verus!
