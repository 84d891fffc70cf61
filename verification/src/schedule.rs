//! The table of scheduled tasks.
//!
//! The table is a text: lines, each closed by a line feed, the last one
//! possibly left open. A carriage return that stands directly before a line
//! feed belongs to the line's ending, not to the line. Registering a task
//! leaves a table that already holds the task's line as it is, and otherwise
//! closes the table with a line feed and appends the line.

use vstd::prelude::*;
use crate::text::chars_of;

verus! {

/// The number of characters of `s` that stand before its first line feed, or
/// the length of `s` where it holds none.
pub open spec fn first_break(s: Seq<char>) -> nat
    decreases s.len(),
{
    if s.len() == 0 || s[0] == '\n' {
        0
    } else {
        (1 + first_break(s.drop_first())) as nat
    }
}

/// `s` without the carriage return at its end, if it has one.
pub open spec fn strip_cr(s: Seq<char>) -> Seq<char> {
    if s.len() > 0 && s.last() == '\r' {
        s.drop_last()
    } else {
        s
    }
}

/// The lines of a text, without their endings. An empty text has no line; a
/// line feed at the very end opens no further line; a last line that no line
/// feed closes is taken whole.
pub open spec fn lines(s: Seq<char>) -> Seq<Seq<char>>
    decreases s.len(),
{
    if s.len() == 0 {
        Seq::empty()
    } else {
        let k = first_break(s);
        if k >= s.len() {
            seq![s]
        } else {
            seq![strip_cr(s.subrange(0, k as int))] + lines(
                s.subrange(k as int + 1, s.len() as int),
            )
        }
    }
}

/// Whether one of the lines of `table` is exactly `line`.
pub open spec fn has_line(table: Seq<char>, line: Seq<char>) -> bool {
    lines(table).contains(line)
}

/// A text that can stand as one line of a table and be read back unchanged:
/// it holds no line feed and does not end in a carriage return.
pub open spec fn single_line(line: Seq<char>) -> bool {
    &&& forall|i: int| 0 <= i < line.len() ==> line[i] != '\n'
    &&& !(line.len() > 0 && line.last() == '\r')
}

/// The table after `line` has been registered in `table`.
pub open spec fn registered(table: Seq<char>, line: Seq<char>) -> Seq<char> {
    if has_line(table, line) {
        table
    } else {
        table + seq!['\n'] + line + seq!['\n']
    }
}

/// `first_break` stays within the text, no line feed stands before it, and
/// one stands at it unless it is the text's end.
pub proof fn lemma_first_break_bounds(s: Seq<char>)
    ensures
        first_break(s) <= s.len(),
        forall|i: int| 0 <= i < first_break(s) ==> s[i] != '\n',
        first_break(s) < s.len() ==> s[first_break(s) as int] == '\n',
    decreases s.len(),
{
    if s.len() == 0 || s[0] == '\n' {
    } else {
        let t = s.drop_first();
        lemma_first_break_bounds(t);
        assert forall|i: int| 0 <= i < first_break(s) implies s[i] != '\n' by {
            if i > 0 {
                assert(s[i] == t[i - 1]);
            }
        }
        assert(first_break(s) < s.len() ==> s[first_break(s) as int] == t[first_break(t) as int]);
    }
}

/// The first position of `s` that is its end or holds a line feed is
/// `first_break(s)`.
pub proof fn lemma_first_break_at(s: Seq<char>, k: int)
    requires
        0 <= k <= s.len(),
        forall|i: int| 0 <= i < k ==> s[i] != '\n',
        k == s.len() || s[k] == '\n',
    ensures
        first_break(s) == k,
    decreases s.len(),
{
    if k == 0 {
    } else {
        let t = s.drop_first();
        assert(s[0] != '\n');
        assert forall|i: int| 0 <= i < k - 1 implies t[i] != '\n' by {
            assert(t[i] == s[i + 1]);
        }
        lemma_first_break_at(t, k - 1);
    }
}

/// A sequence with `head` in front holds `x` exactly if `head` is `x` or the
/// rest holds `x`.
proof fn lemma_contains_front(head: Seq<char>, rest: Seq<Seq<char>>, x: Seq<char>)
    ensures
        (seq![head] + rest).contains(x) <==> (head == x || rest.contains(x)),
{
    let all = seq![head] + rest;
    if all.contains(x) {
        let i = choose|i: int| 0 <= i < all.len() && all[i] == x;
        if i > 0 {
            assert(rest[i - 1] == x);
        }
    }
    if head == x {
        assert(all[0] == x);
    }
    if rest.contains(x) {
        let j = choose|j: int| 0 <= j < rest.len() && rest[j] == x;
        assert(all[j + 1] == x);
    }
}

/// Whether the characters of `text` from `from` up to `to` spell `word`.
fn spells(text: &Vec<char>, from: usize, to: usize, word: &Vec<char>) -> (b: bool)
    requires
        from <= to <= text@.len(),
    ensures
        b == (text@.subrange(from as int, to as int) == word@),
{
    let ghost part = text@.subrange(from as int, to as int);
    if to - from != word.len() {
        return false;
    }
    let mut i: usize = 0;
    while i < word.len()
        invariant
            from <= to <= text@.len(),
            to - from == word@.len(),
            i <= word@.len(),
            part == text@.subrange(from as int, to as int),
            forall|j: int| 0 <= j < i ==> part[j] == word@[j],
        decreases word@.len() - i,
    {
        if text[from + i] != word[i] {
            assert(part[i as int] != word@[i as int]);
            return false;
        }
        i += 1;
    }
    assert(part =~= word@);
    true
}

/// Whether one of the lines of `table` is exactly `line`.
pub fn contains_line(table: &Vec<char>, line: &Vec<char>) -> (found: bool)
    ensures
        found == has_line(table@, line@),
{
    let n: usize = table.len();
    let mut start: usize = 0;
    let mut found: bool = false;
    assert(table@.subrange(0, n as int) =~= table@);
    while start < n && !found
        invariant
            n == table@.len(),
            start <= n,
            has_line(table@, line@) <==> (found || has_line(
                table@.subrange(start as int, n as int),
                line@,
            )),
        decreases n - start,
    {
        let mut end: usize = start;
        while end < n && table[end] != '\n'
            invariant
                n == table@.len(),
                start <= end <= n,
                forall|i: int| start <= i < end ==> table@[i] != '\n',
            decreases n - end,
        {
            end += 1;
        }
        let closed: bool = end < n;
        let mut stop: usize = end;
        if closed && stop > start && table[stop - 1] == '\r' {
            stop -= 1;
        }
        let same: bool = spells(table, start, stop, line);
        let next: usize = if closed { end + 1 } else { n };
        proof {
            let rest = table@.subrange(start as int, n as int);
            let k = end - start;
            lemma_first_break_at(rest, k);
            if closed {
                let head = rest.subrange(0, k);
                let tail = rest.subrange(k + 1, rest.len() as int);
                assert(head =~= table@.subrange(start as int, end as int));
                assert(tail =~= table@.subrange(next as int, n as int));
                assert(strip_cr(head) =~= table@.subrange(start as int, stop as int));
                lemma_contains_front(strip_cr(head), lines(tail), line@);
            } else {
                assert(rest =~= table@.subrange(start as int, stop as int));
                lemma_contains_front(rest, Seq::empty(), line@);
                assert(seq![rest] + Seq::<Seq<char>>::empty() =~= seq![rest]);
                assert(table@.subrange(next as int, n as int) =~= Seq::<char>::empty());
            }
        }
        found = same;
        start = next;
    }
    found
}

/// Registers `line` in `table`: a table that holds the line already is handed
/// back as it is; any other gets a line feed, the line, and a line feed more
/// at its end.
pub fn register(table: String, line: &str) -> (out: String)
    ensures
        has_line(table@, line@) ==> out@ == table@,
        !has_line(table@, line@) ==> out@ == table@ + seq!['\n'] + line@ + seq!['\n'],
        out@ == registered(table@, line@),
{
    let present: bool = contains_line(&chars_of(table.as_str()), &chars_of(line));
    if present {
        table
    } else {
        proof {
            reveal_strlit("\n");
            assert("\n"@ =~= seq!['\n']);
        }
        table.concat("\n").concat(line).concat("\n")
    }
}

/// A line appended to a table is one of the lines of the result, whatever the
/// table held before, as long as the line can stand as one line.
pub proof fn lemma_appended_line_is_held(table: Seq<char>, line: Seq<char>)
    requires
        single_line(line),
    ensures
        has_line(table + seq!['\n'] + line + seq!['\n'], line),
    decreases table.len(),
{
    let s = table + seq!['\n'] + line + seq!['\n'];
    let k = first_break(table) as int;
    lemma_first_break_bounds(table);
    lemma_first_break_at(s, k);
    let head = strip_cr(s.subrange(0, k));
    let tail = s.subrange(k + 1, s.len() as int);
    if k == table.len() {
        assert(tail =~= line + seq!['\n']);
        lemma_first_break_at(tail, line.len() as int);
        assert(tail.subrange(0, line.len() as int) =~= line);
        assert(lines(tail)[0] == line);
    } else {
        let shorter = table.subrange(k + 1, table.len() as int);
        assert(tail =~= shorter + seq!['\n'] + line + seq!['\n']);
        lemma_appended_line_is_held(shorter, line);
    }
    lemma_contains_front(head, lines(tail), line);
}

/// After a line has been registered, the table holds it.
pub proof fn lemma_registered_is_held(table: Seq<char>, line: Seq<char>)
    requires
        single_line(line),
    ensures
        has_line(registered(table, line), line),
{
    if !has_line(table, line) {
        lemma_appended_line_is_held(table, line);
    }
}

/// Registering is idempotent: to register a line a second time changes
/// nothing.
pub proof fn lemma_register_idempotent(table: Seq<char>, line: Seq<char>)
    requires
        single_line(line),
    ensures
        registered(registered(table, line), line) == registered(table, line),
{
    lemma_registered_is_held(table, line);
}

/// A text without characters has no line.
proof fn lemma_no_lines(s: Seq<char>)
    requires
        s.len() == 0,
    ensures
        lines(s) == Seq::<Seq<char>>::empty(),
{
}

/// A line feed parts a text in two: the lines of the whole are those of what
/// stands up to the line feed, followed by those of what stands behind it.
pub proof fn lemma_lines_split(front: Seq<char>, back: Seq<char>)
    ensures
        lines(front + seq!['\n'] + back) == lines(front + seq!['\n']) + lines(back),
    decreases front.len(),
{
    let whole = front + seq!['\n'] + back;
    let closed = front + seq!['\n'];
    let k = first_break(front) as int;
    lemma_first_break_bounds(front);
    lemma_first_break_at(whole, k);
    lemma_first_break_at(closed, k);
    assert(whole.subrange(0, k) =~= closed.subrange(0, k));
    let whole_tail = whole.subrange(k + 1, whole.len() as int);
    let closed_tail = closed.subrange(k + 1, closed.len() as int);
    if k == front.len() {
        assert(whole_tail =~= back);
        lemma_no_lines(closed_tail);
    } else {
        let shorter = front.subrange(k + 1, front.len() as int);
        assert(whole_tail =~= shorter + seq!['\n'] + back);
        assert(closed_tail =~= shorter + seq!['\n']);
        lemma_lines_split(shorter, back);
    }
    assert(lines(whole) =~= lines(closed) + lines(back));
}

/// What a line feed at the end does to the lines of a text that does not end
/// in a carriage return: it closes a last line that was open, and adds an
/// empty line where there was none to close.
pub proof fn lemma_lines_closed(table: Seq<char>)
    requires
        !(table.len() > 0 && table.last() == '\r'),
    ensures
        lines(table + seq!['\n']) == if table.len() == 0 || table.last() == '\n' {
            lines(table) + seq![Seq::<char>::empty()]
        } else {
            lines(table)
        },
    decreases table.len(),
{
    let closed = table + seq!['\n'];
    let k = first_break(table) as int;
    lemma_first_break_bounds(table);
    lemma_first_break_at(closed, k);
    let tail = closed.subrange(k + 1, closed.len() as int);
    assert(closed.subrange(0, k) =~= table.subrange(0, k));
    if k == table.len() {
        lemma_no_lines(tail);
        assert(table.subrange(0, k) =~= table);
        if table.len() == 0 {
            assert(table =~= Seq::<char>::empty());
            assert(lines(closed) =~= lines(table) + seq![Seq::<char>::empty()]);
        } else {
            assert(lines(closed) =~= lines(table));
        }
    } else {
        let shorter = table.subrange(k + 1, table.len() as int);
        assert(tail =~= shorter + seq!['\n']);
        if shorter.len() > 0 {
            assert(shorter.last() == table.last());
        }
        lemma_lines_closed(shorter);
        if table.last() == '\n' {
            assert(lines(closed) =~= lines(table) + seq![Seq::<char>::empty()]);
        } else {
            assert(lines(closed) =~= lines(table));
        }
    }
}

/// The lines of a table after a registration that had to append: the lines it
/// had, an empty line where its last line was closed already (or there was
/// none), and the new line. Nothing that stood in the table is lost or
/// changed.
pub proof fn lemma_registered_lines(table: Seq<char>, line: Seq<char>)
    requires
        single_line(line),
        !(table.len() > 0 && table.last() == '\r'),
        !has_line(table, line),
    ensures
        lines(registered(table, line)) == if table.len() == 0 || table.last() == '\n' {
            lines(table) + seq![Seq::<char>::empty(), line]
        } else {
            lines(table) + seq![line]
        },
{
    let back = line + seq!['\n'];
    assert(registered(table, line) =~= table + seq!['\n'] + back);
    lemma_lines_split(table, back);
    lemma_lines_closed(table);
    lemma_first_break_at(back, line.len() as int);
    assert(back.subrange(0, line.len() as int) =~= line);
    lemma_no_lines(back.subrange(line.len() as int + 1, back.len() as int));
    assert(lines(back) =~= seq![line]);
    if table.len() == 0 || table.last() == '\n' {
        assert(lines(table) + seq![Seq::<char>::empty()] + seq![line] =~= lines(table)
            + seq![Seq::<char>::empty(), line]);
    }
}

/// How many of `ls` are exactly `x`.
pub open spec fn count_of(ls: Seq<Seq<char>>, x: Seq<char>) -> nat
    decreases ls.len(),
{
    if ls.len() == 0 {
        0
    } else {
        count_of(ls.drop_last(), x) + if ls.last() == x {
            1nat
        } else {
            0nat
        }
    }
}

/// Counting goes through concatenation.
pub proof fn lemma_count_concat(a: Seq<Seq<char>>, b: Seq<Seq<char>>, x: Seq<char>)
    ensures
        count_of(a + b, x) == count_of(a, x) + count_of(b, x),
    decreases b.len(),
{
    if b.len() == 0 {
        assert(a + b =~= a);
    } else {
        assert((a + b).drop_last() =~= a + b.drop_last());
        lemma_count_concat(a, b.drop_last(), x);
    }
}

/// A sequence holds `x` exactly if `x` is counted in it at least once.
pub proof fn lemma_count_held(ls: Seq<Seq<char>>, x: Seq<char>)
    ensures
        ls.contains(x) <==> count_of(ls, x) > 0,
    decreases ls.len(),
{
    if ls.len() > 0 {
        let front = ls.drop_last();
        lemma_count_held(front, x);
        if ls.contains(x) && ls.last() != x {
            let i = choose|i: int| 0 <= i < ls.len() && ls[i] == x;
            assert(front[i] == x);
        }
        if front.contains(x) {
            let i = choose|i: int| 0 <= i < front.len() && front[i] == x;
            assert(ls[i] == x);
        }
        if ls.last() == x {
            assert(ls[ls.len() - 1] == x);
        }
    }
}

/// A table that holds a line at most once holds it exactly once after the
/// line has been registered. This is stated of a line that is not empty and
/// can stand as one line, and of a table that does not end in a carriage
/// return.
pub proof fn lemma_registered_once(table: Seq<char>, line: Seq<char>)
    requires
        single_line(line),
        line.len() > 0,
        !(table.len() > 0 && table.last() == '\r'),
        count_of(lines(table), line) <= 1,
    ensures
        count_of(lines(registered(table, line)), line) == 1,
{
    lemma_count_held(lines(table), line);
    if !has_line(table, line) {
        lemma_registered_lines(table, line);
        let added = if table.len() == 0 || table.last() == '\n' {
            seq![Seq::<char>::empty(), line]
        } else {
            seq![line]
        };
        lemma_count_concat(lines(table), added, line);
        assert(count_of(added, line) == 1) by {
            reveal_with_fuel(count_of, 3);
            assert(added.drop_last().len() == added.len() - 1);
            if added.len() == 2 {
                assert(added.drop_last() =~= seq![Seq::<char>::empty()]);
                assert(added.drop_last().drop_last() =~= Seq::<Seq<char>>::empty());
            } else {
                assert(added.drop_last() =~= Seq::<Seq<char>>::empty());
            }
        }
    }
}

} // verus!
