//! Laws of the table of usage.

use crate::relay_server::usage::{
    has_run, is_table, lemma_table_shows_sessions, row_of, stably_sorted, usage_reply, usage_rows,
    with_bits, Entry, UsageRow,
};
use crate::text::{digits, texts};
use vstd::prelude::*;

verus! {

/// Whether a row says of a session what its account holds: the whole seconds of its milliseconds,
/// its bits, and the highest, the mean and the last speed, the mean rounded down.
pub open spec fn tells(row: UsageRow, e: Entry) -> bool {
    let (elapsed, total, highest, speed) = e.1;
    &&& row.ip == e.0
    &&& row.seconds * 1000 <= elapsed < (row.seconds + 1) * 1000
    &&& row.bits == total
    &&& row.highest == highest
    &&& row.average * elapsed <= total < (row.average + 1) * elapsed
    &&& row.speed == speed
}

proof fn lemma_row_tells(e: Entry)
    requires
        e.1.0 != 0,
    ensures
        tells(row_of(e), e),
{
    let (a, b) = (e.1.1 as int, e.1.0 as int);
    assert((a / b) * b <= a < (a / b + 1) * b) by (nonlinear_arith)
        requires
            a >= 0,
            b > 0,
    ;
}

pub(crate) proof fn lemma_rows_of_entries(entries: Seq<Entry>, rows: Seq<UsageRow>)
    requires
        is_table(entries, rows),
    ensures
        forall|e: Entry| #[trigger]
            entries.contains(e) && e.1.0 > 0 ==> exists|row: UsageRow| #[trigger]
                rows.contains(row) && tells(row, e),
        forall|row: UsageRow| #[trigger]
            rows.contains(row) ==> exists|e: Entry| #[trigger]
                entries.contains(e) && e.1.0 > 0 && tells(row, e),
        forall|i: int, j: int|
            0 <= i < j < rows.len() ==> (#[trigger] rows[i]).bits >= (#[trigger] rows[j]).bits,
{
    lemma_table_shows_sessions(entries, rows);
    assert forall|e: Entry| #[trigger] entries.contains(e) && e.1.0 > 0 implies exists|
        row: UsageRow,
    | #[trigger] rows.contains(row) && tells(row, e) by {
        lemma_row_tells(e);
        assert(rows.contains(row_of(e)));
    }
    assert forall|row: UsageRow| #[trigger] rows.contains(row) implies exists|e: Entry| #[trigger]
        entries.contains(e) && e.1.0 > 0 && tells(row, e) by {
        let e = choose|e: Entry| #[trigger]
            entries.contains(e) && e.1.0 != 0 && row_of(e) == row;
        lemma_row_tells(e);
    }
}

/// The table has a row for each session that has run, which says what its account holds, and no
/// other row; those with more bits come first.
pub proof fn lemma_rows_of_the_table(
    entries: &Vec<(String, (u64, u64, u64, u64))>,
    rows: Vec<UsageRow>,
)
    requires
        call_ensures(usage_rows, (entries,), rows),
    ensures
        forall|e: Entry| #[trigger]
            entries@.contains(e) && e.1.0 > 0 ==> exists|row: UsageRow| #[trigger]
                rows@.contains(row) && tells(row, e),
        forall|row: UsageRow| #[trigger]
            rows@.contains(row) ==> exists|e: Entry| #[trigger]
                entries@.contains(e) && e.1.0 > 0 && tells(row, e),
        forall|i: int, j: int|
            0 <= i < j < rows@.len() ==> (#[trigger] rows@[i]).bits >= (#[trigger] rows@[j]).bits,
{
    lemma_rows_of_entries(entries@, rows@);
}

/// How often an entry occurs.
spec fn times(s: Seq<Entry>, e: Entry) -> nat
    decreases s.len(),
{
    if s.len() == 0 {
        0
    } else {
        times(s.drop_last(), e) + if s.last() == e {
            1nat
        } else {
            0nat
        }
    }
}

proof fn lemma_filter_keeps_times(s: Seq<Entry>, p: spec_fn(Entry) -> bool, e: Entry)
    ensures
        times(s.filter(p), e) == (if p(e) {
            times(s, e)
        } else {
            0
        }),
    decreases s.len(),
{
    reveal(Seq::filter);
    if s.len() > 0 {
        lemma_filter_keeps_times(s.drop_last(), p, e);
        let front = s.drop_last().filter(p);
        assert(front.push(s.last()).drop_last() =~= front);
    }
}

proof fn lemma_times_at(s: Seq<Entry>, i: int)
    requires
        0 <= i < s.len(),
    ensures
        times(s, s[i]) > 0,
    decreases s.len(),
{
    if i < s.len() - 1 {
        lemma_times_at(s.drop_last(), i);
    }
}

proof fn lemma_times_split(s: Seq<Entry>, i: int, j: int)
    requires
        0 <= i < j < s.len(),
        s[i] == s[j],
    ensures
        times(s, s[i]) > 1,
    decreases s.len(),
{
    if j == s.len() - 1 {
        lemma_times_at(s.drop_last(), i);
    } else {
        lemma_times_split(s.drop_last(), i, j);
    }
}

proof fn lemma_times_once(s: Seq<Entry>, e: Entry)
    requires
        forall|i: int, j: int|
            0 <= i < j < s.len() ==> (#[trigger] s[i]).0@ != (#[trigger] s[j]).0@,
    ensures
        times(s, e) <= 1,
    decreases s.len(),
{
    if s.len() > 0 {
        let front = s.drop_last();
        lemma_times_once(front, e);
        if s.last() == e && times(front, e) > 0 {
            lemma_times_found(front, e);
            let i = choose|i: int| 0 <= i < front.len() && front[i] == e;
            assert(s[i].0@ != s[s.len() - 1].0@);
        }
    }
}

proof fn lemma_times_found(s: Seq<Entry>, e: Entry)
    requires
        times(s, e) > 0,
    ensures
        s.contains(e),
    decreases s.len(),
{
    if s.last() == e {
        assert(s[s.len() - 1] == e);
    } else {
        lemma_times_found(s.drop_last(), e);
        let i = choose|i: int| 0 <= i < s.drop_last().len() && s.drop_last()[i] == e;
        assert(s[i] == e);
    }
}

pub(crate) proof fn lemma_rows_differ(s: Seq<Entry>, rows: Seq<UsageRow>, i: int, j: int)
    requires
        is_table(s, rows),
        forall|a: int, b: int|
            0 <= a < b < s.len() ==> (#[trigger] s[a]).0@ != (#[trigger] s[b]).0@,
        0 <= i < j < rows.len(),
    ensures
        rows[i].ip@ != rows[j].ip@,
{
    let sorted = choose|sorted: Seq<Entry>|
        #[trigger] stably_sorted(s, sorted) && rows == sorted.filter(has_run()).map_values(
            |e: Entry| row_of(e),
        );
    let shown = sorted.filter(has_run());
    let (x, y) = (shown[i], shown[j]);
    assert(rows[i] == row_of(x) && rows[j] == row_of(y));
    if rows[i].ip@ == rows[j].ip@ {
        lemma_shown_is_entry(s, sorted, i);
        lemma_shown_is_entry(s, sorted, j);
        let a = choose|a: int| 0 <= a < s.len() && s[a] == x;
        let b = choose|b: int| 0 <= b < s.len() && s[b] == y;
        assert(a == b) by {
            if a < b {
                assert(s[a].0@ != s[b].0@);
            } else if b < a {
                assert(s[b].0@ != s[a].0@);
            }
        }
        lemma_times_split(shown, i, j);
        lemma_filter_keeps_times(sorted, has_run(), x);
        lemma_filter_keeps_times(sorted, with_bits(x.1.1), x);
        lemma_filter_keeps_times(s, with_bits(x.1.1), x);
        assert(sorted.filter(with_bits(x.1.1)) == s.filter(with_bits(x.1.1)));
        lemma_times_once(s, x);
    }
}

/// No session has two rows.
pub proof fn lemma_no_session_is_shown_twice(
    entries: &Vec<(String, (u64, u64, u64, u64))>,
    rows: Vec<UsageRow>,
    i: int,
    j: int,
)
    requires
        call_ensures(usage_rows, (entries,), rows),
        forall|a: int, b: int|
            0 <= a < b < entries@.len() ==> (#[trigger] entries@[a]).0@ != (
            #[trigger] entries@[b]).0@,
        0 <= i < j < rows@.len(),
    ensures
        rows@[i].ip@ != rows@[j].ip@,
{
    lemma_rows_differ(entries@, rows@, i, j);
}

proof fn lemma_shown_is_entry(s: Seq<Entry>, sorted: Seq<Entry>, i: int)
    requires
        stably_sorted(s, sorted),
        0 <= i < sorted.filter(has_run()).len(),
    ensures
        s.contains(sorted.filter(has_run())[i]),
{
    let x = sorted.filter(has_run())[i];
    let p = with_bits(x.1.1);
    lemma_times_at(sorted.filter(has_run()), i);
    lemma_filter_keeps_times(sorted, has_run(), x);
    lemma_filter_keeps_times(sorted, p, x);
    lemma_filter_keeps_times(s, p, x);
    assert(sorted.filter(p) == s.filter(p));
    lemma_times_found(s, x);
}

/// The words of a table are those of its rows one after the other, each on a line of its own.
pub proof fn lemma_words_row_by_row(
    rows: &Vec<UsageRow>,
    megabytes: &Vec<String>,
    more_rows: &Vec<UsageRow>,
    more_megabytes: &Vec<String>,
    row: UsageRow,
    mb: String,
    out: String,
    more: String,
)
    requires
        rows@.len() == megabytes@.len(),
        more_rows@ == rows@.push(row),
        more_megabytes@ == megabytes@.push(mb),
        call_ensures(usage_reply, (rows, megabytes), out),
        call_ensures(usage_reply, (more_rows, more_megabytes), more),
    ensures
        rows@.len() == 0 ==> out@.len() == 0,
        more@ == out@ + (row.ip@ + ": "@ + digits(row.seconds as nat) + "s "@ + mb@ + "MB "@
            + digits(row.highest as nat) + "bit/ms "@ + digits(row.average as nat) + "bit/ms "@
            + digits(row.speed as nat) + "bit/ms\n"@),
{
    assert(more_rows@.drop_last() =~= rows@);
    assert(texts(more_megabytes@).drop_last() =~= texts(megabytes@));
    assert(texts(more_megabytes@).last() == mb@);
}

} // verus!
