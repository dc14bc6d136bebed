//! The table of usage that the server shows: which sessions, in which order, in which words.

use crate::text::{decimal, digits, texts};
use vstd::prelude::*;

verus! {

/// A session of the table of usage, with what is computed of its account.
pub struct UsageRow {
    /// The address and port of the session.
    pub ip: String,
    /// How long the session has run, in whole seconds.
    pub seconds: u64,
    /// The bits in all.
    pub bits: u64,
    /// The highest speed, in bits per millisecond.
    pub highest: u64,
    /// The mean speed, in bits per millisecond.
    pub average: u64,
    /// The last speed, in bits per millisecond.
    pub speed: u64,
}

/// An entry of the table: the session and its account.
pub type Entry = (String, (u64, u64, u64, u64));

/// Having a given number of bits in all.
pub open spec fn with_bits(bits: u64) -> spec_fn(Entry) -> bool {
    |e: Entry| e.1.1 == bits
}

/// Having run for some time.
pub open spec fn has_run() -> spec_fn(Entry) -> bool {
    |e: Entry| e.1.0 != 0
}

/// The most bits first.
pub open spec fn busiest_first(s: Seq<Entry>) -> bool {
    forall|i: int, j: int| 0 <= i <= j < s.len() ==> (#[trigger] s[i]).1.1 >= (#[trigger] s[j]).1.1
}

/// `sorted` holds the entries of `s`, the most bits first, and those with equally many bits in
/// the order in which `s` has them.
pub open spec fn stably_sorted(s: Seq<Entry>, sorted: Seq<Entry>) -> bool {
    &&& busiest_first(sorted)
    &&& forall|bits: u64| #[trigger]
        sorted.filter(with_bits(bits)) == s.filter(with_bits(bits))
}

/// What is computed of an entry that has run.
pub open spec fn row_of(e: Entry) -> UsageRow {
    UsageRow {
        ip: e.0,
        seconds: e.1.0 / 1000,
        bits: e.1.1,
        highest: e.1.2,
        average: e.1.1 / e.1.0,
        speed: e.1.3,
    }
}

/// `rows` is the table of the entries `s`: those that have run, the most bits first.
pub open spec fn is_table(s: Seq<Entry>, rows: Seq<UsageRow>) -> bool {
    exists|sorted: Seq<Entry>|
        {
            &&& #[trigger] stably_sorted(s, sorted)
            &&& rows == sorted.filter(has_run()).map_values(|e: Entry| row_of(e))
        }
}

proof fn lemma_filter_none(s: Seq<Entry>, bits: u64)
    requires
        forall|i: int| 0 <= i < s.len() ==> (#[trigger] s[i]).1.1 != bits,
    ensures
        s.filter(with_bits(bits)) == Seq::<Entry>::empty(),
    decreases s.len(),
{
    reveal(Seq::filter);
    if s.len() > 0 {
        assert forall|i: int| 0 <= i < s.drop_last().len() implies (
        #[trigger] s.drop_last()[i]).1.1 != bits by {
            assert(s.drop_last()[i] == s[i]);
        }
        lemma_filter_none(s.drop_last(), bits);
        assert(s.last() == s[s.len() - 1]);
    }
}

/// Putting an entry behind all those with as many bits or more keeps a sorted sequence sorted,
/// and keeps the order of the entries with equally many bits.
proof fn lemma_insert_behind(s: Seq<Entry>, sorted: Seq<Entry>, x: Entry, at: int)
    requires
        stably_sorted(s, sorted),
        0 <= at <= sorted.len(),
        forall|i: int| 0 <= i < at ==> (#[trigger] sorted[i]).1.1 >= x.1.1,
        forall|i: int| at <= i < sorted.len() ==> (#[trigger] sorted[i]).1.1 < x.1.1,
    ensures
        stably_sorted(s.push(x), sorted.insert(at, x)),
{
    let front = sorted.take(at);
    let back = sorted.skip(at);
    let out = sorted.insert(at, x);
    assert(out == front.push(x) + back);
    assert(sorted == front + back);
    assert forall|bits: u64| #[trigger]
        out.filter(with_bits(bits)) == s.push(x).filter(with_bits(bits)) by {
        let p = with_bits(bits);
        Seq::filter_distributes_over_add(front.push(x), back, p);
        Seq::filter_distributes_over_add(front, back, p);
        front.lemma_filter_push(x, p);
        s.lemma_filter_push(x, p);
        assert(sorted.filter(p) == s.filter(p));
        if x.1.1 == bits {
            assert forall|i: int| 0 <= i < back.len() implies (#[trigger] back[i]).1.1 != bits by {
                assert(back[i] == sorted[at + i]);
            }
            lemma_filter_none(back, bits);
            assert(front.filter(p).push(x) + back.filter(p) == (front.filter(p) + back.filter(
                p,
            )).push(x));
        }
    }
}

proof fn lemma_last_bits(a: Seq<Entry>, b: Seq<Entry>)
    requires
        busiest_first(b),
        a.len() > 0,
        forall|bits: u64| #[trigger] a.filter(with_bits(bits)) == b.filter(with_bits(bits)),
    ensures
        b.len() > 0,
        b.last().1.1 <= a.last().1.1,
{
    let x = a.last();
    let p = with_bits(x.1.1);
    a.lemma_filter_contains(p, a.len() - 1);
    assert(b.filter(p).contains(x));
    b.lemma_filter_contains_rev(p, x);
    let i = choose|i: int| 0 <= i < b.len() && b[i] == x;
    assert(b[i].1.1 >= b[b.len() - 1].1.1);
}

proof fn lemma_sorted_unique(a: Seq<Entry>, b: Seq<Entry>)
    requires
        busiest_first(a),
        busiest_first(b),
        forall|bits: u64| #[trigger] a.filter(with_bits(bits)) == b.filter(with_bits(bits)),
    ensures
        a == b,
    decreases a.len(),
{
    if a.len() == 0 {
        if b.len() > 0 {
            lemma_last_bits(b, a);
        }
    } else {
        lemma_last_bits(a, b);
        lemma_last_bits(b, a);
        let (x, y) = (a.last(), b.last());
        let (fa, fb) = (a.drop_last(), b.drop_last());
        assert(a == fa.push(x));
        assert(b == fb.push(y));
        let k = with_bits(x.1.1);
        fa.lemma_filter_push(x, k);
        fb.lemma_filter_push(y, k);
        assert(a.filter(k) == b.filter(k));
        assert(a.filter(k).last() == x);
        assert(b.filter(k).last() == y);
        assert forall|bits: u64| #[trigger]
            fa.filter(with_bits(bits)) == fb.filter(with_bits(bits)) by {
            let p = with_bits(bits);
            fa.lemma_filter_push(x, p);
            fb.lemma_filter_push(y, p);
            assert(a.filter(p) == b.filter(p));
            if bits == x.1.1 {
                assert(fa.filter(p) == a.filter(p).drop_last());
                assert(fb.filter(p) == b.filter(p).drop_last());
            }
        }
        lemma_sorted_unique(fa, fb);
    }
}

/// A sequence of entries has one table.
pub proof fn lemma_table_unique(s: Seq<Entry>, a: Seq<UsageRow>, b: Seq<UsageRow>)
    requires
        is_table(s, a),
        is_table(s, b),
    ensures
        a == b,
{
    let sa = choose|sorted: Seq<Entry>|
        #[trigger] stably_sorted(s, sorted) && a == sorted.filter(has_run()).map_values(
            |e: Entry| row_of(e),
        );
    let sb = choose|sorted: Seq<Entry>|
        #[trigger] stably_sorted(s, sorted) && b == sorted.filter(has_run()).map_values(
            |e: Entry| row_of(e),
        );
    assert forall|bits: u64| #[trigger]
        sa.filter(with_bits(bits)) == sb.filter(with_bits(bits)) by {
        assert(sa.filter(with_bits(bits)) == s.filter(with_bits(bits)));
    }
    lemma_sorted_unique(sa, sb);
}

proof fn lemma_filter_keeps_order(s: Seq<Entry>)
    requires
        busiest_first(s),
    ensures
        busiest_first(s.filter(has_run())),
    decreases s.len(),
{
    reveal(Seq::filter);
    if s.len() > 0 {
        let front = s.drop_last();
        let kept = front.filter(has_run());
        assert forall|i: int, j: int| 0 <= i <= j < front.len() implies (#[trigger] front[i]).1.1
            >= (#[trigger] front[j]).1.1 by {
            assert(front[i] == s[i] && front[j] == s[j]);
        }
        lemma_filter_keeps_order(front);
        assert forall|i: int| 0 <= i < kept.len() implies (#[trigger] kept[i]).1.1
            >= s.last().1.1 by {
            assert(kept.contains(kept[i]));
            front.lemma_filter_contains_rev(has_run(), kept[i]);
            let k = choose|k: int| 0 <= k < front.len() && front[k] == kept[i];
            assert(s[k].1.1 >= s[s.len() - 1].1.1);
        }
    }
}

/// A table shows each session that has run, and only those, with the most bits first.
pub proof fn lemma_table_shows_sessions(s: Seq<Entry>, rows: Seq<UsageRow>)
    requires
        is_table(s, rows),
    ensures
        forall|e: Entry| #[trigger] s.contains(e) && e.1.0 != 0 ==> rows.contains(row_of(e)),
        forall|row: UsageRow| #[trigger]
            rows.contains(row) ==> exists|e: Entry| #[trigger]
                s.contains(e) && e.1.0 != 0 && row_of(e) == row,
        forall|i: int, j: int|
            0 <= i <= j < rows.len() ==> (#[trigger] rows[i]).bits >= (#[trigger] rows[j]).bits,
{
    let f = |e: Entry| row_of(e);
    let sorted = choose|sorted: Seq<Entry>|
        #[trigger] stably_sorted(s, sorted) && rows == sorted.filter(has_run()).map_values(
            |e: Entry| row_of(e),
        );
    let shown = sorted.filter(has_run());
    assert(rows == shown.map_values(f));
    assert forall|e: Entry| #[trigger] s.contains(e) && e.1.0 != 0 implies rows.contains(
        row_of(e),
    ) by {
        let p = with_bits(e.1.1);
        let i = choose|i: int| 0 <= i < s.len() && s[i] == e;
        s.lemma_filter_contains(p, i);
        assert(sorted.filter(p).contains(e));
        sorted.lemma_filter_contains_rev(p, e);
        let j = choose|j: int| 0 <= j < sorted.len() && sorted[j] == e;
        sorted.lemma_filter_contains(has_run(), j);
        let k = choose|k: int| 0 <= k < shown.len() && shown[k] == e;
        assert(rows[k] == row_of(e));
    }
    assert forall|row: UsageRow| #[trigger] rows.contains(row) implies exists|e: Entry| #[trigger]
        s.contains(e) && e.1.0 != 0 && row_of(e) == row by {
        let i = choose|i: int| 0 <= i < rows.len() && rows[i] == row;
        let e = shown[i];
        assert(shown.contains(e));
        sorted.lemma_filter_pred(has_run(), i);
        sorted.lemma_filter_contains_rev(has_run(), e);
        let p = with_bits(e.1.1);
        let j = choose|j: int| 0 <= j < sorted.len() && sorted[j] == e;
        sorted.lemma_filter_contains(p, j);
        assert(s.filter(p).contains(e));
        s.lemma_filter_contains_rev(p, e);
        assert(s.contains(e));
    }
    lemma_filter_keeps_order(sorted);
    assert forall|i: int, j: int| 0 <= i <= j < rows.len() implies (#[trigger] rows[i]).bits >= (
    #[trigger] rows[j]).bits by {
        assert(shown[i].1.1 >= shown[j].1.1);
    }
}

/// The table of a sequence of entries.
pub fn usage_rows(entries: &Vec<(String, (u64, u64, u64, u64))>) -> (rows: Vec<UsageRow>)
    ensures
        is_table(entries@, rows@),
{
    let mut sorted: Vec<(String, (u64, u64, u64, u64))> = Vec::new();
    assert(entries@.take(0) == sorted@);
    for i in 0..entries.len()
        invariant
            stably_sorted(entries@.take(i as int), sorted@),
    {
        let entry = (entries[i].0.clone(), entries[i].1);
        assert(entry == entries@[i as int]);
        let mut at: usize = sorted.len();
        while at > 0 && sorted[at - 1].1.1 < entry.1.1
            invariant
                at <= sorted.len(),
                forall|k: int| at <= k < sorted.len() ==> (#[trigger] sorted[k]).1.1 < entry.1.1,
            decreases at,
        {
            at = at - 1;
        }
        proof {
            assert forall|k: int| 0 <= k < at implies (#[trigger] sorted@[k]).1.1 >= entry.1.1 by {
                assert(sorted@[k].1.1 >= sorted@[at - 1].1.1);
            }
            lemma_insert_behind(entries@.take(i as int), sorted@, entry, at as int);
            assert(entries@.take(i as int + 1) == entries@.take(i as int).push(entry));
        }
        sorted.insert(at, entry);
    }
    assert(entries@.take(entries@.len() as int) == entries@);
    let ghost f = |e: Entry| row_of(e);
    let mut rows: Vec<UsageRow> = Vec::new();
    proof {
        reveal(Seq::filter);
        assert(sorted@.take(0).filter(has_run()).map_values(f) == rows@);
    }
    for i in 0..sorted.len()
        invariant
            f == (|e: Entry| row_of(e)),
            rows@ == sorted@.take(i as int).filter(has_run()).map_values(f),
    {
        let ghost before = sorted@.take(i as int);
        let ghost e = sorted@[i as int];
        proof {
            assert(sorted@.take(i as int + 1) == before.push(e));
            before.lemma_filter_push(e, has_run());
            assert(before.filter(has_run()).push(e).map_values(f) == before.filter(
                has_run(),
            ).map_values(f).push(row_of(e)));
        }
        let (elapsed, total, highest, speed) = sorted[i].1;
        if elapsed != 0 {
            let ip = sorted[i].0.clone();
            rows.push(
                UsageRow {
                    ip,
                    seconds: elapsed / 1000,
                    bits: total,
                    highest,
                    average: total / elapsed,
                    speed,
                },
            );
        }
    }
    assert(sorted@.take(sorted@.len() as int) == sorted@);
    rows
}

/// The line of one row; `megabytes` is its amount of data in megabytes, with two decimals.
pub open spec fn row_text(row: UsageRow, megabytes: Seq<char>) -> Seq<char> {
    row.ip@ + ": "@ + digits(row.seconds as nat) + "s "@ + megabytes + "MB "@ + digits(
        row.highest as nat,
    ) + "bit/ms "@ + digits(row.average as nat) + "bit/ms "@ + digits(row.speed as nat)
        + "bit/ms\n"@
}

/// The lines of a table, one for each row.
pub open spec fn table_text(rows: Seq<UsageRow>, megabytes: Seq<Seq<char>>) -> Seq<char>
    decreases rows.len(),
{
    if rows.len() == 0 {
        Seq::<char>::empty()
    } else {
        table_text(rows.drop_last(), megabytes.drop_last()) + row_text(
            rows.last(),
            megabytes.last(),
        )
    }
}

fn row_line(row: &UsageRow, megabytes: &str) -> (out: String)
    ensures
        out@ == row_text(*row, megabytes@),
{
    let mut out = row.ip.clone();
    out.append(": ");
    out.append(decimal(row.seconds).as_str());
    out.append("s ");
    out.append(megabytes);
    out.append("MB ");
    out.append(decimal(row.highest).as_str());
    out.append("bit/ms ");
    out.append(decimal(row.average).as_str());
    out.append("bit/ms ");
    out.append(decimal(row.speed).as_str());
    out.append("bit/ms\n");
    out
}

/// The words of a table, given the amount of data of each row in megabytes.
pub fn usage_reply(rows: &Vec<UsageRow>, megabytes: &Vec<String>) -> (out: String)
    requires
        rows.len() == megabytes.len(),
    ensures
        out@ == table_text(rows@, texts(megabytes@)),
{
    let ghost mb = texts(megabytes@);
    let mut out = String::new();
    for i in 0..rows.len()
        invariant
            rows.len() == megabytes.len(),
            mb == texts(megabytes@),
            out@ == table_text(rows@.take(i as int), mb.take(i as int)),
    {
        let line = row_line(&rows[i], megabytes[i].as_str());
        out.append(line.as_str());
        proof {
            assert(rows@.take(i as int + 1).drop_last() == rows@.take(i as int));
            assert(mb.take(i as int + 1).drop_last() == mb.take(i as int));
            assert(mb.take(i as int + 1).last() == megabytes[i as int]@);
        }
    }
    assert(rows@.take(rows@.len() as int) == rows@);
    assert(mb.take(mb.len() as int) == mb);
    out
}

} // verus!
