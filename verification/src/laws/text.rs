//! Laws of texts and numbers.

use crate::text::{
    being, decimal, digits, fields, lemma_number_of_digits, lemma_pieces_of_joined,
    lemma_pieces_of_plain, parse_number, pieces, pieces_at, scan, split_fields, split_first_fields,
    split_on, texts, whitespace, NumberError,
};
use vstd::prelude::*;

verus! {

/// A text without the separator is split into itself alone.
pub proof fn lemma_plain_text_is_one_piece(s: &str, sep: char, out: Vec<String>)
    requires
        call_ensures(split_on, (s, sep), out),
        !s@.contains(sep),
    ensures
        out@.len() == 1,
        out@[0]@ == s@,
{
    assert forall|i: int| 0 <= i < s@.len() implies !being(sep)(#[trigger] s@[i]) by {
        assert(s@.contains(s@[i]));
    }
    lemma_pieces_of_plain(s@, being(sep));
    assert(texts(out@).len() == 1);
    assert(texts(out@)[0] == out@[0]@);
}

/// Two texts with a separator between them are split into the pieces of the first and then those
/// of the second.
pub proof fn lemma_joined_texts_split_apart(
    a: &str,
    b: &str,
    ab: &str,
    sep: char,
    out_a: Vec<String>,
    out_b: Vec<String>,
    out: Vec<String>,
)
    requires
        ab@ == a@.push(sep) + b@,
        call_ensures(split_on, (a, sep), out_a),
        call_ensures(split_on, (b, sep), out_b),
        call_ensures(split_on, (ab, sep), out),
    ensures
        texts(out@) == texts(out_a@) + texts(out_b@),
{
    lemma_pieces_of_joined(a@, sep, b@, being(sep));
}

proof fn lemma_filter_of_pieces(a: Seq<Seq<char>>, b: Seq<Seq<char>>)
    ensures
        (a + b).filter(|p: Seq<char>| p.len() > 0) == a.filter(|p: Seq<char>| p.len() > 0)
            + b.filter(|p: Seq<char>| p.len() > 0),
{
    Seq::filter_distributes_over_add(a, b, |p: Seq<char>| p.len() > 0);
}

/// A text of one word has that word as its one field.
pub proof fn lemma_word_is_one_field(s: &str, out: Vec<String>)
    requires
        call_ensures(split_fields, (s,), out),
        s@.len() > 0,
        forall|i: int| 0 <= i < s@.len() ==> !whitespace(#[trigger] s@[i]),
    ensures
        out@.len() == 1,
        out@[0]@ == s@,
{
    let sep = |c: char| whitespace(c);
    let full = |p: Seq<char>| p.len() > 0;
    lemma_pieces_of_plain(s@, sep);
    let none = Seq::<Seq<char>>::empty();
    assert(seq![s@] == none.push(s@));
    none.lemma_filter_push(s@, full);
    reveal(Seq::filter);
    assert(none.filter(full) == none);
    assert(fields(s@) == seq![s@]);
    assert(texts(out@)[0] == out@[0]@);
}

/// The fields of two texts with whitespace between them are those of the first and then those of
/// the second; an empty text has none.
pub proof fn lemma_fields_of_joined_texts(
    a: &str,
    c: char,
    b: &str,
    ab: &str,
    out_a: Vec<String>,
    out_b: Vec<String>,
    out: Vec<String>,
)
    requires
        whitespace(c),
        ab@ == a@.push(c) + b@,
        call_ensures(split_fields, (a,), out_a),
        call_ensures(split_fields, (b,), out_b),
        call_ensures(split_fields, (ab,), out),
    ensures
        texts(out@) == texts(out_a@) + texts(out_b@),
        a@.len() == 0 ==> out_a@.len() == 0,
{
    let sep = |c: char| whitespace(c);
    lemma_pieces_of_joined(a@, c, b@, sep);
    lemma_filter_of_pieces(pieces(a@, sep), pieces(b@, sep));
    if a@.len() == 0 {
        reveal(Seq::filter);
        let full = |p: Seq<char>| p.len() > 0;
        let none = Seq::<Seq<char>>::empty();
        assert(pieces(a@, sep) == none.push(Seq::<char>::empty()));
        none.lemma_filter_push(Seq::<char>::empty(), full);
        assert(none.filter(full) == none);
        assert(texts(out_a@).len() == 0);
    }
}

/// The first fields of two texts with an end of line between them are those of the first and then
/// those of the second.
pub proof fn lemma_first_fields_of_joined_texts(
    a: &str,
    b: &str,
    ab: &str,
    out_a: Vec<String>,
    out_b: Vec<String>,
    out: Vec<String>,
)
    requires
        ab@ == a@.push('\n') + b@,
        call_ensures(split_first_fields, (a,), out_a),
        call_ensures(split_first_fields, (b,), out_b),
        call_ensures(split_first_fields, (ab,), out),
    ensures
        texts(out@) == texts(out_a@) + texts(out_b@),
{
    lemma_pieces_of_joined(a@, '\n', b@, being('\n'));
    let f = |line: Seq<char>| fields(line);
    let some = |f: Seq<Seq<char>>| f.len() > 0;
    let head = |f: Seq<Seq<char>>| f[0];
    let (pa, pb) = (pieces_at(a@, '\n'), pieces_at(b@, '\n'));
    assert((pa + pb).map_values(f) =~= pa.map_values(f) + pb.map_values(f));
    Seq::filter_distributes_over_add(pa.map_values(f), pb.map_values(f), some);
    let (fa, fb) = (pa.map_values(f).filter(some), pb.map_values(f).filter(some));
    assert((fa + fb).map_values(head) =~= fa.map_values(head) + fb.map_values(head));
}

/// A single line gives its first field, and nothing where it has no field.
pub proof fn lemma_first_field_of_a_line(line: &str, all: Vec<String>, out: Vec<String>)
    requires
        !line@.contains('\n'),
        call_ensures(split_fields, (line,), all),
        call_ensures(split_first_fields, (line,), out),
    ensures
        all@.len() == 0 ==> out@.len() == 0,
        all@.len() > 0 ==> out@.len() == 1 && out@[0]@ == all@[0]@,
{
    assert forall|i: int| 0 <= i < line@.len() implies !being('\n')(#[trigger] line@[i]) by {
        assert(line@.contains(line@[i]));
    }
    lemma_pieces_of_plain(line@, being('\n'));
    let f = |line: Seq<char>| fields(line);
    let some = |f: Seq<Seq<char>>| f.len() > 0;
    let head = |f: Seq<Seq<char>>| f[0];
    let none = Seq::<Seq<Seq<char>>>::empty();
    assert(seq![line@].map_values(f) =~= none.push(fields(line@)));
    none.lemma_filter_push(fields(line@), some);
    reveal(Seq::filter);
    assert(none.filter(some) == none);
    assert(none.map_values(head) =~= Seq::<Seq<char>>::empty());
    assert(texts(all@).len() == all@.len());
    assert(texts(out@).len() == out@.len());
    if all@.len() > 0 {
        assert(none.push(fields(line@)).map_values(head) =~= seq![fields(line@)[0]]);
        assert(texts(out@)[0] == out@[0]@);
        assert(texts(all@)[0] == all@[0]@);
    }
}

/// A number below ten is written as its digit, and any other as the number of its tens with the
/// digit of its ones behind.
pub proof fn lemma_decimal_digit_by_digit(n: u64, tens: String, out: String)
    requires
        call_ensures(decimal, (n,), out),
        call_ensures(decimal, (n / 10,), tens),
    ensures
        n < 10 ==> out@ == seq![(48 + n) as char],
        n >= 10 ==> out@ == tens@.push((48 + n % 10) as char),
{
}

/// What is written in decimal is read back, up to the limit and no further, with a plus sign and
/// without.
pub proof fn lemma_decimal_is_read_back(
    n: u64,
    max: u64,
    written: String,
    text: &str,
    signed: &str,
    out: Result<u64, NumberError>,
    out_signed: Result<u64, NumberError>,
)
    requires
        call_ensures(decimal, (n,), written),
        text@ == written@,
        signed@ == seq!['+'] + text@,
        call_ensures(parse_number, (text, max), out),
        call_ensures(parse_number, (signed, max), out_signed),
    ensures
        n <= max ==> out == Ok::<u64, NumberError>(n),
        n > max ==> out == Err::<u64, NumberError>(NumberError::PosOverflow),
        out_signed == out,
{
    lemma_digits_are_digits(n as nat);
    assert(signed@.drop_first() =~= text@);
    if n <= max {
        lemma_number_of_digits(n as nat, max as nat);
    } else {
        lemma_large_digits(n as nat, max as nat);
    }
}

proof fn lemma_digits_are_digits(n: nat)
    ensures
        digits(n).len() > 0,
        forall|i: int| 0 <= i < digits(n).len() ==> 48 <= (#[trigger] digits(n)[i]) as u32 <= 57,
    decreases n,
{
    if n >= 10 {
        lemma_digits_are_digits(n / 10);
    }
}

proof fn lemma_large_digits(n: nat, max: nat)
    requires
        n > max,
    ensures
        scan(digits(n), max) == Err::<nat, NumberError>(NumberError::PosOverflow),
    decreases n,
{
    if n < 10 {
        assert(digits(n).drop_last() =~= Seq::<char>::empty());
        assert(scan(Seq::<char>::empty(), max) == Ok::<nat, NumberError>(0));
    } else {
        assert(digits(n).drop_last() =~= digits(n / 10));
        if n / 10 > max {
            lemma_large_digits(n / 10, max);
        } else {
            lemma_number_of_digits(n / 10, max);
            lemma_digits_are_digits(n / 10);
        }
    }
}

proof fn lemma_scan_stops(s: Seq<char>, max: nat, i: int)
    requires
        0 <= i < s.len(),
        !(48 <= s[i] as u32 <= 57),
    ensures
        scan(s, max) is Err,
    decreases s.len(),
{
    if i < s.len() - 1 {
        lemma_scan_stops(s.drop_last(), max, i);
    }
}

/// An empty text is no number, nor is one with a character that is no digit, but for a plus sign
/// before all others.
pub proof fn lemma_other_texts_are_no_numbers(
    text: &str,
    max: u64,
    i: int,
    out: Result<u64, NumberError>,
)
    requires
        call_ensures(parse_number, (text, max), out),
    ensures
        text@.len() == 0 ==> out == Err::<u64, NumberError>(NumberError::Empty),
        text@ == seq!['+'] ==> out == Err::<u64, NumberError>(NumberError::InvalidDigit),
        0 <= i < text@.len() && !(48 <= text@[i] as u32 <= 57) && !(i == 0 && text@[0] == '+')
            ==> out is Err,
{
    if 0 <= i < text@.len() && !(48 <= text@[i] as u32 <= 57) && !(i == 0 && text@[0] == '+') {
        if text@[0] == '+' {
            lemma_scan_stops(text@.drop_first(), max as nat, i - 1);
        } else {
            lemma_scan_stops(text@, max as nat, i);
        }
    }
}

/// A number is read digit by digit: one more digit makes it ten times as large and adds the digit,
/// and anything else makes it none. What is no number does not become one by more characters.
pub proof fn lemma_numbers_grow_by_digits(
    text: &str,
    d: char,
    longer: &str,
    max: u64,
    out: Result<u64, NumberError>,
    out_longer: Result<u64, NumberError>,
)
    requires
        text@.len() > 0,
        text@ != seq!['+'],
        longer@ == text@.push(d),
        call_ensures(parse_number, (text, max), out),
        call_ensures(parse_number, (longer, max), out_longer),
    ensures
        match out {
            Ok(v) => if !(48 <= d as u32 <= 57) {
                out_longer == Err::<u64, NumberError>(NumberError::InvalidDigit)
            } else if v * 10 + (d as u32 - 48) <= max {
                out_longer matches Ok(w) && w == v * 10 + (d as u32 - 48)
            } else {
                out_longer == Err::<u64, NumberError>(NumberError::PosOverflow)
            },
            Err(e) => out_longer == Err::<u64, NumberError>(e),
        },
{
    assert(longer@ != seq!['+']) by {
        assert(longer@.len() > 1);
    }
    if text@[0] == '+' {
        assert(longer@.drop_first().drop_last() =~= text@.drop_first());
        assert(longer@.drop_first().last() == d);
    } else {
        assert(longer@.drop_last() =~= text@);
        assert(longer@.last() == d);
    }
}

} // verus!
