//! Text as the relay server reads and writes it: fields, lists of pieces and decimal numbers.

use vstd::prelude::*;

verus! {

/// `String::push` of the standard library appends one character to the end of the string.
pub assume_specification[ String::push ](s: &mut String, c: char)
    ensures
        final(s)@ == old(s)@.push(c),
;

/// `str`'s `eq` of the standard library holds of two strings with the same characters.
pub assume_specification[ <str as PartialEq<str>>::eq ](a: &str, b: &str) -> (same: bool)
    ensures
        same == (a@ == b@),
;

/// The characters of each string of a vector.
pub open spec fn texts(v: Seq<String>) -> Seq<Seq<char>> {
    v.map_values(|s: String| s@)
}

/// The pieces of `s` between its separators, the characters that `sep` holds of.
/// There is one piece more than there are separators; a piece may be empty.
pub open spec fn pieces(s: Seq<char>, sep: spec_fn(char) -> bool) -> Seq<Seq<char>>
    decreases s.len(),
{
    if s.len() == 0 {
        seq![Seq::<char>::empty()]
    } else {
        let before = pieces(s.drop_last(), sep);
        if sep(s.last()) {
            before.push(Seq::<char>::empty())
        } else {
            before.drop_last().push(before.last().push(s.last()))
        }
    }
}

/// Being one given character.
pub open spec fn being(sep: char) -> spec_fn(char) -> bool {
    |c: char| c == sep
}

/// The pieces of `s` between the occurrences of one character.
pub open spec fn pieces_at(s: Seq<char>, sep: char) -> Seq<Seq<char>> {
    pieces(s, being(sep))
}

/// The characters with the Unicode property `White_Space`.
pub open spec fn whitespace(c: char) -> bool {
    let n = c as u32;
    ||| 0x9 <= n <= 0xd
    ||| n == 0x20
    ||| n == 0x85
    ||| n == 0xa0
    ||| n == 0x1680
    ||| 0x2000 <= n <= 0x200a
    ||| n == 0x2028
    ||| n == 0x2029
    ||| n == 0x202f
    ||| n == 0x205f
    ||| n == 0x3000
}

/// The fields of `s`: its pieces between whitespace, without the empty ones.
pub open spec fn fields(s: Seq<char>) -> Seq<Seq<char>> {
    pieces(s, |c: char| whitespace(c)).filter(|p: Seq<char>| p.len() > 0)
}

/// The first field of each line of `s` that has one, line by line.
pub open spec fn first_fields(s: Seq<char>) -> Seq<Seq<char>> {
    pieces_at(s, '\n').map_values(|line: Seq<char>| fields(line)).filter(
        |f: Seq<Seq<char>>| f.len() > 0,
    ).map_values(|f: Seq<Seq<char>>| f[0])
}

/// Whether a character is whitespace.
pub fn is_whitespace(c: char) -> (yes: bool)
    ensures
        yes == whitespace(c),
{
    let n: u32 = c as u32;
    (0x9 <= n && n <= 0xd) || n == 0x20 || n == 0x85 || n == 0xa0 || n == 0x1680 || (0x2000 <= n
        && n <= 0x200a) || n == 0x2028 || n == 0x2029 || n == 0x202f || n == 0x205f || n == 0x3000
}

/// Splits a text at each occurrence of a character.
pub fn split_on(s: &str, sep: char) -> (out: Vec<String>)
    ensures
        texts(out@) == pieces_at(s@, sep),
{
    let ghost p = being(sep);
    let mut out: Vec<String> = Vec::new();
    let mut current = String::new();
    for c in it: s.chars()
        invariant
            it.seq() == s@,
            p == being(sep),
            texts(out@).push(current@) == pieces(s@.take(it.index() as int), p),
    {
        let ghost next = s@.take(it.index() as int + 1);
        assert(next.drop_last() == s@.take(it.index() as int));
        assert(next.last() == c);
        if c == sep {
            out.push(current);
            current = String::new();
        } else {
            current.push(c);
        }
        assert(texts(out@).push(current@) == pieces(next, p));
    }
    assert(s@.take(s@.len() as int) == s@);
    let ghost whole = texts(out@).push(current@);
    out.push(current);
    assert(texts(out@) == whole);
    out
}

/// Splits a text at whitespace and drops the empty pieces.
pub fn split_fields(s: &str) -> (out: Vec<String>)
    ensures
        texts(out@) == fields(s@),
{
    let ghost p = |c: char| whitespace(c);
    let ghost full = |p: Seq<char>| p.len() > 0;
    let mut out: Vec<String> = Vec::new();
    let mut current = String::new();
    let ghost mut done: Seq<Seq<char>> = Seq::empty();
    proof {
        reveal(Seq::filter);
    }
    for c in it: s.chars()
        invariant
            it.seq() == s@,
            p == (|c: char| whitespace(c)),
            full == (|p: Seq<char>| p.len() > 0),
            done.push(current@) == pieces(s@.take(it.index() as int), p),
            texts(out@) == done.filter(full),
    {
        let ghost next = s@.take(it.index() as int + 1);
        assert(next.drop_last() == s@.take(it.index() as int));
        assert(next.last() == c);
        if is_whitespace(c) {
            proof {
                done.lemma_filter_push(current@, full);
                done = done.push(current@);
            }
            if !current.as_str().is_empty() {
                out.push(current);
            }
            current = String::new();
        } else {
            current.push(c);
        }
        assert(done.push(current@) == pieces(next, p));
    }
    assert(s@.take(s@.len() as int) == s@);
    proof {
        done.lemma_filter_push(current@, full);
    }
    if !current.as_str().is_empty() {
        out.push(current);
    }
    out
}

/// The first field of each line of a text that has one.
pub fn split_first_fields(s: &str) -> (out: Vec<String>)
    ensures
        texts(out@) == first_fields(s@),
{
    let lines = split_on(s, '\n');
    let ghost all = pieces_at(s@, '\n');
    let ghost of_line = |line: Seq<char>| fields(line);
    let ghost some = |f: Seq<Seq<char>>| f.len() > 0;
    let ghost head = |f: Seq<Seq<char>>| f[0];
    let mut out: Vec<String> = Vec::new();
    proof {
        reveal(Seq::filter);
        assert(all.take(0).map_values(of_line).filter(some).map_values(head) == Seq::<
            Seq<char>,
        >::empty());
    }
    for i in 0..lines.len()
        invariant
            texts(lines@) == all,
            of_line == (|line: Seq<char>| fields(line)),
            some == (|f: Seq<Seq<char>>| f.len() > 0),
            head == (|f: Seq<Seq<char>>| f[0]),
            texts(out@) == all.take(i as int).map_values(of_line).filter(some).map_values(head),
    {
        let mut found = split_fields(lines[i].as_str());
        let ghost before = all.take(i as int).map_values(of_line);
        let ghost line = fields(lines[i as int]@);
        proof {
            assert(texts(lines@)[i as int] == lines[i as int]@);
            assert(all.take(i as int + 1).map_values(of_line) == before.push(line));
            before.lemma_filter_push(line, some);
            assert(before.filter(some).push(line).map_values(head) == before.filter(
                some,
            ).map_values(head).push(line[0]));
        }
        if found.len() > 0 {
            assert(texts(found@)[0] == found[0]@);
            let first = found.swap_remove(0);
            let ghost had = out@;
            out.push(first);
            assert(texts(out@) == texts(had).push(first@));
        }
    }
    assert(all.take(all.len() as int) == all);
    out
}

proof fn lemma_pieces_some(s: Seq<char>, sep: spec_fn(char) -> bool)
    ensures
        pieces(s, sep).len() > 0,
    decreases s.len(),
{
    if s.len() > 0 {
        lemma_pieces_some(s.drop_last(), sep);
    }
}

/// A text without separators is its one piece.
pub proof fn lemma_pieces_of_plain(s: Seq<char>, sep: spec_fn(char) -> bool)
    requires
        forall|i: int| 0 <= i < s.len() ==> !sep(#[trigger] s[i]),
    ensures
        pieces(s, sep) == seq![s],
    decreases s.len(),
{
    if s.len() > 0 {
        let front = s.drop_last();
        assert forall|i: int| 0 <= i < front.len() implies !sep(#[trigger] front[i]) by {
            assert(front[i] == s[i]);
        }
        lemma_pieces_of_plain(front, sep);
        assert(s.last() == s[s.len() - 1]);
        assert(front.push(s.last()) == s);
        assert(seq![front].drop_last().push(s) == seq![s]);
    } else {
        assert(s == Seq::<char>::empty());
    }
}

/// The pieces of two texts with a separator between them are the pieces of the first and then
/// those of the second.
pub proof fn lemma_pieces_of_joined(
    a: Seq<char>,
    c: char,
    b: Seq<char>,
    sep: spec_fn(char) -> bool,
)
    requires
        sep(c),
    ensures
        pieces(a.push(c) + b, sep) == pieces(a, sep) + pieces(b, sep),
    decreases b.len(),
{
    let s = a.push(c) + b;
    if b.len() == 0 {
        assert(s.drop_last() == a);
        assert(pieces(s, sep) == pieces(a, sep) + pieces(b, sep));
    } else {
        let front = b.drop_last();
        lemma_pieces_of_joined(a, c, front, sep);
        lemma_pieces_some(front, sep);
        assert(s.drop_last() == a.push(c) + front);
        assert(s.last() == b.last());
        let (pa, pf) = (pieces(a, sep), pieces(front, sep));
        assert((pa + pf).drop_last() == pa + pf.drop_last());
        assert((pa + pf).last() == pf.last());
        assert(pieces(s, sep) == pa + pieces(b, sep));
    }
}

/// A text of at least one character, and without whitespace.
pub open spec fn is_word(s: Seq<char>) -> bool {
    s.len() > 0 && forall|i: int| 0 <= i < s.len() ==> !whitespace(#[trigger] s[i])
}

/// The fields of two words with a space between them are these words.
pub proof fn lemma_fields_of_words(a: Seq<char>, b: Seq<char>)
    requires
        is_word(a),
        is_word(b),
    ensures
        fields(a.push(' ') + b) == seq![a, b],
{
    let sep = |c: char| whitespace(c);
    let full = |p: Seq<char>| p.len() > 0;
    lemma_pieces_of_plain(a, sep);
    lemma_pieces_of_plain(b, sep);
    lemma_pieces_of_joined(a, ' ', b, sep);
    assert(seq![a] + seq![b] == seq![a, b]);
    let none = Seq::<Seq<char>>::empty();
    assert(seq![a, b] == none.push(a).push(b));
    none.push(a).lemma_filter_push(b, full);
    none.lemma_filter_push(a, full);
    reveal(Seq::filter);
    assert(none.filter(full) == none);
}

/// The character of a decimal digit.
pub open spec fn digit_char(d: nat) -> char {
    (48 + d) as char
}

/// `n` in decimal, without leading zeros.
pub open spec fn digits(n: nat) -> Seq<char>
    decreases n,
{
    if n < 10 {
        seq![digit_char(n)]
    } else {
        digits(n / 10).push(digit_char(n % 10))
    }
}

/// Writes a number in decimal.
pub fn decimal(n: u64) -> (out: String)
    ensures
        out@ == digits(n as nat),
    decreases n,
{
    let mut out = if n < 10 {
        String::new()
    } else {
        decimal(n / 10)
    };
    let d: u8 = (n % 10) as u8;
    out.push((48 + d) as char);
    out
}

/// Why a text is no number.
#[derive(Clone, Copy, Debug, PartialEq, Eq, Structural)]
pub enum NumberError {
    /// The text is empty.
    Empty,
    /// A character is no digit, or there is a sign alone.
    InvalidDigit,
    /// The number is above the limit.
    PosOverflow,
}

/// The words for why a text is no number.
pub open spec fn number_error_text(e: NumberError) -> Seq<char> {
    match e {
        NumberError::Empty => "cannot parse integer from empty string"@,
        NumberError::InvalidDigit => "invalid digit found in string"@,
        NumberError::PosOverflow => "number too large to fit in target type"@,
    }
}

impl NumberError {
    /// Says why a text is no number.
    pub fn message(&self) -> (out: String)
        ensures
            out@ == number_error_text(*self),
    {
        match self {
            NumberError::Empty => "cannot parse integer from empty string".to_owned(),
            NumberError::InvalidDigit => "invalid digit found in string".to_owned(),
            NumberError::PosOverflow => "number too large to fit in target type".to_owned(),
        }
    }
}

/// The number that a run of digits stands for, read from the left; the first character that is
/// no digit, or that takes the number above `max`, decides the error.
pub open spec fn scan(s: Seq<char>, max: nat) -> Result<nat, NumberError>
    decreases s.len(),
{
    if s.len() == 0 {
        Ok(0)
    } else {
        match scan(s.drop_last(), max) {
            Err(e) => Err(e),
            Ok(v) => {
                let n = s.last() as u32;
                if !(48 <= n <= 57) {
                    Err(NumberError::InvalidDigit)
                } else if v * 10 + (n - 48) > max {
                    Err(NumberError::PosOverflow)
                } else {
                    Ok((v * 10 + (n - 48)) as nat)
                }
            },
        }
    }
}

/// The unsigned number that `s` stands for: digits, with at most one `+` before them.
pub open spec fn number(s: Seq<char>, max: nat) -> Result<nat, NumberError> {
    if s.len() == 0 {
        Err(NumberError::Empty)
    } else if s == seq!['+'] {
        Err(NumberError::InvalidDigit)
    } else if s[0] == '+' {
        scan(s.drop_first(), max)
    } else {
        scan(s, max)
    }
}

/// Reads an unsigned decimal number of at most `max`.
pub fn parse_number(s: &str, max: u64) -> (out: Result<u64, NumberError>)
    ensures
        match out {
            Ok(v) => number(s@, max as nat) == Ok::<nat, NumberError>(v as nat),
            Err(e) => number(s@, max as nat) == Err::<nat, NumberError>(e),
        },
{
    let mut state: Result<u64, NumberError> = Ok(0);
    let mut count: usize = 0;
    let mut plus = false;
    for c in it: s.chars()
        invariant
            it.seq() == s@,
            count == (if it.index() < 2 { it.index() as int } else { 2 }),
            plus == (it.index() > 0 && s@[0] == '+'),
            ({
                let read = s@.take(it.index() as int);
                let rest = if plus { read.drop_first() } else { read };
                match state {
                    Ok(v) => scan(rest, max as nat) == Ok::<nat, NumberError>(v as nat) && v <= max,
                    Err(e) => scan(rest, max as nat) == Err::<nat, NumberError>(e),
                }
            }),
    {
        let ghost read = s@.take(it.index() as int);
        let ghost next = s@.take(it.index() as int + 1);
        assert(next.drop_last() == read);
        assert(next.last() == c);
        if count == 0 && c == '+' {
            plus = true;
            count = 1;
            assert(next.drop_first() == Seq::<char>::empty());
        } else {
            proof {
                if plus {
                    assert(next.drop_first().drop_last() == read.drop_first());
                    assert(next.drop_first().last() == c);
                }
            }
            if let Ok(v) = state {
                let n: u32 = c as u32;
                if n < 48 || n > 57 {
                    state = Err(NumberError::InvalidDigit);
                } else {
                    let d: u64 = (n - 48) as u64;
                    let wide: u128 = v as u128 * 10 + d as u128;
                    if wide > max as u128 {
                        state = Err(NumberError::PosOverflow);
                    } else {
                        state = Ok(wide as u64);
                    }
                }
            }
            if count < 2 {
                count = count + 1;
            }
        }
    }
    assert(s@.take(s@.len() as int) == s@);
    if count == 0 {
        return Err(NumberError::Empty);
    }
    if count == 1 && plus {
        assert(s@ == seq!['+']);
        return Err(NumberError::InvalidDigit);
    }
    state
}

/// Reading back a number that was written in decimal gives that number.
pub proof fn lemma_number_of_digits(n: nat, max: nat)
    requires
        n <= max,
    ensures
        number(digits(n), max) == Ok::<nat, NumberError>(n),
{
    lemma_scan_digits(n, max);
}

proof fn lemma_scan_digits(n: nat, max: nat)
    requires
        n <= max,
    ensures
        scan(digits(n), max) == Ok::<nat, NumberError>(n),
        digits(n).len() > 0,
        48 <= digits(n)[0] as u32 <= 57,
    decreases n,
{
    if n < 10 {
        assert(digits(n).drop_last() == Seq::<char>::empty());
        assert(scan(Seq::<char>::empty(), max) == Ok::<nat, NumberError>(0));
    } else {
        lemma_scan_digits(n / 10, max);
        assert(digits(n).drop_last() == digits(n / 10));
    }
}

/// A number has one decimal form: different numbers are written differently.
pub proof fn lemma_digits_injective(a: nat, b: nat)
    requires
        digits(a) == digits(b),
    ensures
        a == b,
{
    lemma_number_of_digits(a, a + b);
    lemma_number_of_digits(b, a + b);
}

} // verus!
