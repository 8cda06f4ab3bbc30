//! Text over `Seq<char>`: what std's string functions and serde_json's string
//! encoder return, stated as spec functions, and the wrappers that call them.

use vstd::prelude::*;

verus! {

/// The Unicode `White_Space` property, which `char::is_whitespace` tests.
pub open spec fn is_whitespace(c: char) -> bool {
    let v = c as u32;
    ||| 9 <= v <= 13
    ||| v == 32
    ||| v == 0x85
    ||| v == 0xa0
    ||| v == 0x1680
    ||| 0x2000 <= v <= 0x200a
    ||| v == 0x2028
    ||| v == 0x2029
    ||| v == 0x202f
    ||| v == 0x205f
    ||| v == 0x3000
}

/// `s` without its leading whitespace.
pub open spec fn trim_start(s: Seq<char>) -> Seq<char>
    decreases s.len(),
{
    if s.len() > 0 && is_whitespace(s[0]) {
        trim_start(s.drop_first())
    } else {
        s
    }
}

/// `s` without its trailing whitespace.
pub open spec fn trim_end(s: Seq<char>) -> Seq<char>
    decreases s.len(),
{
    if s.len() > 0 && is_whitespace(s.last()) {
        trim_end(s.drop_last())
    } else {
        s
    }
}

/// `s` without leading and trailing whitespace (`str::trim`).
pub open spec fn trim(s: Seq<char>) -> Seq<char> {
    trim_end(trim_start(s))
}

/// `s` without the copies of `c` at its end (`str::trim_end_matches` with a char).
pub open spec fn trim_end_char(s: Seq<char>, c: char) -> Seq<char>
    decreases s.len(),
{
    if s.len() > 0 && s.last() == c {
        trim_end_char(s.drop_last(), c)
    } else {
        s
    }
}

/// The pieces of `s` between occurrences of `c`, in order, empty pieces
/// included (`str::split` with a char). There is always at least one piece.
pub open spec fn split_char(s: Seq<char>, c: char) -> Seq<Seq<char>>
    decreases s.len(),
{
    if s.len() == 0 {
        seq![Seq::empty()]
    } else {
        let pieces = split_char(s.drop_last(), c);
        if s.last() == c {
            pieces.push(Seq::empty())
        } else {
            pieces.update(pieces.len() - 1, pieces.last().push(s.last()))
        }
    }
}

/// The pieces of `s` between whitespace characters, empty pieces included.
pub open spec fn whitespace_pieces(s: Seq<char>) -> Seq<Seq<char>>
    decreases s.len(),
{
    if s.len() == 0 {
        seq![Seq::empty()]
    } else {
        let pieces = whitespace_pieces(s.drop_last());
        if is_whitespace(s.last()) {
            pieces.push(Seq::empty())
        } else {
            pieces.update(pieces.len() - 1, pieces.last().push(s.last()))
        }
    }
}

/// The non-empty runs of non-whitespace characters (`str::split_whitespace`).
pub open spec fn fields(s: Seq<char>) -> Seq<Seq<char>> {
    whitespace_pieces(s).filter(|p: Seq<char>| p.len() > 0)
}

/// `l` without one trailing carriage return.
pub open spec fn strip_cr(l: Seq<char>) -> Seq<char> {
    if l.len() > 0 && l.last() == '\r' {
        l.drop_last()
    } else {
        l
    }
}

/// The lines of `s` (`str::lines`): the pieces between `\n`, a `\r` before a `\n`
/// removed, and no empty line after a final `\n`.
pub open spec fn lines(s: Seq<char>) -> Seq<Seq<char>> {
    let p = split_char(s, '\n');
    let n: int = if p.last().len() == 0 { p.len() - 1 } else { p.len() as int };
    Seq::new(n as nat, |i: int| if i + 1 < p.len() { strip_cr(p[i]) } else { p[i] })
}

/// `p` occurs in `s` at some position.
pub open spec fn contains(s: Seq<char>, p: Seq<char>) -> bool {
    exists|i: int| 0 <= i <= s.len() - p.len() && #[trigger] s.subrange(i, i + p.len()) == p
}

/// `s` begins with `p`.
pub open spec fn starts_with(s: Seq<char>, p: Seq<char>) -> bool {
    p.len() <= s.len() && s.subrange(0, p.len() as int) == p
}

pub open spec fn is_ascii_digit(c: char) -> bool {
    '0' <= c && c <= '9'
}

/// The number that a sequence of ASCII digits writes in base ten.
pub open spec fn digits_value(d: Seq<char>) -> nat
    decreases d.len(),
{
    if d.len() == 0 {
        0
    } else {
        digits_value(d.drop_last()) * 10 + ((d.last() as u32) - ('0' as u32)) as nat
    }
}

/// The digits of an unsigned integer literal: an optional `+`, then at least one
/// ASCII digit and nothing else.
pub open spec fn unsigned_digits(s: Seq<char>) -> Option<Seq<char>> {
    let d = if s.len() > 0 && s[0] == '+' { s.drop_first() } else { s };
    if d.len() > 0 && forall|i: int| 0 <= i < d.len() ==> is_ascii_digit(#[trigger] d[i]) {
        Some(d)
    } else {
        None
    }
}

/// What `str::parse` gives for an unsigned integer type whose largest value is `max`.
pub open spec fn parse_unsigned(s: Seq<char>, max: nat) -> Option<nat> {
    match unsigned_digits(s) {
        Some(d) => if digits_value(d) <= max {
            Some(digits_value(d))
        } else {
            None
        },
        None => None,
    }
}

/// A lowercase hexadecimal digit for `n < 16`.
pub open spec fn hex_digit(n: u32) -> char {
    if n < 10 {
        (48 + n) as char
    } else {
        (87 + n) as char
    }
}

/// How serde_json writes one character inside a JSON string.
pub open spec fn json_escaped(c: char) -> Seq<char> {
    let v = c as u32;
    if c == '"' {
        seq!['\\', '"']
    } else if c == '\\' {
        seq!['\\', '\\']
    } else if v == 8 {
        seq!['\\', 'b']
    } else if v == 12 {
        seq!['\\', 'f']
    } else if c == '\n' {
        seq!['\\', 'n']
    } else if c == '\r' {
        seq!['\\', 'r']
    } else if c == '\t' {
        seq!['\\', 't']
    } else if v < 32 {
        seq!['\\', 'u', '0', '0', hex_digit(v / 16), hex_digit(v % 16)]
    } else {
        seq![c]
    }
}

/// The escaped characters of `s`, in order.
pub open spec fn json_escaped_text(s: Seq<char>) -> Seq<char>
    decreases s.len(),
{
    if s.len() == 0 {
        Seq::empty()
    } else {
        json_escaped_text(s.drop_last()) + json_escaped(s.last())
    }
}

/// The JSON string literal that holds `s`.
pub open spec fn json_string_literal(s: Seq<char>) -> Seq<char> {
    seq!['"'] + json_escaped_text(s) + seq!['"']
}

/// `parts` joined with `sep` between consecutive parts (`[..].join(sep)`).
pub open spec fn join(parts: Seq<Seq<char>>, sep: Seq<char>) -> Seq<char>
    decreases parts.len(),
{
    if parts.len() == 0 {
        Seq::empty()
    } else if parts.len() == 1 {
        parts[0]
    } else {
        join(parts.drop_last(), sep) + sep + parts.last()
    }
}

/// `trim_start` drops a prefix and stops at a non-whitespace character.
pub proof fn lemma_trim_start(s: Seq<char>)
    ensures
        trim_start(s).len() <= s.len(),
        trim_start(s) == s.subrange(s.len() - trim_start(s).len(), s.len() as int),
        trim_start(s).len() > 0 ==> !is_whitespace(trim_start(s)[0]),
    decreases s.len(),
{
    if s.len() > 0 && is_whitespace(s[0]) {
        lemma_trim_start(s.drop_first());
        assert(s.drop_first().subrange(
            s.drop_first().len() - trim_start(s).len(),
            s.drop_first().len() as int,
        ) =~= s.subrange(s.len() - trim_start(s).len(), s.len() as int));
    } else {
        assert(s.subrange(0, s.len() as int) =~= s);
    }
}

/// `trim_end` drops a suffix and stops at a non-whitespace character.
pub proof fn lemma_trim_end(s: Seq<char>)
    ensures
        trim_end(s).len() <= s.len(),
        trim_end(s) == s.subrange(0, trim_end(s).len() as int),
        trim_end(s).len() > 0 ==> !is_whitespace(trim_end(s).last()),
    decreases s.len(),
{
    if s.len() > 0 && is_whitespace(s.last()) {
        lemma_trim_end(s.drop_last());
        assert(s.drop_last().subrange(0, trim_end(s).len() as int) =~= s.subrange(
            0,
            trim_end(s).len() as int,
        ));
    } else {
        assert(s.subrange(0, s.len() as int) =~= s);
    }
}

/// A trimmed text, when not empty, begins and ends with non-whitespace.
pub proof fn law_trim_leaves_no_outer_whitespace(s: Seq<char>)
    ensures
        trim(s).len() > 0 ==> !is_whitespace(trim(s)[0]) && !is_whitespace(trim(s).last()),
        trim(s).len() <= s.len(),
{
    lemma_trim_start(s);
    lemma_trim_end(trim_start(s));
    let t = trim_start(s);
    if trim(s).len() > 0 {
        assert(trim(s)[0] == t[0]);
    }
}

/// `split_char` yields at least one piece.
pub proof fn lemma_split_nonempty(s: Seq<char>, c: char)
    ensures
        split_char(s, c).len() >= 1,
    decreases s.len(),
{
    if s.len() > 0 {
        lemma_split_nonempty(s.drop_last(), c);
    }
}

/// No piece of `split_char(s, c)` holds `c`.
pub proof fn lemma_split_pieces_lack_separator(s: Seq<char>, c: char)
    ensures
        forall|i: int, k: int|
            0 <= i < split_char(s, c).len() && 0 <= k < split_char(s, c)[i].len() ==> #[trigger] split_char(
                s,
                c,
            )[i][k] != c,
    decreases s.len(),
{
    if s.len() > 0 {
        lemma_split_nonempty(s.drop_last(), c);
        lemma_split_pieces_lack_separator(s.drop_last(), c);
        let pieces = split_char(s.drop_last(), c);
        if s.last() != c {
            let last = pieces.last().push(s.last());
            assert forall|i: int, k: int|
                0 <= i < split_char(s, c).len() && 0 <= k < split_char(s, c)[i].len() implies #[trigger] split_char(
                    s,
                    c,
                )[i][k] != c by {
                if i == pieces.len() - 1 {
                    if k < last.len() - 1 {
                        assert(last[k] == pieces[i][k]);
                    }
                } else {
                    assert(split_char(s, c)[i] == pieces[i]);
                }
            }
        } else {
            assert forall|i: int, k: int|
                0 <= i < split_char(s, c).len() && 0 <= k < split_char(s, c)[i].len() implies #[trigger] split_char(
                    s,
                    c,
                )[i][k] != c by {
                if i < pieces.len() {
                    assert(split_char(s, c)[i] == pieces[i]);
                }
            }
        }
    }
}

/// A text without `c` is a single piece.
pub proof fn lemma_split_without_separator(b: Seq<char>, c: char)
    requires
        forall|k: int| 0 <= k < b.len() ==> b[k] != c,
    ensures
        split_char(b, c) == seq![b],
    decreases b.len(),
{
    if b.len() > 0 {
        lemma_split_without_separator(b.drop_last(), c);
        assert(b[b.len() - 1] != c);
        assert(b.drop_last().push(b.last()) =~= b);
        assert(seq![b.drop_last()].update(0, b) =~= seq![b]);
    } else {
        assert(b =~= Seq::<char>::empty());
    }
}

/// Splitting at an occurrence of `c` splits the pieces there.
pub proof fn lemma_split_concat(a: Seq<char>, c: char, b: Seq<char>)
    ensures
        split_char(a.push(c) + b, c) == split_char(a, c) + split_char(b, c),
    decreases b.len(),
{
    let w = a.push(c) + b;
    if b.len() == 0 {
        assert(w =~= a.push(c));
        assert(w.drop_last() =~= a);
        assert(split_char(a, c) + seq![Seq::<char>::empty()] =~= split_char(a, c).push(Seq::empty()));
    } else {
        let b2 = b.drop_last();
        lemma_split_concat(a, c, b2);
        lemma_split_nonempty(b2, c);
        lemma_split_nonempty(a, c);
        assert(w.drop_last() =~= a.push(c) + b2);
        assert(w.last() == b.last());
        let p = split_char(a, c);
        let q = split_char(b2, c);
        if b.last() == c {
            assert((p + q).push(Seq::empty()) =~= p + q.push(Seq::empty()));
        } else {
            let x = b.last();
            assert((p + q).last() == q.last());
            assert((p + q).update((p + q).len() - 1, q.last().push(x)) =~= p + q.update(
                q.len() - 1,
                q.last().push(x),
            ));
        }
    }
}

/// Calls `str::lines`; each line is copied into a `String`.
#[verifier::external_body]
pub(crate) fn lines_of(s: &str) -> (res: Vec<String>)
    ensures
        res.deep_view() == lines(s@),
{
    s.lines().map(|l| l.to_string()).collect()
}

/// Calls `str::trim`.
#[verifier::external_body]
pub(crate) fn trim_str(s: &str) -> (res: &str)
    ensures
        res@ == trim(s@),
{
    s.trim()
}

/// Calls `str::trim_end_matches` with a char pattern.
#[verifier::external_body]
pub(crate) fn trim_end_matching(s: &str, c: char) -> (res: &str)
    ensures
        res@ == trim_end_char(s@, c),
{
    s.trim_end_matches(c)
}

/// Calls `str::split_whitespace`; each field is copied into a `String`.
#[verifier::external_body]
pub(crate) fn fields_of(s: &str) -> (res: Vec<String>)
    ensures
        res.deep_view() == fields(s@),
{
    s.split_whitespace().map(|f| f.to_string()).collect()
}

/// Calls `str::split` with a char pattern; each piece is copied into a `String`.
#[verifier::external_body]
pub(crate) fn split_on(s: &str, c: char) -> (res: Vec<String>)
    ensures
        res.deep_view() == split_char(s@, c),
{
    s.split(c).map(|p| p.to_string()).collect()
}

/// Calls `str::contains` with a string pattern.
#[verifier::external_body]
pub(crate) fn contains_str(s: &str, p: &str) -> (res: bool)
    ensures
        res == contains(s@, p@),
{
    s.contains(p)
}

/// Calls `str::strip_prefix` with a string pattern.
#[verifier::external_body]
pub(crate) fn strip_prefix_str<'a>(s: &'a str, p: &str) -> (res: Option<&'a str>)
    ensures
        res is Some <==> starts_with(s@, p@),
        res matches Some(r) ==> r@ == s@.skip(p@.len() as int),
{
    s.strip_prefix(p)
}

/// Calls `str::parse::<u8>`; the error is dropped.
#[verifier::external_body]
pub(crate) fn parse_u8(s: &str) -> (res: Option<u8>)
    ensures
        parse_unsigned(s@, 255) matches Some(v) ==> res == Some(v as u8),
        parse_unsigned(s@, 255) is None ==> res is None,
{
    s.parse::<u8>().ok()
}

/// Calls `str::parse::<u32>`; the error is dropped.
#[verifier::external_body]
pub(crate) fn parse_u32(s: &str) -> (res: Option<u32>)
    ensures
        parse_unsigned(s@, 0xffff_ffff) matches Some(v) ==> res == Some(v as u32),
        parse_unsigned(s@, 0xffff_ffff) is None ==> res is None,
{
    s.parse::<u32>().ok()
}

/// Calls `serde_json::to_string` on a string slice. Writing a `str` into
/// serde_json's in-memory buffer cannot fail, so the error arm is never taken.
#[verifier::external_body]
pub(crate) fn json_string(s: &str) -> (res: String)
    ensures
        res@ == json_string_literal(s@),
{
    match serde_json::to_string(s) {
        Ok(v) => v,
        Err(_) => String::new(),
    }
}

/// `s` without leading and trailing whitespace, as a new `String`.
pub fn trimmed(s: &str) -> (res: String)
    ensures
        res@ == trim(s@),
{
    trim_str(s).to_owned()
}

} // verus!
