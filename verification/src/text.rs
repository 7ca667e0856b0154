//! Reading and writing numbers, words and lines in ASCII text held as bytes.

use vstd::prelude::*;
use vstd::string::StrSliceExecFns;

verus! {

/// The value of an ASCII digit, of either case above nine, if the byte is one.
pub open spec fn digit_of(b: u8) -> Option<nat> {
    if 48 <= b <= 57 {
        Some((b - 48) as nat)
    } else if 97 <= b <= 102 {
        Some((b - 87) as nat)
    } else if 65 <= b <= 70 {
        Some((b - 55) as nat)
    } else {
        None
    }
}

/// Whether the byte is a digit of the given radix.
pub open spec fn is_digit_in(b: u8, radix: nat) -> bool {
    digit_of(b) matches Some(d) && d < radix
}

/// Whether every byte is a digit of the given radix.
pub open spec fn all_digits_in(s: Seq<u8>, radix: nat) -> bool {
    forall|i: int| 0 <= i < s.len() ==> is_digit_in(#[trigger] s[i], radix)
}

/// The number that the digits spell, most significant digit first.
pub open spec fn radix_value(s: Seq<u8>, radix: nat) -> nat
    decreases s.len(),
{
    if s.len() == 0 {
        0
    } else {
        radix_value(s.drop_last(), radix) * radix + match digit_of(s.last()) {
            Some(d) => d,
            None => 0,
        }
    }
}

/// Whether the text is a number in digits of the given radix and nothing else, no larger
/// than `limit`.
pub open spec fn reads_as(s: Seq<u8>, radix: nat, limit: nat) -> bool {
    s.len() > 0 && all_digits_in(s, radix) && radix_value(s, radix) <= limit
}

/// The number spelled by a prefix never exceeds the number spelled by the whole.
pub proof fn lemma_prefix_value_le(s: Seq<u8>, n: int, radix: nat)
    requires
        0 <= n <= s.len(),
        radix >= 1,
    ensures
        radix_value(s.take(n), radix) <= radix_value(s, radix),
    decreases s.len(),
{
    if n < s.len() {
        lemma_prefix_value_le(s.drop_last(), n, radix);
        assert(s.drop_last().take(n) =~= s.take(n));
        let x = radix_value(s.drop_last(), radix);
        assert(x * radix >= x) by (nonlinear_arith)
            requires
                radix >= 1,
                x >= 0,
        ;
    } else {
        assert(s.take(n) =~= s);
    }
}

/// The digit that a byte stands for, if any.
pub fn digit_value(b: u8) -> (r: Option<u8>)
    ensures
        r is Some == digit_of(b) is Some,
        r matches Some(d) ==> digit_of(b) == Some(d as nat),
{
    if b >= 48 && b <= 57 {
        Some(b - 48)
    } else if b >= 97 && b <= 102 {
        Some(b - 87)
    } else if b >= 65 && b <= 70 {
        Some(b - 55)
    } else {
        None
    }
}

fn parse_radix(s: &[u8], radix: u8, limit: u64) -> (r: Option<u64>)
    requires
        2 <= radix <= 16,
    ensures
        r is Some <==> s@.len() > 0 && all_digits_in(s@, radix as nat) && radix_value(
            s@,
            radix as nat,
        ) <= limit,
        r matches Some(v) ==> v == radix_value(s@, radix as nat),
{
    if s.len() == 0 {
        return None;
    }
    let mut acc: u64 = 0;
    let mut i: usize = 0;
    while i < s.len()
        invariant
            i <= s.len(),
            2 <= radix <= 16,
            all_digits_in(s@.take(i as int), radix as nat),
            acc == radix_value(s@.take(i as int), radix as nat),
            acc <= limit,
        decreases s.len() - i,
    {
        let d: u8 = match digit_value(s[i]) {
            Some(d) => d,
            None => {
                assert(!is_digit_in(s@[i as int], radix as nat));
                return None;
            },
        };
        if d >= radix {
            assert(!is_digit_in(s@[i as int], radix as nat));
            return None;
        }
        assert(acc as u128 * radix as u128 <= 0xffff_ffff_ffff_ffff * 16) by (nonlinear_arith)
            requires
                acc <= 0xffff_ffff_ffff_ffff,
                radix <= 16,
        ;
        let wide: u128 = acc as u128 * radix as u128 + d as u128;
        proof {
            assert(s@.take(i + 1).drop_last() =~= s@.take(i as int));
            assert(s@.take(i + 1).last() == s@[i as int]);
            assert(wide == radix_value(s@.take(i + 1), radix as nat));
        }
        if wide > limit as u128 {
            proof {
                lemma_prefix_value_le(s@, i + 1, radix as nat);
            }
            return None;
        }
        assert forall|k: int| 0 <= k < i + 1 implies is_digit_in(
            #[trigger] s@.take(i + 1)[k],
            radix as nat,
        ) by {
            if k < i {
                assert(s@.take(i as int)[k] == s@.take(i + 1)[k]);
            }
        }
        acc = wide as u64;
        i += 1;
    }
    assert(s@.take(i as int) =~= s@);
    Some(acc)
}

/// Reads a number written in decimal digits only, up to `limit`.
pub fn parse_decimal(s: &[u8], limit: u64) -> (r: Option<u64>)
    ensures
        r is Some == reads_as(s@, 10, limit as nat),
        r matches Some(v) ==> v == radix_value(s@, 10),
{
    parse_radix(s, 10, limit)
}

/// Reads a number written in hexadecimal digits only, of either case, up to `limit`.
pub fn parse_hex(s: &[u8], limit: u64) -> (r: Option<u64>)
    ensures
        r is Some == reads_as(s@, 16, limit as nat),
        r matches Some(v) ==> v == radix_value(s@, 16),
{
    parse_radix(s, 16, limit)
}

/// Reads a number written in octal digits only, up to `limit`.
pub fn parse_octal(s: &[u8], limit: u64) -> (r: Option<u64>)
    ensures
        r is Some == reads_as(s@, 8, limit as nat),
        r matches Some(v) ==> v == radix_value(s@, 8),
{
    parse_radix(s, 8, limit)
}

/// The character that writes a digit below sixteen, in lower case above nine.
pub open spec fn digit_char(d: nat) -> char {
    if d < 10 {
        ((48 + d) as u8) as char
    } else {
        ((87 + d) as u8) as char
    }
}

/// The shortest way to write a number in the given radix.
pub open spec fn radix_text(n: nat, radix: nat) -> Seq<char>
    decreases n,
{
    if radix < 2 || n < radix {
        seq![digit_char(n)]
    } else {
        proof {
            assert(n / radix < n) by (nonlinear_arith)
                requires
                    radix >= 2,
                    n >= radix,
            ;
        }
        radix_text(n / radix, radix).push(digit_char(n % radix))
    }
}

/// The decimal text of a number.
pub open spec fn decimal_text(n: nat) -> Seq<char> {
    radix_text(n, 10)
}

/// The hexadecimal text of a number, in lower case and without leading zeros.
pub open spec fn hex_text(n: nat) -> Seq<char> {
    radix_text(n, 16)
}

fn push_radix(out: &mut String, n: u64, radix: u64)
    requires
        2 <= radix <= 16,
    ensures
        final(out)@ == old(out)@ + radix_text(n as nat, radix as nat),
    decreases n,
{
    if n >= radix {
        assert(n / radix < n) by (nonlinear_arith)
            requires
                radix >= 2,
                n >= radix,
        ;
        push_radix(out, n / radix, radix);
    }
    let ghost mid = out@;
    let d: u8 = (n % radix) as u8;
    let c: char = if d < 10 {
        (48 + d) as char
    } else {
        (87 + d) as char
    };
    assert(c == digit_char((n as nat) % (radix as nat)));
    out.push(c);
    proof {
        let head = old(out)@;
        if n >= radix {
            let body = radix_text((n as nat) / (radix as nat), radix as nat);
            assert((n / radix) as nat == (n as nat) / (radix as nat));
            assert(mid == head + body);
            assert((head + body).push(c) =~= head + body.push(c));
            assert(radix_text(n as nat, radix as nat) == body.push(c));
        } else {
            vstd::arithmetic::div_mod::lemma_small_mod(n as nat, radix as nat);
            assert(radix_text(n as nat, radix as nat) == seq![c]);
            assert(head.push(c) =~= head + seq![c]);
        }
        assert(out@ == head + radix_text(n as nat, radix as nat));
    }
}

/// Appends the decimal text of a number.
pub fn push_decimal(out: &mut String, n: u64)
    ensures
        final(out)@ == old(out)@ + decimal_text(n as nat),
{
    push_radix(out, n, 10)
}

/// Appends the hexadecimal text of a number.
pub fn push_hex(out: &mut String, n: u64)
    ensures
        final(out)@ == old(out)@ + hex_text(n as nat),
{
    push_radix(out, n, 16)
}

/// Whether the byte is a space or a tab.
pub open spec fn is_blank(b: u8) -> bool {
    b == 32 || b == 9
}

/// The first position at or after `from` that holds no blank, or the length.
pub open spec fn skip_blanks(s: Seq<u8>, from: int) -> int
    decreases s.len() - from,
{
    if 0 <= from < s.len() && is_blank(s[from]) {
        skip_blanks(s, from + 1)
    } else {
        from
    }
}

/// The first position at or after `from` that holds a blank, or the length.
pub open spec fn skip_word(s: Seq<u8>, from: int) -> int
    decreases s.len() - from,
{
    if 0 <= from < s.len() && !is_blank(s[from]) {
        skip_word(s, from + 1)
    } else {
        from
    }
}

/// The first position at or after `from` that holds the byte `b`, or the length.
pub open spec fn first_byte(s: Seq<u8>, b: u8, from: int) -> int
    decreases s.len() - from,
{
    if 0 <= from < s.len() && s[from] != b {
        first_byte(s, b, from + 1)
    } else {
        from
    }
}

/// The first position at or after `from` that holds a line feed, or the length.
pub open spec fn line_end(s: Seq<u8>, from: int) -> int {
    first_byte(s, 10, from)
}

pub proof fn lemma_skip_bounds(s: Seq<u8>, from: int)
    requires
        0 <= from <= s.len(),
    ensures
        from <= skip_blanks(s, from) <= s.len(),
        from <= skip_word(s, from) <= s.len(),
        from <= line_end(s, from) <= s.len(),
        from < s.len() && !is_blank(s[from]) ==> from < skip_word(s, from),
    decreases s.len() - from,
{
    lemma_first_byte_bounds(s, 10, from);
    if from < s.len() {
        lemma_skip_bounds(s, from + 1);
    }
}

pub proof fn lemma_first_byte_bounds(s: Seq<u8>, b: u8, from: int)
    requires
        0 <= from <= s.len(),
    ensures
        from <= first_byte(s, b, from) <= s.len(),
        first_byte(s, b, from) < s.len() ==> s[first_byte(s, b, from)] == b,
    decreases s.len() - from,
{
    if from < s.len() && s[from] != b {
        lemma_first_byte_bounds(s, b, from + 1);
    }
}

/// Where the word of the given number starts, counting from zero: the length if there is none.
pub open spec fn word_start(s: Seq<u8>, k: nat) -> int
    decreases k,
{
    if k == 0 {
        skip_blanks(s, 0)
    } else {
        skip_blanks(s, skip_word(s, word_start(s, (k - 1) as nat)))
    }
}

/// Where the word of the given number ends.
pub open spec fn word_end(s: Seq<u8>, k: nat) -> int {
    skip_word(s, word_start(s, k))
}

/// The word of the given number among those that blanks separate, if the text has so many.
pub open spec fn word(s: Seq<u8>, k: nat) -> Option<Seq<u8>> {
    if word_start(s, k) < s.len() {
        Some(s.subrange(word_start(s, k), word_end(s, k)))
    } else {
        None
    }
}

pub proof fn lemma_word_bounds(s: Seq<u8>, k: nat)
    ensures
        0 <= word_start(s, k) <= word_end(s, k) <= s.len(),
        word_start(s, k) < s.len() ==> word_start(s, k) < word_end(s, k),
        word_start(s, k) < s.len() ==> !is_blank(s[word_start(s, k)]),
    decreases k,
{
    if k == 0 {
        lemma_skip_bounds(s, 0);
        lemma_skip_blanks_stops(s, 0);
    } else {
        lemma_word_bounds(s, (k - 1) as nat);
        let e = skip_word(s, word_start(s, (k - 1) as nat));
        lemma_skip_bounds(s, e);
        lemma_skip_blanks_stops(s, e);
    }
    lemma_skip_bounds(s, word_start(s, k));
}

pub proof fn lemma_skip_blanks_stops(s: Seq<u8>, from: int)
    requires
        0 <= from <= s.len(),
    ensures
        skip_blanks(s, from) < s.len() ==> !is_blank(s[skip_blanks(s, from)]),
    decreases s.len() - from,
{
    if from < s.len() && is_blank(s[from]) {
        lemma_skip_blanks_stops(s, from + 1);
    }
}

/// Finds the first position at or after `from` that holds no blank.
pub fn find_non_blank(s: &[u8], from: usize) -> (r: usize)
    ensures
        r == skip_blanks(s@, from as int),
        from <= r,
        from <= s@.len() ==> r <= s@.len(),
{
    let mut i: usize = from;
    while i < s.len() && (s[i] == 32 || s[i] == 9)
        invariant
            from <= i,
            from <= s@.len() ==> i <= s@.len(),
            skip_blanks(s@, from as int) == skip_blanks(s@, i as int),
        decreases s@.len() - i,
    {
        i += 1;
    }
    i
}

/// Finds the first position at or after `from` that holds a blank.
pub fn find_blank(s: &[u8], from: usize) -> (r: usize)
    ensures
        r == skip_word(s@, from as int),
        from <= r,
        from <= s@.len() ==> r <= s@.len(),
{
    let mut i: usize = from;
    while i < s.len() && !(s[i] == 32 || s[i] == 9)
        invariant
            from <= i,
            from <= s@.len() ==> i <= s@.len(),
            skip_word(s@, from as int) == skip_word(s@, i as int),
        decreases s@.len() - i,
    {
        i += 1;
    }
    i
}

/// Finds the first position at or after `from` that holds the byte `b`.
pub fn find_byte(s: &[u8], b: u8, from: usize) -> (r: usize)
    ensures
        r == first_byte(s@, b, from as int),
        from <= r,
        from <= s@.len() ==> r <= s@.len(),
        r < s@.len() ==> s@[r as int] == b,
{
    let mut i: usize = from;
    while i < s.len() && s[i] != b
        invariant
            from <= i,
            from <= s@.len() ==> i <= s@.len(),
            first_byte(s@, b, from as int) == first_byte(s@, b, i as int),
        decreases s@.len() - i,
    {
        i += 1;
    }
    i
}

/// Finds the first position at or after `from` that holds a line feed.
pub fn find_line_end(s: &[u8], from: usize) -> (r: usize)
    ensures
        r == line_end(s@, from as int),
        from <= r,
        from <= s@.len() ==> r <= s@.len(),
{
    find_byte(s, 10, from)
}

/// The bounds of the word of the given number, if the text has so many.
pub fn word_bounds(s: &[u8], k: usize) -> (r: Option<(usize, usize)>)
    ensures
        r is Some == word(s@, k as nat) is Some,
        r matches Some((a, b)) ==> a == word_start(s@, k as nat) && b == word_end(s@, k as nat) && a
            < b <= s@.len(),
{
    let mut start: usize = find_non_blank(s, 0);
    let mut j: usize = 0;
    while j < k
        invariant
            j <= k,
            start == word_start(s@, j as nat),
            start <= s@.len(),
        decreases k - j,
    {
        let end = find_blank(s, start);
        start = find_non_blank(s, end);
        j += 1;
    }
    proof {
        lemma_word_bounds(s@, k as nat);
    }
    if start < s.len() {
        let end = find_blank(s, start);
        Some((start, end))
    } else {
        None
    }
}

/// The lines of a text from a position on: each ends before a line feed or at the end of the
/// text, and nothing follows a final line feed.
pub open spec fn lines_from(s: Seq<u8>, from: int) -> Seq<Seq<u8>>
    decreases s.len() + 1 - from,
    via lines_from_decreases
{
    if 0 <= from < s.len() {
        seq![s.subrange(from, line_end(s, from))] + lines_from(s, line_end(s, from) + 1)
    } else {
        Seq::empty()
    }
}

#[via_fn]
proof fn lines_from_decreases(s: Seq<u8>, from: int) {
    if 0 <= from < s.len() {
        lemma_skip_bounds(s, from);
    }
}

/// The lines of a text.
pub open spec fn lines(s: Seq<u8>) -> Seq<Seq<u8>> {
    lines_from(s, 0)
}

/// Where the line that starts at `pos` ends, and where the next one starts.
pub(crate) fn next_line(s: &[u8], pos: usize) -> (r: (usize, usize))
    requires
        pos < s@.len(),
    ensures
        pos <= r.0 <= s@.len(),
        pos < r.1 <= s@.len(),
        r.0 <= r.1,
        r.0 == line_end(s@, pos as int),
        lines_from(s@, pos as int).len() > 0,
        lines_from(s@, pos as int)[0] == s@.subrange(pos as int, r.0 as int),
        lines_from(s@, pos as int).drop_first() == lines_from(s@, r.1 as int),
{
    let end = find_line_end(s, pos);
    let next: usize = if end < s.len() {
        end + 1
    } else {
        end
    };
    proof {
        let rest = lines_from(s@, pos as int);
        assert(rest.drop_first() =~= lines_from(s@, end + 1));
    }
    (end, next)
}

/// The bytes that write an ASCII text.
pub open spec fn ascii_bytes(t: Seq<char>) -> Seq<u8> {
    Seq::new(t.len(), |i: int| t[i] as u8)
}

/// The text whose characters have the codes that the bytes give.
pub open spec fn bytes_text(s: Seq<u8>) -> Seq<char> {
    Seq::new(s.len(), |i: int| s[i] as char)
}

/// Whether the bytes begin with the given ones.
pub open spec fn has_prefix(s: Seq<u8>, p: Seq<u8>) -> bool {
    p.len() <= s.len() && s.take(p.len() as int) == p
}

/// Tells whether the bytes begin with an ASCII text.
pub(crate) fn starts_with(s: &[u8], prefix: &str) -> (r: bool)
    requires
        prefix.is_ascii(),
    ensures
        r == has_prefix(s@, ascii_bytes(prefix@)),
{
    broadcast use vstd::string::is_ascii_spec_bytes;

    let p = prefix.as_bytes();
    assert(p@ =~= ascii_bytes(prefix@));
    if p.len() > s.len() {
        return false;
    }
    let mut i: usize = 0;
    while i < p.len()
        invariant
            i <= p@.len() <= s@.len(),
            p@ == ascii_bytes(prefix@),
            s@.take(i as int) =~= p@.take(i as int),
        decreases p@.len() - i,
    {
        if s[i] != p[i] {
            assert(s@.take(p@.len() as int)[i as int] != p@[i as int]);
            return false;
        }
        assert(s@.take(i + 1) =~= s@.take(i as int).push(s@[i as int]));
        assert(p@.take(i + 1) =~= p@.take(i as int).push(p@[i as int]));
        i += 1;
    }
    assert(p@.take(p@.len() as int) =~= p@);
    true
}

/// Tells whether the bytes are exactly an ASCII text.
pub(crate) fn is_text(s: &[u8], text: &str) -> (r: bool)
    requires
        text.is_ascii(),
    ensures
        r == (s@ == ascii_bytes(text@)),
{
    let whole = starts_with(s, text);
    let same_len = s.len() == text.unicode_len();
    proof {
        if s@.len() == text@.len() {
            assert(s@.take(s@.len() as int) =~= s@);
        }
    }
    whole && same_len
}

/// The text whose characters have the codes that the bytes give.
pub fn text_of_bytes(s: &[u8]) -> (r: String)
    ensures
        r@ == bytes_text(s@),
{
    let mut out = String::new();
    let mut i: usize = 0;
    while i < s.len()
        invariant
            i <= s@.len(),
            out@ =~= bytes_text(s@.take(i as int)),
        decreases s@.len() - i,
    {
        out.push(s[i] as char);
        i += 1;
    }
    assert(s@.take(s@.len() as int) =~= s@);
    out
}

/// A copy of the bytes.
pub fn copy_of(s: &[u8]) -> (r: Vec<u8>)
    ensures
        r@ == s@,
{
    let mut out: Vec<u8> = Vec::new();
    out.extend_from_slice(s);
    out
}

} // verus!
