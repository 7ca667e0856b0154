//! Reading the text of a sixteen-byte address back, and the proof that the text which is
//! written for an address is read back as that address.

use vstd::prelude::*;
use vstd::utf8::is_ascii_chars;
use crate::model::IpAddress;
use crate::model::IpView;
use crate::net::best_run;
use crate::net::groups_of;
use crate::net::groups_text;
use crate::net::ipv6_text;
use crate::net::join_groups;
use crate::net::lemma_run_bounds;
use crate::net::zero_run;
use crate::text::bytes_text;
use crate::text::digit_char;
use crate::text::digit_of;
use crate::text::digit_value;
use crate::text::find_byte;
use crate::text::first_byte;
use crate::text::hex_text;
use crate::text::radix_text;

verus! {

/// The value of a character as a hexadecimal digit, if it is one.
pub open spec fn char_digit(c: char) -> Option<nat> {
    if '0' <= c <= '9' {
        Some((c as u8 - 48) as nat)
    } else if 'a' <= c <= 'f' {
        Some((c as u8 - 87) as nat)
    } else if 'A' <= c <= 'F' {
        Some((c as u8 - 55) as nat)
    } else {
        None
    }
}

/// The number that hexadecimal digits spell, most significant digit first.
pub open spec fn chars_value(s: Seq<char>) -> nat
    decreases s.len(),
{
    if s.len() == 0 {
        0
    } else {
        chars_value(s.drop_last()) * 16 + match char_digit(s.last()) {
            Some(d) => d,
            None => 0,
        }
    }
}

/// Whether the text is one group: one to four hexadecimal digits.
pub open spec fn is_group_text(s: Seq<char>) -> bool {
    1 <= s.len() <= 4 && forall|i: int| 0 <= i < s.len() ==> char_digit(#[trigger] s[i]) is Some
}

/// The first position at or after `from` that holds a colon, or the length.
pub open spec fn first_colon(s: Seq<char>, from: int) -> int
    decreases s.len() - from,
{
    if 0 <= from < s.len() && s[from] != ':' {
        first_colon(s, from + 1)
    } else {
        from
    }
}

pub proof fn lemma_first_colon_bounds(s: Seq<char>, from: int)
    requires
        0 <= from <= s.len(),
    ensures
        from <= first_colon(s, from) <= s.len(),
    decreases s.len() - from,
{
    if from < s.len() && s[from] != ':' {
        lemma_first_colon_bounds(s, from + 1);
    }
}

/// The groups that a text lists: one or more groups with single colons between them.
pub open spec fn text_groups(s: Seq<char>) -> Option<Seq<u16>>
    decreases s.len(),
    via text_groups_decreases
{
    let c = first_colon(s, 0);
    if !is_group_text(s.take(c)) {
        None
    } else if c >= s.len() {
        Some(seq![chars_value(s.take(c)) as u16])
    } else {
        match text_groups(s.skip(c + 1)) {
            Some(rest) => Some(seq![chars_value(s.take(c)) as u16] + rest),
            None => None,
        }
    }
}

#[via_fn]
proof fn text_groups_decreases(s: Seq<char>) {
    lemma_first_colon_bounds(s, 0);
}

/// The first position at or after `from` where two colons stand side by side, or the length.
pub open spec fn double_colon(s: Seq<char>, from: int) -> int
    decreases s.len() - from,
{
    if 0 <= from && from + 1 < s.len() {
        if s[from] == ':' && s[from + 1] == ':' {
            from
        } else {
            double_colon(s, from + 1)
        }
    } else {
        s.len() as int
    }
}

/// The groups on one side of a double colon: none where nothing is written.
pub open spec fn side_groups(s: Seq<char>) -> Option<Seq<u16>> {
    if s.len() == 0 {
        Some(Seq::empty())
    } else {
        text_groups(s)
    }
}

/// So many zero groups.
pub open spec fn zeros(n: nat) -> Seq<u16> {
    Seq::new(n, |i: int| 0u16)
}

/// The eight groups that a text stands for: eight groups with colons between them, or fewer
/// with one double colon that stands for the zero groups left out.
pub open spec fn parse_groups(t: Seq<char>) -> Option<Seq<u16>> {
    let p = double_colon(t, 0);
    if p < t.len() {
        let l = side_groups(t.take(p));
        let r = side_groups(t.skip(p + 2));
        if l is Some && r is Some && l->0.len() + r->0.len() <= 7 {
            Some(l->0 + zeros((8 - l->0.len() - r->0.len()) as nat) + r->0)
        } else {
            None
        }
    } else if text_groups(t) is Some && text_groups(t)->0.len() == 8 {
        text_groups(t)
    } else {
        None
    }
}

/// The bytes of the groups, the more significant byte of each first.
pub open spec fn group_bytes(g: Seq<u16>) -> Seq<u8> {
    Seq::new(
        2 * g.len(),
        |k: int|
            if k % 2 == 0 {
                (g[k / 2] / 256) as u8
            } else {
                (g[k / 2] % 256) as u8
            },
    )
}

/// The sixteen bytes of the address that a text stands for.
pub open spec fn ipv6_parse(t: Seq<char>) -> Option<Seq<u8>> {
    if is_ascii_chars(t) && parse_groups(t) is Some {
        Some(group_bytes(parse_groups(t)->0))
    } else {
        None
    }
}

/// Sixteen to the given power.
pub open spec fn pow16(k: nat) -> nat
    decreases k,
{
    if k == 0 {
        1
    } else {
        16 * pow16((k - 1) as nat)
    }
}

proof fn lemma_digit_char(d: nat)
    requires
        d < 16,
    ensures
        char_digit(digit_char(d)) == Some(d),
        digit_char(d) != ':',
        digit_char(d) <= '\u{7f}',
{
}

proof fn lemma_value_push(s: Seq<char>, c: char)
    ensures
        chars_value(s.push(c)) == chars_value(s) * 16 + match char_digit(c) {
            Some(d) => d,
            None => 0,
        },
{
    assert(s.push(c).drop_last() =~= s);
}

/// The text of a number below sixteen to the power `k` has at most `k` digits, all of them
/// hexadecimal, and spells the number.
pub proof fn lemma_hex_text(n: nat, k: nat)
    requires
        k >= 1,
        n < pow16(k),
    ensures
        1 <= hex_text(n).len() <= k,
        forall|i: int|
            0 <= i < hex_text(n).len() ==> char_digit(#[trigger] hex_text(n)[i]) is Some
                && hex_text(n)[i] != ':',
        chars_value(hex_text(n)) == n,
    decreases k,
{
    if n < 16 {
        lemma_digit_char(n);
        assert(hex_text(n) =~= seq![digit_char(n)]);
        lemma_value_push(Seq::empty(), digit_char(n));
        assert(Seq::<char>::empty().push(digit_char(n)) =~= seq![digit_char(n)]);
    } else {
        assert(k >= 2) by {
            if k == 1 {
                assert(pow16(1) == 16) by {
                    reveal_with_fuel(pow16, 2);
                }
            }
        }
        let head = radix_text(n / 16, 16);
        let c = digit_char(n % 16);
        assert(hex_text(n) == head.push(c));
        lemma_hex_text(n / 16, (k - 1) as nat);
        lemma_digit_char(n % 16);
        lemma_value_push(head, c);
        assert forall|i: int| 0 <= i < hex_text(n).len() implies char_digit(
            #[trigger] hex_text(n)[i],
        ) is Some && hex_text(n)[i] != ':' by {
            if i < head.len() {
                assert(hex_text(n)[i] == head[i]);
            }
        }
    }
}

/// The text of a group has one to four hexadecimal digits and spells the group.
pub proof fn lemma_group_text(v: u16)
    ensures
        is_group_text(hex_text(v as nat)),
        chars_value(hex_text(v as nat)) == v,
        forall|i: int| 0 <= i < hex_text(v as nat).len() ==> hex_text(v as nat)[i] != ':',
{
    assert(pow16(4) == 65536) by {
        reveal_with_fuel(pow16, 5);
    }
    lemma_hex_text(v as nat, 4);
}

/// Groups with colons between them are the first group, a colon and the rest.
pub proof fn lemma_join_front(gs: Seq<u16>)
    requires
        gs.len() >= 2,
    ensures
        join_groups(gs) == hex_text(gs[0] as nat) + seq![':'] + join_groups(gs.drop_first()),
    decreases gs.len(),
{
    let init = gs.drop_last();
    let last = hex_text(gs.last() as nat);
    if gs.len() == 2 {
        assert(init =~= seq![gs[0]]);
        assert(gs.drop_first() =~= seq![gs[1]]);
        assert(join_groups(init) == hex_text(gs[0] as nat));
        assert(join_groups(gs.drop_first()) == hex_text(gs[1] as nat));
    } else {
        lemma_join_front(init);
        assert(init.drop_first() =~= gs.drop_first().drop_last());
        assert(gs.drop_first().last() == gs.last());
        assert(init[0] == gs[0]);
        let mid = join_groups(init.drop_first());
        assert(join_groups(gs.drop_first()) == mid + seq![':'] + last);
        assert(hex_text(gs[0] as nat) + seq![':'] + mid + seq![':'] + last =~= hex_text(
            gs[0] as nat,
        ) + seq![':'] + (mid + seq![':'] + last));
    }
}

/// Whether a text is made of hexadecimal digits and single colons, with a digit at each end.
pub open spec fn is_plain_list(x: Seq<char>) -> bool {
    &&& x.len() >= 1
    &&& x[0] != ':'
    &&& x.last() != ':'
    &&& forall|i: int| 0 <= i < x.len() ==> #[trigger] x[i] == ':' || char_digit(x[i]) is Some
    &&& forall|i: int| 0 <= i < x.len() - 1 ==> !(#[trigger] x[i] == ':' && x[i + 1] == ':')
}

/// Groups with colons between them are digits and single colons, with a digit at each end.
pub proof fn lemma_join_chars(gs: Seq<u16>)
    requires
        gs.len() >= 1,
    ensures
        is_plain_list(join_groups(gs)),
    decreases gs.len(),
{
    let last = hex_text(gs.last() as nat);
    lemma_group_text(gs.last());
    if gs.len() == 1 {
        assert(join_groups(gs) == last);
    } else {
        let init = join_groups(gs.drop_last());
        lemma_join_chars(gs.drop_last());
        let x = join_groups(gs);
        assert(x == init + seq![':'] + last);
        assert forall|i: int| 0 <= i < x.len() implies #[trigger] x[i] == ':' || char_digit(
            x[i],
        ) is Some by {
            if i < init.len() {
                assert(x[i] == init[i]);
            } else if i > init.len() {
                assert(x[i] == last[i - init.len() - 1]);
            }
        }
        assert forall|i: int| 0 <= i < x.len() - 1 implies !(#[trigger] x[i] == ':' && x[i + 1]
            == ':') by {
            if i + 1 < init.len() {
                assert(x[i] == init[i] && x[i + 1] == init[i + 1]);
            } else if i + 1 == init.len() {
                assert(x[i] == init.last());
            } else {
                assert(x[i + 1] == last[i - init.len()]);
            }
        }
        assert(x[0] == init[0]);
        assert(x.last() == last.last());
    }
}

proof fn lemma_plain_is_ascii(x: Seq<char>)
    requires
        is_plain_list(x),
    ensures
        is_ascii_chars(x),
{
    assert forall|i: int| 0 <= i < x.len() implies '\0' <= #[trigger] x[i] <= '\u{7f}' by {
        assert(x[i] == ':' || char_digit(x[i]) is Some);
    }
}

proof fn lemma_first_colon_scan(x: Seq<char>, from: int, stop: int)
    requires
        0 <= from <= stop <= x.len(),
        forall|i: int| from <= i < stop ==> x[i] != ':',
        stop == x.len() || x[stop] == ':',
    ensures
        first_colon(x, from) == stop,
    decreases stop - from,
{
    if from < stop {
        lemma_first_colon_scan(x, from + 1, stop);
    }
}

/// Groups with colons between them are read back as they are.
pub proof fn lemma_join_parses(gs: Seq<u16>)
    requires
        gs.len() >= 1,
    ensures
        text_groups(join_groups(gs)) == Some(gs),
    decreases gs.len(),
{
    let head = hex_text(gs[0] as nat);
    lemma_group_text(gs[0]);
    let x = join_groups(gs);
    if gs.len() == 1 {
        assert(x == head);
        lemma_first_colon_scan(x, 0, x.len() as int);
        assert(x.take(x.len() as int) =~= x);
        assert(seq![gs[0]] =~= gs);
    } else {
        lemma_join_front(gs);
        let rest = join_groups(gs.drop_first());
        assert(x == head + seq![':'] + rest);
        assert forall|i: int| 0 <= i < head.len() implies x[i] != ':' by {
            assert(x[i] == head[i]);
        }
        assert(x[head.len() as int] == ':');
        lemma_first_colon_scan(x, 0, head.len() as int);
        assert(x.take(head.len() as int) =~= head);
        assert(x.skip(head.len() as int + 1) =~= rest);
        lemma_join_parses(gs.drop_first());
        assert(seq![gs[0]] + gs.drop_first() =~= gs);
    }
}

proof fn lemma_double_colon_at(x: Seq<char>, from: int, p: int)
    requires
        0 <= from <= p,
        p + 1 < x.len(),
        x[p] == ':' && x[p + 1] == ':',
        forall|i: int| from <= i < p ==> !(#[trigger] x[i] == ':' && x[i + 1] == ':'),
    ensures
        double_colon(x, from) == p,
    decreases p - from,
{
    if from < p {
        lemma_double_colon_at(x, from + 1, p);
    }
}

proof fn lemma_no_double_colon(x: Seq<char>, from: int)
    requires
        0 <= from,
        forall|i: int| 0 <= i < x.len() - 1 ==> !(#[trigger] x[i] == ':' && x[i + 1] == ':'),
    ensures
        double_colon(x, from) == x.len(),
    decreases x.len() - from,
{
    if from + 1 < x.len() {
        lemma_no_double_colon(x, from + 1);
    }
}

proof fn lemma_zero_run(g: Seq<u16>, i: int, j: int)
    requires
        0 <= i,
        0 <= j < zero_run(g, i),
    ensures
        i + j < g.len(),
        g[i + j] == 0,
    decreases j,
{
    if j > 0 {
        lemma_zero_run(g, i + 1, j - 1);
    }
}

/// The text that is written for eight groups is read back as those groups.
pub proof fn lemma_groups_round_trip(g: Seq<u16>)
    requires
        g.len() == 8,
    ensures
        parse_groups(groups_text(g)) == Some(g),
        is_ascii_chars(groups_text(g)),
{
    let run = best_run(g, 0);
    let t = groups_text(g);
    lemma_run_bounds(g, 0);
    if run.1 >= 2 {
        let left = g.take(run.0);
        let right = g.skip(run.0 + run.1);
        let lt = join_groups(left);
        let rt = join_groups(right);
        assert(t == lt + seq![':', ':'] + rt);
        let p = lt.len() as int;
        if left.len() > 0 {
            lemma_join_chars(left);
            lemma_join_parses(left);
        }
        if right.len() > 0 {
            lemma_join_chars(right);
            lemma_join_parses(right);
        }
        assert(t[p] == ':' && t[p + 1] == ':');
        assert forall|i: int| 0 <= i < p implies !(#[trigger] t[i] == ':' && t[i + 1] == ':') by {
            assert(t[i] == lt[i]);
            if i + 1 < p {
                assert(t[i + 1] == lt[i + 1]);
            }
        }
        lemma_double_colon_at(t, 0, p);
        assert(t.take(p) =~= lt);
        assert(t.skip(p + 2) =~= rt);
        assert(side_groups(lt) == Some(left));
        assert(side_groups(rt) == Some(right));
        assert forall|k: int| run.0 <= k < run.0 + run.1 implies #[trigger] g[k] == 0 by {
            lemma_zero_run(g, run.0, k - run.0);
        }
        assert(left + zeros((8 - left.len() - right.len()) as nat) + right =~= g);
        assert forall|i: int| 0 <= i < t.len() implies '\0' <= #[trigger] t[i] <= '\u{7f}' by {
            if i < p {
                lemma_plain_is_ascii(lt);
                assert(t[i] == lt[i]);
            } else if i >= p + 2 {
                lemma_plain_is_ascii(rt);
                assert(t[i] == rt[i - p - 2]);
            } else {
                assert(t[i] == ':');
            }
        }
    } else {
        lemma_join_chars(g);
        lemma_join_parses(g);
        lemma_no_double_colon(t, 0);
        lemma_plain_is_ascii(t);
    }
}

/// The bytes of the groups of sixteen bytes are those bytes.
pub proof fn lemma_group_bytes(a: Seq<u8>)
    requires
        a.len() == 16,
    ensures
        group_bytes(groups_of(a)) == a,
{
    assert(group_bytes(groups_of(a)) =~= a);
}

/// Writing an address and reading the text back gives the address, so that writing again
/// gives the same text.
pub proof fn lemma_ipv6_text_round_trip(a: Seq<u8>)
    requires
        a.len() == 16,
    ensures
        ipv6_parse(ipv6_text(a)) == Some(a),
        ipv6_text(ipv6_parse(ipv6_text(a))->0) == ipv6_text(a),
{
    lemma_groups_round_trip(groups_of(a));
    lemma_group_bytes(a);
}

proof fn lemma_colon_position(t: Seq<u8>, pos: int, k: int)
    requires
        0 <= pos,
        0 <= k,
        pos + k <= t.len(),
    ensures
        first_colon(bytes_text(t).skip(pos), k) == first_byte(t, 58, pos + k) - pos,
    decreases t.len() - pos - k,
{
    if pos + k < t.len() {
        assert(bytes_text(t).skip(pos)[k] == t[pos + k] as char);
        if t[pos + k] != 58 {
            lemma_colon_position(t, pos, k + 1);
        }
    }
}

fn group_of_text(t: &[u8]) -> (r: Option<u16>)
    ensures
        r is Some == is_group_text(bytes_text(t@)),
        r matches Some(v) ==> v == chars_value(bytes_text(t@)),
{
    if t.len() == 0 || t.len() > 4 {
        return None;
    }
    let mut acc: u16 = 0;
    let mut i: usize = 0;
    while i < t.len()
        invariant
            1 <= t@.len() <= 4,
            i <= t@.len(),
            forall|j: int| 0 <= j < i ==> char_digit(#[trigger] bytes_text(t@)[j]) is Some,
            acc == chars_value(bytes_text(t@).take(i as int)),
            i == 0 ==> acc == 0,
            i == 1 ==> acc < 16,
            i == 2 ==> acc < 256,
            i == 3 ==> acc < 4096,
        decreases t@.len() - i,
    {
        let ghost c = bytes_text(t@)[i as int];
        assert(c == t@[i as int] as char);
        assert(char_digit(c) == digit_of(t@[i as int]));
        let d: u8 = match digit_value(t[i]) {
            Some(d) => d,
            None => {
                return None;
            },
        };
        proof {
            assert(bytes_text(t@).take(i + 1) =~= bytes_text(t@).take(i as int).push(c));
            lemma_value_push(bytes_text(t@).take(i as int), c);
        }
        acc = acc * 16 + d as u16;
        i += 1;
    }
    assert(bytes_text(t@).take(t@.len() as int) =~= bytes_text(t@));
    Some(acc)
}

fn list_of_text(t: &[u8]) -> (r: Option<Vec<u16>>)
    ensures
        r is Some == text_groups(bytes_text(t@)) is Some,
        r matches Some(v) ==> v@ == text_groups(bytes_text(t@))->0,
{
    let ghost chars = bytes_text(t@);
    let mut out: Vec<u16> = Vec::new();
    let mut pos: usize = 0;
    assert(chars.skip(0) =~= chars);
    loop
        invariant
            pos <= t@.len(),
            chars == bytes_text(t@),
            text_groups(chars) == (match text_groups(chars.skip(pos as int)) {
                Some(rest) => Some(out@ + rest),
                None => None,
            }),
        decreases t@.len() - pos,
    {
        let end = find_byte(t, 58, pos);
        let ghost x = chars.skip(pos as int);
        proof {
            lemma_colon_position(t@, pos as int, 0);
            assert(x.take(end - pos) =~= bytes_text(t@.subrange(pos as int, end as int)));
        }
        let v = match group_of_text(&t[pos..end]) {
            Some(v) => v,
            None => {
                return None;
            },
        };
        let ghost before = out@;
        out.push(v);
        if end >= t.len() {
            proof {
                assert(before + seq![v] =~= out@);
            }
            return Some(out);
        }
        proof {
            assert(x.skip(end - pos + 1) =~= chars.skip(end + 1));
            match text_groups(chars.skip(end + 1)) {
                Some(rest) => {
                    assert(before + (seq![v] + rest) =~= out@ + rest);
                },
                None => {},
            }
        }
        pos = end + 1;
    }
}

/// Reads the text of a sixteen-byte address: eight groups of one to four hexadecimal
/// digits with colons between them, or fewer with one double colon in place of the zero
/// groups left out.
pub fn parse_ipv6(s: &str) -> (r: Option<IpAddress>)
    ensures
        r is Some == ipv6_parse(s@) is Some,
        r matches Some(ip) ==> ip@ == IpView::V6(ipv6_parse(s@)->0),
{
    if !s.is_ascii() {
        return None;
    }
    let t = s.as_bytes();
    let n = t.len();
    let ghost chars = s@;
    proof {
        broadcast use vstd::string::is_ascii_spec_bytes;

        assert(chars =~= bytes_text(t@));
    }
    let mut p: usize = 0;
    while n - p >= 2 && !(t[p] == 58 && t[p + 1] == 58)
        invariant
            p <= n,
            n == t@.len(),
            chars == bytes_text(t@),
            double_colon(chars, 0) == double_colon(chars, p as int),
        decreases n - p,
    {
        p += 1;
    }
    let groups: Vec<u16> = if n - p >= 2 {
        assert(double_colon(chars, 0) == p);
        assert(chars.take(p as int) =~= bytes_text(t@.subrange(0, p as int)));
        assert(chars.skip(p + 2) =~= bytes_text(t@.subrange(p + 2, n as int)));
        let mut left: Vec<u16> = if p == 0 {
            Vec::new()
        } else {
            match list_of_text(&t[0..p]) {
                Some(v) => v,
                None => {
                    return None;
                },
            }
        };
        let mut right: Vec<u16> = if p + 2 == n {
            Vec::new()
        } else {
            match list_of_text(&t[p + 2..n]) {
                Some(v) => v,
                None => {
                    return None;
                },
            }
        };
        assert(side_groups(chars.take(p as int)) == Some(left@));
        assert(side_groups(chars.skip(p + 2)) == Some(right@));
        if left.len() > 7 || right.len() > 7 - left.len() {
            return None;
        }
        let ghost l = left@;
        let fill: usize = 8 - left.len() - right.len();
        let mut k: usize = 0;
        while k < fill
            invariant
                k <= fill,
                left@ =~= l + zeros(k as nat),
            decreases fill - k,
        {
            left.push(0);
            k += 1;
        }
        left.append(&mut right);
        left
    } else {
        assert(double_colon(chars, 0) == n);
        match list_of_text(t) {
            Some(v) => {
                if v.len() != 8 {
                    return None;
                }
                v
            },
            None => {
                return None;
            },
        }
    };
    assert(parse_groups(chars) == Some(groups@));
    let a: [u8; 16] = [
        (groups[0] / 256) as u8,
        (groups[0] % 256) as u8,
        (groups[1] / 256) as u8,
        (groups[1] % 256) as u8,
        (groups[2] / 256) as u8,
        (groups[2] % 256) as u8,
        (groups[3] / 256) as u8,
        (groups[3] % 256) as u8,
        (groups[4] / 256) as u8,
        (groups[4] % 256) as u8,
        (groups[5] / 256) as u8,
        (groups[5] % 256) as u8,
        (groups[6] / 256) as u8,
        (groups[6] % 256) as u8,
        (groups[7] / 256) as u8,
        (groups[7] % 256) as u8,
    ];
    assert(a@ =~= group_bytes(groups@));
    Some(IpAddress::V6(a))
}

} // verus!
