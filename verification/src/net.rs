//! Internet addresses as text.

use vstd::prelude::*;
use crate::model::IpAddress;
use crate::model::IpView;
use crate::text::decimal_text;
use crate::text::hex_text;
use crate::text::push_decimal;
use crate::text::push_hex;

verus! {

/// The four bytes in decimal with dots between them.
pub open spec fn ipv4_text(a: Seq<u8>) -> Seq<char> {
    decimal_text(a[0] as nat) + seq!['.'] + decimal_text(a[1] as nat) + seq!['.'] + decimal_text(
        a[2] as nat,
    ) + seq!['.'] + decimal_text(a[3] as nat)
}

/// The sixteen-bit group of the given number among the bytes of an address.
pub open spec fn group_of(a: Seq<u8>, i: int) -> u16 {
    (a[2 * i] * 256 + a[2 * i + 1]) as u16
}

/// The eight groups of a sixteen-byte address.
pub open spec fn groups_of(a: Seq<u8>) -> Seq<u16> {
    Seq::new(8, |i: int| group_of(a, i))
}

/// How many groups in a row are zero from position `i` on.
pub open spec fn zero_run(g: Seq<u16>, i: int) -> nat
    decreases g.len() - i,
{
    if 0 <= i < g.len() && g[i] == 0 {
        1 + zero_run(g, i + 1)
    } else {
        0
    }
}

/// The start and the length of the longest run of zero groups that starts at `i` or later,
/// the leftmost of the longest; the length is zero where no group is zero.
pub open spec fn best_run(g: Seq<u16>, i: int) -> (int, nat)
    decreases g.len() - i,
{
    if 0 <= i < g.len() {
        let rest = best_run(g, i + 1);
        if zero_run(g, i) > 0 && zero_run(g, i) >= rest.1 {
            (i, zero_run(g, i))
        } else {
            rest
        }
    } else {
        (i, 0)
    }
}

/// The groups in hexadecimal with colons between them.
pub open spec fn join_groups(g: Seq<u16>) -> Seq<char>
    decreases g.len(),
{
    if g.len() == 0 {
        Seq::empty()
    } else if g.len() == 1 {
        hex_text(g[0] as nat)
    } else {
        join_groups(g.drop_last()) + seq![':'] + hex_text(g.last() as nat)
    }
}

/// The text of eight groups: lower-case hexadecimal without leading zeros, the longest run
/// of two or more zero groups, the leftmost of them, written as a double colon.
pub open spec fn groups_text(g: Seq<u16>) -> Seq<char> {
    let run = best_run(g, 0);
    if run.1 >= 2 {
        join_groups(g.take(run.0)) + seq![':', ':'] + join_groups(g.skip(run.0 + run.1))
    } else {
        join_groups(g)
    }
}

/// The text of a sixteen-byte address.
pub open spec fn ipv6_text(a: Seq<u8>) -> Seq<char> {
    groups_text(groups_of(a))
}

/// The text of an address of either family.
pub open spec fn ip_text(ip: IpView) -> Seq<char> {
    match ip {
        IpView::V4(a) => ipv4_text(a),
        IpView::V6(a) => ipv6_text(a),
    }
}

pub proof fn lemma_run_bounds(g: Seq<u16>, i: int)
    requires
        0 <= i <= g.len(),
    ensures
        zero_run(g, i) <= g.len() - i,
        i <= best_run(g, i).0,
        best_run(g, i).0 + best_run(g, i).1 <= g.len(),
        best_run(g, i).1 == 0 ==> best_run(g, i).0 == g.len(),
        best_run(g, i).1 > 0 ==> best_run(g, i).1 == zero_run(g, best_run(g, i).0),
    decreases g.len() - i,
{
    if i < g.len() {
        lemma_run_bounds(g, i + 1);
    }
}

fn push_groups(out: &mut String, g: &Vec<u16>, from: usize, to: usize)
    requires
        from <= to <= g@.len(),
    ensures
        final(out)@ == old(out)@ + join_groups(g@.subrange(from as int, to as int)),
{
    let mut i: usize = from;
    while i < to
        invariant
            from <= i <= to <= g@.len(),
            out@ == old(out)@ + join_groups(g@.subrange(from as int, i as int)),
        decreases to - i,
    {
        let ghost done = g@.subrange(from as int, i as int);
        let ghost next = g@.subrange(from as int, i + 1);
        if i > from {
            out.push(':');
        }
        push_hex(out, g[i] as u64);
        proof {
            assert(next.drop_last() =~= done);
            assert(next.last() == g@[i as int]);
            if i > from {
                assert(out@ =~= old(out)@ + (join_groups(done) + seq![':'] + hex_text(
                    g@[i as int] as nat,
                )));
            } else {
                assert(out@ =~= old(out)@ + hex_text(g@[i as int] as nat));
            }
        }
        i += 1;
    }
}

impl IpAddress {
    /// The address as text: dotted decimal for four bytes, compressed hexadecimal groups for
    /// sixteen.
    pub fn to_text(&self) -> (r: String)
        ensures
            r@ == ip_text(self@),
    {
        match self {
            IpAddress::V4(a) => {
                let mut out = String::new();
                push_decimal(&mut out, a[0] as u64);
                out.push('.');
                push_decimal(&mut out, a[1] as u64);
                out.push('.');
                push_decimal(&mut out, a[2] as u64);
                out.push('.');
                push_decimal(&mut out, a[3] as u64);
                assert(out@ =~= ipv4_text(a@));
                out
            },
            IpAddress::V6(a) => {
                let mut groups: Vec<u16> = Vec::new();
                let mut i: usize = 0;
                while i < 8
                    invariant
                        i <= 8,
                        groups@ =~= groups_of(a@).take(i as int),
                    decreases 8 - i,
                {
                    let hi: u16 = a[2 * i] as u16;
                    let lo: u16 = a[2 * i + 1] as u16;
                    groups.push(hi * 256 + lo);
                    i += 1;
                }
                assert(groups@ =~= groups_of(a@));
                let mut start: usize = 8;
                let mut len: usize = 0;
                let mut run: usize = 0;
                let mut i: usize = 8;
                while i > 0
                    invariant
                        i <= 8,
                        groups@.len() == 8,
                        run == zero_run(groups@, i as int),
                        (start as int, len as nat) == best_run(groups@, i as int),
                        run <= 8 - i,
                        start + len <= 8,
                    decreases i,
                {
                    i -= 1;
                    if groups[i] == 0 {
                        run += 1;
                    } else {
                        run = 0;
                    }
                    if run > 0 && run >= len {
                        start = i;
                        len = run;
                    }
                }
                let mut out = String::new();
                if len >= 2 {
                    push_groups(&mut out, &groups, 0, start);
                    out.push(':');
                    out.push(':');
                    push_groups(&mut out, &groups, start + len, 8);
                    assert(out@ =~= join_groups(groups@.take(start as int)) + seq![':', ':']
                        + join_groups(groups@.skip(start + len)));
                } else {
                    push_groups(&mut out, &groups, 0, 8);
                    assert(groups@.subrange(0, 8) =~= groups@);
                }
                out
            },
        }
    }
}

} // verus!
