use vstd::prelude::*;

verus! {

/// The ASCII decimal digits of `n`, without leading zeros.
pub open spec fn decimal(n: nat) -> Seq<u8>
    decreases n,
{
    if n < 10 {
        seq![(48 + n) as u8]
    } else {
        decimal(n / 10) + seq![(48 + n % 10) as u8]
    }
}

/// A value as it stands on an output line: its digits, then one space.
pub open spec fn field(n: nat) -> Seq<u8> {
    decimal(n) + seq![32u8]
}

/// Appends the decimal digits of `v`.
pub fn push_decimal(out: &mut Vec<u8>, v: u8)
    ensures
        final(out)@ == old(out)@ + decimal(v as nat),
{
    let ghost n = v as nat;
    if v >= 100 {
        out.push(48 + v / 100);
        out.push(48 + (v / 10) % 10);
        out.push(48 + v % 10);
        assert(decimal(n / 100) == seq![(48 + n / 100) as u8]);
        assert(n / 10 / 10 == n / 100);
        assert(decimal(n / 10) == decimal(n / 100) + seq![(48 + (n / 10) % 10) as u8]);
    } else if v >= 10 {
        out.push(48 + v / 10);
        out.push(48 + v % 10);
        assert(decimal(n / 10) == seq![(48 + n / 10) as u8]);
    } else {
        out.push(48 + v);
    }
    assert(final(out)@ =~= old(out)@ + decimal(n));
}

/// Appends `v` as an output field: its decimal digits and one space.
pub fn push_field(out: &mut Vec<u8>, v: u8)
    ensures
        final(out)@ == old(out)@ + field(v as nat),
{
    push_decimal(out, v);
    out.push(32);
    assert(final(out)@ =~= old(out)@ + field(v as nat));
}

/// How many times the byte `x` occurs in `s`.
pub open spec fn occurrences(s: Seq<u8>, x: u8) -> nat
    decreases s.len(),
{
    if s.len() == 0 {
        0
    } else {
        occurrences(s.drop_last(), x) + if s.last() == x {
            1nat
        } else {
            0nat
        }
    }
}

/// Occurrences in a concatenation add up.
pub proof fn lemma_occurrences_add(a: Seq<u8>, b: Seq<u8>, x: u8)
    ensures
        occurrences(a + b, x) == occurrences(a, x) + occurrences(b, x),
    decreases b.len(),
{
    if b.len() == 0 {
        assert(a + b =~= a);
    } else {
        lemma_occurrences_add(a, b.drop_last(), x);
        assert((a + b).drop_last() =~= a + b.drop_last());
    }
}

/// A byte that no position holds does not occur.
pub proof fn lemma_occurrences_absent(s: Seq<u8>, x: u8)
    requires
        forall|i: int| 0 <= i < s.len() ==> s[i] != x,
    ensures
        occurrences(s, x) == 0,
    decreases s.len(),
{
    if s.len() > 0 {
        lemma_occurrences_absent(s.drop_last(), x);
    }
}

/// Every byte of a decimal rendering is an ASCII digit.
pub proof fn lemma_decimal_digits(n: nat)
    ensures
        forall|i: int| 0 <= i < decimal(n).len() ==> 48 <= #[trigger] decimal(n)[i] <= 57,
    decreases n,
{
    if n >= 10 {
        let d = decimal(n / 10);
        lemma_decimal_digits(n / 10);
        assert(decimal(n) == d + seq![(48 + n % 10) as u8]);
        assert forall|i: int| 0 <= i < decimal(n).len() implies 48 <= #[trigger] decimal(n)[i]
            <= 57 by {
            if i < d.len() {
                assert(decimal(n)[i] == d[i]);
            }
        }
    }
}

/// A one-byte sequence holds `x` once if its byte is `x`, else not at all.
pub proof fn lemma_occurrences_single(y: u8, x: u8)
    ensures
        occurrences(seq![y], x) == if y == x {
            1nat
        } else {
            0nat
        },
{
    assert(seq![y].drop_last() =~= Seq::<u8>::empty());
    assert(occurrences(Seq::<u8>::empty(), x) == 0);
}

/// A field holds one space and no newline.
pub proof fn lemma_field_counts(n: nat)
    ensures
        occurrences(field(n), 32) == 1,
        occurrences(field(n), 10) == 0,
{
    lemma_decimal_digits(n);
    lemma_occurrences_absent(decimal(n), 32);
    lemma_occurrences_absent(decimal(n), 10);
    lemma_occurrences_add(decimal(n), seq![32u8], 32);
    lemma_occurrences_add(decimal(n), seq![32u8], 10);
    lemma_occurrences_single(32, 32);
    lemma_occurrences_single(32, 10);
}

} // verus!
