//! Small verified helpers on byte vectors: comparisons, prefix and suffix
//! tests, concatenation, decimal rendering of integers, and the validity
//! check for HTTP header values.

use vstd::prelude::*;

verus! {

/// True when `b` may stand in an HTTP header value: horizontal tab or any
/// byte from space upward, DEL excluded.
pub open spec fn valid_header_byte(b: u8) -> bool {
    b == 9 || (32 <= b && b != 127)
}

/// True when every byte of `s` may stand in an HTTP header value.
pub open spec fn valid_header_bytes(s: Seq<u8>) -> bool {
    forall|i: int| 0 <= i < s.len() ==> valid_header_byte(s[i])
}

/// Checks that every byte of `v` may stand in an HTTP header value.
pub fn is_valid_header_value(v: &Vec<u8>) -> (r: bool)
    ensures
        r == valid_header_bytes(v@),
{
    let mut i: usize = 0;
    while i < v.len()
        invariant
            0 <= i <= v@.len(),
            forall|j: int| 0 <= j < i ==> valid_header_byte(v@[j]),
        decreases v@.len() - i,
    {
        let b = v[i];
        if !(b == 9 || (32 <= b && b != 127)) {
            return false;
        }
        i = i + 1;
    }
    true
}

/// Byte-for-byte equality of two vectors.
pub fn bytes_eq(a: &Vec<u8>, b: &Vec<u8>) -> (r: bool)
    ensures
        r == (a@ == b@),
{
    if a.len() != b.len() {
        assert(a@.len() != b@.len());
        return false;
    }
    let mut i: usize = 0;
    while i < a.len()
        invariant
            0 <= i <= a@.len(),
            a@.len() == b@.len(),
            forall|j: int| 0 <= j < i ==> a@[j] == b@[j],
        decreases a@.len() - i,
    {
        if a[i] != b[i] {
            return false;
        }
        i = i + 1;
    }
    proof {
        assert(a@ =~= b@);
    }
    true
}

/// True when `p` is a prefix of `s`.
pub open spec fn is_prefix_of(p: Seq<u8>, s: Seq<u8>) -> bool {
    p.len() <= s.len() && s.subrange(0, p.len() as int) == p
}

/// True when `t` is a suffix of `s`.
pub open spec fn is_suffix_of(t: Seq<u8>, s: Seq<u8>) -> bool {
    t.len() <= s.len() && s.subrange(s.len() - t.len(), s.len() as int) == t
}

/// Checks whether `s` ends with `t`.
pub fn ends_with(s: &Vec<u8>, t: &Vec<u8>) -> (r: bool)
    ensures
        r == is_suffix_of(t@, s@),
{
    if t.len() > s.len() {
        return false;
    }
    let off: usize = s.len() - t.len();
    let mut i: usize = 0;
    while i < t.len()
        invariant
            0 <= i <= t@.len(),
            t@.len() <= s@.len(),
            off == s@.len() - t@.len(),
            forall|j: int| 0 <= j < i ==> s@[off + j] == t@[j],
        decreases t@.len() - i,
    {
        assert(off + i < s.len() && s.len() == s@.len());
        if s[off + i] != t[i] {
            assert(s@.subrange(s@.len() - t@.len(), s@.len() as int)[i as int] != t@[i as int]);
            return false;
        }
        i = i + 1;
    }
    proof {
        assert(s@.subrange(s@.len() - t@.len(), s@.len() as int) =~= t@);
    }
    true
}

/// Appends all of `src` to `dst`.
pub fn append_bytes(dst: &mut Vec<u8>, src: &Vec<u8>)
    ensures
        final(dst)@ == old(dst)@ + src@,
{
    let mut i: usize = 0;
    while i < src.len()
        invariant
            0 <= i <= src@.len(),
            dst@ == old(dst)@ + src@.subrange(0, i as int),
        decreases src@.len() - i,
    {
        dst.push(src[i]);
        assert(dst@ =~= old(dst)@ + src@.subrange(0, i + 1 as int));
        i = i + 1;
    }
    proof {
        assert(src@.subrange(0, src@.len() as int) =~= src@);
    }
}

/// Copies the range `[from, to)` of `s` into a fresh vector.
pub fn copy_range(s: &Vec<u8>, from: usize, to: usize) -> (r: Vec<u8>)
    requires
        0 <= from <= to <= s@.len(),
    ensures
        r@ == s@.subrange(from as int, to as int),
{
    let mut out: Vec<u8> = Vec::new();
    let mut i: usize = from;
    while i < to
        invariant
            from <= i <= to <= s@.len(),
            out@ == s@.subrange(from as int, i as int),
        decreases to - i,
    {
        out.push(s[i]);
        assert(out@ =~= s@.subrange(from as int, i + 1 as int));
        i = i + 1;
    }
    out
}

/// The decimal digits of `n`, most significant first.
pub open spec fn dec_spec(n: nat) -> Seq<u8>
    decreases n,
{
    if n < 10 {
        seq![(48 + n) as u8]
    } else {
        dec_spec(n / 10) + seq![(48 + n % 10) as u8]
    }
}

pub proof fn lemma_dec_spec_digits(n: nat)
    ensures
        dec_spec(n).len() >= 1,
        forall|i: int| 0 <= i < dec_spec(n).len() ==> 48 <= #[trigger] dec_spec(n)[i] <= 57,
    decreases n,
{
    if n >= 10 {
        lemma_dec_spec_digits(n / 10);
    }
}

/// Every byte is a decimal digit.
pub open spec fn is_digit_seq(s: Seq<u8>) -> bool {
    forall|i: int| 0 <= i < s.len() ==> 48 <= #[trigger] s[i] <= 57
}

/// A digit run ending at the first non-digit byte parses uniquely: if two
/// digit runs with non-digit continuations concatenate to the same bytes,
/// the runs and the continuations agree.
pub proof fn lemma_digit_run_unique(x1: Seq<u8>, r1: Seq<u8>, x2: Seq<u8>, r2: Seq<u8>)
    requires
        is_digit_seq(x1),
        is_digit_seq(x2),
        r1.len() > 0,
        r2.len() > 0,
        !(48 <= r1[0] <= 57),
        !(48 <= r2[0] <= 57),
        x1 + r1 == x2 + r2,
    ensures
        x1 == x2,
        r1 == r2,
    decreases x1.len(),
{
    if x1.len() == 0 {
        assert((x1 + r1)[0] == r1[0]);
        if x2.len() > 0 {
            assert((x2 + r2)[0] == x2[0]);
            assert(false);
        }
        assert(x1 =~= x2);
        assert(r1 =~= x1 + r1);
        assert(r2 =~= x2 + r2);
    } else {
        if x2.len() == 0 {
            assert((x1 + r1)[0] == x1[0]);
            assert((x2 + r2)[0] == r2[0]);
            assert(false);
        }
        assert(x1.skip(1) + r1 =~= (x1 + r1).skip(1));
        assert(x2.skip(1) + r2 =~= (x2 + r2).skip(1));
        lemma_digit_run_unique(x1.skip(1), r1, x2.skip(1), r2);
        assert((x1 + r1)[0] == x1[0]);
        assert((x2 + r2)[0] == x2[0]);
        assert forall|i: int| 0 <= i < x1.len() implies x1[i] == x2[i] by {
            if i > 0 {
                assert(x1[i] == x1.skip(1)[i - 1]);
                assert(x2[i] == x2.skip(1)[i - 1]);
            }
        }
        assert(x1 =~= x2);
    }
}

/// Decimal rendering is injective: equal digit strings denote equal numbers.
pub proof fn lemma_dec_spec_injective(a: nat, b: nat)
    requires
        dec_spec(a) == dec_spec(b),
    ensures
        a == b,
    decreases a,
{
    lemma_dec_spec_digits(a);
    lemma_dec_spec_digits(b);
    if a < 10 && b < 10 {
        assert(dec_spec(a)[0] == (48 + a) as u8);
        assert(dec_spec(b)[0] == (48 + b) as u8);
    } else if a < 10 {
        assert(dec_spec(a).len() == 1);
        assert(dec_spec(b).len() == dec_spec(b / 10).len() + 1);
        assert(false);
    } else if b < 10 {
        assert(dec_spec(b).len() == 1);
        assert(dec_spec(a).len() == dec_spec(a / 10).len() + 1);
        assert(false);
    } else {
        let pa = dec_spec(a / 10);
        let pb = dec_spec(b / 10);
        assert((pa + seq![(48 + a % 10) as u8]).drop_last() =~= pa);
        assert((pb + seq![(48 + b % 10) as u8]).drop_last() =~= pb);
        assert(pa == pb);
        lemma_dec_spec_injective(a / 10, b / 10);
        assert(dec_spec(a).last() == (48 + a % 10) as u8);
        assert(dec_spec(b).last() == (48 + b % 10) as u8);
        assert(a % 10 == b % 10);
        assert(a == (a / 10) * 10 + a % 10) by (nonlinear_arith);
        assert(b == (b / 10) * 10 + b % 10) by (nonlinear_arith);
    }
}

/// Renders `n` in decimal, most significant digit first.
pub fn dec_u64(n: u64) -> (r: Vec<u8>)
    ensures
        r@ == dec_spec(n as nat),
{
    let mut rev: Vec<u8> = Vec::new();
    let mut m: u64 = n;
    if m == 0 {
        let mut out: Vec<u8> = Vec::new();
        out.push(48);
        assert(out@ =~= dec_spec(0));
        return out;
    }
    while m > 0
        invariant
            m >= 0,
            m > 0 || rev@.len() > 0,
            m > 0 ==> dec_spec(n as nat) == dec_spec(m as nat) + rev@.reverse(),
            m == 0 ==> dec_spec(n as nat) == rev@.reverse(),
        decreases m,
    {
        let ghost prev = rev@;
        let ghost pm = m as nat;
        let d: u8 = (m % 10) as u8;
        rev.push(48 + d);
        m = m / 10;
        proof {
            assert(rev@.reverse() =~= seq![(48 + pm % 10) as u8] + prev.reverse());
            if m > 0 {
                assert(dec_spec(pm) == dec_spec(pm / 10) + seq![(48 + pm % 10) as u8]);
                assert(dec_spec(m as nat) + rev@.reverse() =~= dec_spec(pm) + prev.reverse());
            } else {
                assert(pm < 10);
                assert(dec_spec(pm) =~= seq![(48 + pm % 10) as u8]);
                assert(rev@.reverse() =~= dec_spec(pm) + prev.reverse());
            }
        }
    }
    let mut out: Vec<u8> = Vec::new();
    let mut i: usize = rev.len();
    while i > 0
        invariant
            0 <= i <= rev@.len(),
            out@ == rev@.subrange(i as int, rev@.len() as int).reverse(),
        decreases i,
    {
        i = i - 1;
        out.push(rev[i]);
        assert(out@ =~= rev@.subrange(i as int, rev@.len() as int).reverse());
    }
    proof {
        assert(rev@.subrange(0, rev@.len() as int) =~= rev@);
    }
    out
}

} // verus!
