//! Host and port handling from the server setup: defaulting a bind address
//! to port 80 and resolving the port that the TLS redirect should target.

use vstd::prelude::*;
use crate::bytes::append_bytes;

verus! {

/// The byte of ':'.
pub const COLON: u8 = 58;

/// Whether the address carries an explicit port separator.
pub open spec fn has_colon(s: Seq<u8>) -> bool {
    exists|i: int| 0 <= i < s.len() && s[i] == COLON
}

/// Checks whether the address names a port.
pub fn contains_colon(v: &Vec<u8>) -> (r: bool)
    ensures
        r == has_colon(v@),
{
    let mut i: usize = 0;
    while i < v.len()
        invariant
            0 <= i <= v@.len(),
            forall|j: int| 0 <= j < i ==> v@[j] != COLON,
        decreases v@.len() - i,
    {
        if v[i] == COLON {
            return true;
        }
        i = i + 1;
    }
    false
}

/// The bytes of ":80".
pub open spec fn spec_port_80_suffix() -> Seq<u8> {
    seq![58u8, 56u8, 48u8]
}

/// An address without an explicit port gets ":80" appended; one with a port
/// is kept as it is.
pub open spec fn with_default_port_spec(s: Seq<u8>) -> Seq<u8> {
    if has_colon(s) {
        s
    } else {
        s + spec_port_80_suffix()
    }
}

/// Defaults the bind address to port 80 when none is named.
pub fn with_default_port(host: &Vec<u8>) -> (r: Vec<u8>)
    ensures
        r@ == with_default_port_spec(host@),
{
    let mut out: Vec<u8> = Vec::new();
    append_bytes(&mut out, host);
    assert(out@ =~= host@);
    if !contains_colon(host) {
        out.push(58);
        out.push(56);
        out.push(48);
        assert(out@ =~= host@ + spec_port_80_suffix());
    }
    out
}

/// The index of the first ':' in the address, if any.
pub open spec fn first_colon(s: Seq<u8>) -> Option<int> {
    if has_colon(s) {
        Option::Some(colon_index(s))
    } else {
        Option::None
    }
}

/// The smallest index holding ':'.
pub open spec fn colon_index(s: Seq<u8>) -> int {
    choose|i: int| 0 <= i < s.len() && s[i] == COLON && forall|j: int| 0 <= j < i ==> s[j] != COLON
}

/// All bytes are decimal digits.
pub open spec fn all_digits(s: Seq<u8>) -> bool {
    forall|i: int| 0 <= i < s.len() ==> 48 <= #[trigger] s[i] <= 57
}

/// The number the digit string denotes.
pub open spec fn digits_value(s: Seq<u8>) -> nat
    decreases s.len(),
{
    if s.len() == 0 {
        0
    } else {
        digits_value(s.drop_last()) * 10 + (s.last() - 48) as nat
    }
}

proof fn lemma_digits_value_grows(s: Seq<u8>, i: int)
    requires
        0 <= i <= s.len(),
    ensures
        digits_value(s.take(i)) <= digits_value(s),
    decreases s.len() - i,
{
    if i < s.len() {
        lemma_digits_value_grows(s, i + 1);
        assert(s.take(i + 1).drop_last() =~= s.take(i));
        assert(digits_value(s.take(i + 1)) == digits_value(s.take(i)) * 10 + (s.take(i + 1).last()
            - 48) as nat);
        assert(digits_value(s.take(i)) * 10 >= digits_value(s.take(i))) by (nonlinear_arith);
    } else {
        assert(s.take(i) =~= s);
    }
}

/// Parses a decimal port: the number when the bytes are one to five digits
/// denoting at most 65535, and nothing otherwise.
pub fn parse_port(v: &Vec<u8>) -> (r: Option<u16>)
    ensures
        match r {
            Option::Some(p) => v@.len() > 0 && all_digits(v@) && digits_value(v@) == p as nat,
            Option::None => v@.len() == 0 || !all_digits(v@) || digits_value(v@) > 65535,
        },
{
    if v.len() == 0 {
        return Option::None;
    }
    let mut acc: u32 = 0;
    let mut i: usize = 0;
    while i < v.len()
        invariant
            0 <= i <= v@.len(),
            v@.len() > 0,
            acc <= 65535,
            acc as nat == digits_value(v@.take(i as int)),
            forall|j: int| 0 <= j < i ==> 48 <= #[trigger] v@[j] <= 57,
        decreases v@.len() - i,
    {
        let b = v[i];
        if !(48 <= b && b <= 57) {
            return Option::None;
        }
        let d: u32 = (b - 48) as u32;
        acc = acc * 10 + d;
        proof {
            assert(v@.take(i + 1 as int).drop_last() =~= v@.take(i as int));
        }
        i = i + 1;
        if acc > 65535 {
            proof {
                lemma_digits_value_grows(v@, i as int);
            }
            return Option::None;
        }
    }
    proof {
        assert(v@.take(v@.len() as int) =~= v@);
    }
    Option::Some(acc as u16)
}

/// The port the TLS redirect targets: the digits after the first ':' of the
/// TLS address, and 443 when the address names no port. Nothing comes back
/// when the named port is not a number.
pub fn tls_redirect_port(host: &Vec<u8>) -> (r: Option<u16>)
    ensures
        !has_colon(host@) ==> r == Option::Some(443u16),
        has_colon(host@) ==> match r {
            Option::Some(p) => {
                let suffix = host@.skip(colon_index(host@) + 1);
                suffix.len() > 0 && all_digits(suffix) && digits_value(suffix) == p as nat
            },
            Option::None => {
                let suffix = host@.skip(colon_index(host@) + 1);
                suffix.len() == 0 || !all_digits(suffix) || digits_value(suffix) > 65535
            },
        },
{
    let mut i: usize = 0;
    while i < host.len()
        invariant
            0 <= i <= host@.len(),
            forall|j: int| 0 <= j < i ==> host@[j] != COLON,
        decreases host@.len() - i,
    {
        if host[i] == COLON {
            proof {
                assert(has_colon(host@));
                assert(colon_index(host@) == i as int) by {
                    let ci = colon_index(host@);
                    assert(0 <= ci < host@.len() && host@[ci] == COLON && forall|j: int|
                        0 <= j < ci ==> host@[j] != COLON);
                }
            }
            let suffix = crate::bytes::copy_range(host, i + 1, host.len());
            assert(suffix@ =~= host@.skip(i + 1 as int));
            return parse_port(&suffix);
        }
        i = i + 1;
    }
    Option::Some(443)
}

} // verus!
