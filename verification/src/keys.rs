//! Route-table keys: normalization of URL paths, index-file folding, and the
//! derivation of a key for a file enumerated under a directory route.

use vstd::prelude::*;
use crate::bytes::{is_prefix_of, is_suffix_of, ends_with, copy_range, append_bytes};

verus! {

pub const SLASH: u8 = 47;

/// One step of normalization: append `b` unless it would create a double
/// slash.
pub open spec fn norm_step(acc: Seq<u8>, b: u8) -> Seq<u8> {
    if b == SLASH && acc.len() > 0 && acc.last() == SLASH {
        acc
    } else {
        acc.push(b)
    }
}

/// Normalization of the first `i` bytes of `s`, starting from a single slash.
pub open spec fn norm_fold(s: Seq<u8>, i: int) -> Seq<u8>
    decreases i,
{
    if i <= 0 {
        seq![SLASH]
    } else {
        norm_step(norm_fold(s, i - 1), s[i - 1])
    }
}

/// The normalized form of a key: exactly one leading slash and every run of
/// slashes collapsed to one.
pub open spec fn normalize_spec(s: Seq<u8>) -> Seq<u8> {
    norm_fold(s, s.len() as int)
}

/// What it means for a key to be normalized.
pub open spec fn is_normalized_key(s: Seq<u8>) -> bool {
    &&& s.len() >= 1
    &&& s[0] == SLASH
    &&& forall|i: int, j: int|
        #![trigger s[i], s[j]]
        0 <= i && j == i + 1 && j < s.len() ==> !(s[i] == SLASH && s[j] == SLASH)
}

proof fn lemma_norm_fold_shape(s: Seq<u8>, i: int)
    ensures
        is_normalized_key(norm_fold(s, i)),
    decreases i,
{
    if i <= 0 {
        assert(norm_fold(s, i) =~= seq![SLASH]);
    } else {
        lemma_norm_fold_shape(s, i - 1);
        let acc = norm_fold(s, i - 1);
        let b = s[i - 1];
        let res = norm_fold(s, i);
        if b == SLASH && acc.len() > 0 && acc.last() == SLASH {
        } else {
            assert(res == acc.push(b));
            assert forall|k: int, l: int|
                0 <= k && l == k + 1 && l < res.len() implies !(#[trigger] res[k] == SLASH
                && #[trigger] res[l] == SLASH) by {
                if l < acc.len() {
                    assert(res[k] == acc[k] && res[l] == acc[l]);
                } else {
                    assert(res[l] == b);
                    assert(res[k] == acc[acc.len() - 1]);
                    if b == SLASH {
                        assert(acc.last() != SLASH);
                    }
                }
            }
        }
    }
}

/// Every normalization result is a normalized key.
pub proof fn lemma_normalize_normalized(s: Seq<u8>)
    ensures
        is_normalized_key(normalize_spec(s)),
{
    lemma_norm_fold_shape(s, s.len() as int);
}

proof fn lemma_norm_fold_identity(s: Seq<u8>, i: int)
    requires
        is_normalized_key(s),
        1 <= i <= s.len(),
    ensures
        norm_fold(s, i) == s.take(i),
    decreases i,
{
    if i == 1 {
        assert(norm_fold(s, 0) == seq![SLASH]);
        assert(norm_fold(s, 1) == norm_step(seq![SLASH], s[0]));
        assert(norm_fold(s, 1) =~= s.take(1));
    } else {
        lemma_norm_fold_identity(s, i - 1);
        if s[i - 1] == SLASH {
            assert(!(s[i - 2] == SLASH && s[i - 1] == SLASH));
            assert(s.take(i - 1).last() == s[i - 2]);
        }
        assert(norm_step(s.take(i - 1), s[i - 1]) =~= s.take(i));
    }
}

/// Normalizing an already-normalized key changes nothing; in particular
/// normalization is idempotent.
pub proof fn lemma_normalize_identity(s: Seq<u8>)
    requires
        is_normalized_key(s),
    ensures
        normalize_spec(s) == s,
{
    lemma_norm_fold_identity(s, s.len() as int);
    assert(s.take(s.len() as int) =~= s);
}

/// Key normalization is idempotent: stripping and re-adding slashes a second
/// time leaves a route key unchanged.
pub proof fn lemma_normalize_idempotent(s: Seq<u8>)
    ensures
        normalize_spec(normalize_spec(s)) == normalize_spec(s),
{
    lemma_normalize_normalized(s);
    lemma_normalize_identity(normalize_spec(s));
}

/// Normalizes a route key: exactly one leading slash, no duplicate slashes.
pub fn normalize_key(v: &Vec<u8>) -> (r: Vec<u8>)
    ensures
        r@ == normalize_spec(v@),
        is_normalized_key(r@),
{
    let mut out: Vec<u8> = Vec::new();
    out.push(SLASH);
    assert(out@ =~= norm_fold(v@, 0));
    let mut i: usize = 0;
    while i < v.len()
        invariant
            0 <= i <= v@.len(),
            out@ == norm_fold(v@, i as int),
            out@.len() >= 1,
        decreases v@.len() - i,
    {
        let b = v[i];
        if !(b == SLASH && out[out.len() - 1] == SLASH) {
            out.push(b);
        }
        i = i + 1;
    }
    proof {
        lemma_normalize_normalized(v@);
    }
    out
}

/// The bytes of "/index.html".
pub open spec fn spec_index_html() -> Seq<u8> {
    seq![47u8, 105u8, 110u8, 100u8, 101u8, 120u8, 46u8, 104u8, 116u8, 109u8, 108u8]
}

/// The bytes of "/index.htm".
pub open spec fn spec_index_htm() -> Seq<u8> {
    seq![47u8, 105u8, 110u8, 100u8, 101u8, 120u8, 46u8, 104u8, 116u8, 109u8]
}

/// The bytes of "/index".
pub open spec fn spec_index() -> Seq<u8> {
    seq![47u8, 105u8, 110u8, 100u8, 101u8, 120u8]
}

fn suffix_index_html() -> (r: Vec<u8>)
    ensures
        r@ == spec_index_html(),
{
    let mut t: Vec<u8> = Vec::new();
    t.push(47);
    t.push(105);
    t.push(110);
    t.push(100);
    t.push(101);
    t.push(120);
    t.push(46);
    t.push(104);
    t.push(116);
    t.push(109);
    t.push(108);
    assert(t@ =~= spec_index_html());
    t
}

fn suffix_index_htm() -> (r: Vec<u8>)
    ensures
        r@ == spec_index_htm(),
{
    let mut t: Vec<u8> = Vec::new();
    t.push(47);
    t.push(105);
    t.push(110);
    t.push(100);
    t.push(101);
    t.push(120);
    t.push(46);
    t.push(104);
    t.push(116);
    t.push(109);
    assert(t@ =~= spec_index_htm());
    t
}

fn suffix_index() -> (r: Vec<u8>)
    ensures
        r@ == spec_index(),
{
    let mut t: Vec<u8> = Vec::new();
    t.push(47);
    t.push(105);
    t.push(110);
    t.push(100);
    t.push(101);
    t.push(120);
    assert(t@ =~= spec_index());
    t
}

/// Index folding: a key ending in "/index.html", "/index.htm" or "/index"
/// becomes the key with that suffix removed.
pub open spec fn fold_index_spec(s: Seq<u8>) -> Seq<u8> {
    if is_suffix_of(spec_index_html(), s) {
        s.take(s.len() - 11)
    } else if is_suffix_of(spec_index_htm(), s) {
        s.take(s.len() - 10)
    } else if is_suffix_of(spec_index(), s) {
        s.take(s.len() - 6)
    } else {
        s
    }
}

/// Rewrites a key ending in an index-file suffix to the enclosing directory's
/// own key.
pub fn fold_index(key: &Vec<u8>) -> (r: Vec<u8>)
    ensures
        r@ == fold_index_spec(key@),
{
    let html = suffix_index_html();
    let htm = suffix_index_htm();
    let idx = suffix_index();
    if ends_with(key, &html) {
        copy_range(key, 0, key.len() - 11)
    } else if ends_with(key, &htm) {
        copy_range(key, 0, key.len() - 10)
    } else if ends_with(key, &idx) {
        copy_range(key, 0, key.len() - 6)
    } else {
        let r = copy_range(key, 0, key.len());
        assert(r@ =~= key@);
        r
    }
}

/// A route prefix joined to a path relative to the route's directory.
pub open spec fn join_spec(route: Seq<u8>, rel: Seq<u8>) -> Seq<u8> {
    route + seq![SLASH] + rel
}

/// Joins a route prefix and a relative path with a single slash between them.
pub fn join_route(route: &Vec<u8>, rel: &Vec<u8>) -> (r: Vec<u8>)
    ensures
        r@ == join_spec(route@, rel@),
{
    let mut out: Vec<u8> = Vec::new();
    append_bytes(&mut out, route);
    out.push(SLASH);
    append_bytes(&mut out, rel);
    assert(out@ =~= join_spec(route@, rel@));
    out
}

/// The table key of a file enumerated under a directory route: the directory
/// prefix is stripped from the file path, the remainder is joined to the
/// route prefix and normalized, index suffixes are folded, and the result is
/// normalized once more (folding a root index leaves the empty key, which
/// normalizes to "/").
pub open spec fn derive_key_spec(route: Seq<u8>, dir: Seq<u8>, full: Seq<u8>) -> Seq<u8> {
    normalize_spec(
        fold_index_spec(normalize_spec(join_spec(route, full.skip(dir.len() as int)))),
    )
}

/// Derives the table key for the file at `full`, enumerated under the
/// directory `dir` that is routed at `route`.
pub fn derive_dir_key(route: &Vec<u8>, dir: &Vec<u8>, full: &Vec<u8>) -> (r: Vec<u8>)
    requires
        is_prefix_of(dir@, full@),
    ensures
        r@ == derive_key_spec(route@, dir@, full@),
{
    let rel = copy_range(full, dir.len(), full.len());
    assert(rel@ =~= full@.skip(dir@.len() as int));
    let joined = join_route(route, &rel);
    let cleaned = normalize_key(&joined);
    let folded = fold_index(&cleaned);
    normalize_key(&folded)
}

/// Stripping a directory prefix from a file path and re-adding it yields the
/// original path: every enumerated file round-trips through its relative
/// path.
pub proof fn lemma_strip_then_readd(dir: Seq<u8>, full: Seq<u8>)
    requires
        is_prefix_of(dir, full),
    ensures
        dir + full.skip(dir.len() as int) == full,
{
    assert(dir + full.skip(dir.len() as int) =~= full);
}

} // verus!
