//! The match scanner: every offset of a buffer at which a pattern matches.
use vstd::prelude::*;
use crate::error::Error;
use crate::pattern::{Pattern, PatternByte, token_matches, compile_text, error_message};

verus! {

/// Whether the tokens `p` match the bytes of `b` that start at offset `i`.
pub open spec fn matches_at(p: Seq<PatternByte>, b: Seq<u8>, i: int) -> bool {
    &&& 0 <= i
    &&& i + p.len() <= b.len()
    &&& forall|k: int| 0 <= k < p.len() ==> token_matches(#[trigger] p[k], b[i + k])
}

/// The offsets below `n` at which `p` matches `b`, ascending.
pub open spec fn offsets_below(p: Seq<PatternByte>, b: Seq<u8>, n: nat) -> Seq<int>
    decreases n,
{
    if n == 0 {
        seq![]
    } else {
        let prev = offsets_below(p, b, (n - 1) as nat);
        if matches_at(p, b, n - 1) {
            prev.push(n - 1)
        } else {
            prev
        }
    }
}

/// The offsets of `b` at which `p` matches, ascending: each candidate start
/// `0 <= i < b.len()` is tested.
pub open spec fn match_offsets(p: Seq<PatternByte>, b: Seq<u8>) -> Seq<int> {
    offsets_below(p, b, b.len())
}

/// Whether `r` reports the offsets `offs`: `None` when there are none, else
/// all of them in order.
pub open spec fn reports(r: Option<Vec<usize>>, offs: Seq<int>) -> bool {
    match r {
        None => offs.len() == 0,
        Some(v) => offs.len() > 0 && v@.map_values(|x: usize| x as int) == offs,
    }
}

/// What scanning `b` for the pattern compiled from text `s` must give.
pub open spec fn scanned(b: Seq<u8>, s: Seq<char>, r: Result<Option<Vec<usize>>, Error>) -> bool {
    match compile_text(s) {
        Ok(ts) => r is Ok && reports(r->Ok_0, match_offsets(ts, b)),
        Err(bad) => r is Err && r->Err_0@ == error_message(bad),
    }
}

/// Whether `pattern` matches the start of `bytes`.
fn pattern_matches(bytes: &[u8], pattern: &Pattern) -> (r: bool)
    ensures
        r == matches_at(pattern@, bytes@, 0),
{
    let n = pattern.len();
    if bytes.len() < n {
        return false;
    }
    let tokens = pattern.tokens();
    let mut k: usize = 0;
    while k < n
        invariant
            n == pattern@.len(),
            tokens@ == pattern@,
            n <= bytes@.len(),
            k <= n,
            forall|j: int| 0 <= j < k ==> token_matches(#[trigger] pattern@[j], bytes@[0 + j]),
        decreases n - k,
    {
        if !tokens[k].matches(bytes[k]) {
            assert(!token_matches(pattern@[k as int], bytes@[0 + k]));
            return false;
        }
        k = k + 1;
    }
    true
}

/// Scans `bytes` for `pattern`: every offset at which it matches, ascending,
/// or `None` when it matches nowhere.
pub fn scan_pattern(bytes: &[u8], pattern: &Pattern) -> (r: Option<Vec<usize>>)
    ensures
        reports(r, match_offsets(pattern@, bytes@)),
{
    let mut matches: Vec<usize> = Vec::new();
    let mut i: usize = 0;
    while i < bytes.len()
        invariant
            i <= bytes@.len(),
            matches@.map_values(|x: usize| x as int) == offsets_below(pattern@, bytes@, i as nat),
        decreases bytes@.len() - i,
    {
        let rest = &bytes[i..bytes.len()];
        let m = pattern_matches(rest, pattern);
        assert(m == matches_at(pattern@, bytes@, i as int)) by {
            assert(rest@ == bytes@.subrange(i as int, bytes@.len() as int));
        }
        if m {
            assert(matches@.push(i).map_values(|x: usize| x as int) =~= matches@.map_values(
                |x: usize| x as int,
            ).push(i as int));
            matches.push(i);
        }
        i = i + 1;
    }
    if matches.len() == 0 {
        None
    } else {
        Some(matches)
    }
}

/// Compiles `pattern` and scans `bytes` for it: the offsets at which it
/// matches, ascending, `None` when it matches nowhere, or the compile error.
pub fn scan(bytes: &[u8], pattern: &str) -> (r: Result<Option<Vec<usize>>, Error>)
    ensures
        scanned(bytes@, pattern@, r),
{
    let pattern = Pattern::from_str(pattern)?;
    Ok(scan_pattern(bytes, &pattern))
}

} // verus!
