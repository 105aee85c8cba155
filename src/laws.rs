//! Laws of compiling and scanning, stated over the models that the
//! functions' contracts use.
use vstd::prelude::*;
use crate::error::Error;
use crate::pattern::{Pattern, PatternByte, compiled_from, compile_text};
use crate::scan::{matches_at, offsets_below, match_offsets, reports, scanned};

verus! {

/// The offsets below `n` are exactly the matching offsets below `n`, each
/// once, in strictly ascending order.
proof fn lemma_offsets_below(p: Seq<PatternByte>, b: Seq<u8>, n: nat)
    ensures
        forall|j: int|
            0 <= j < offsets_below(p, b, n).len() ==> {
                let i = #[trigger] offsets_below(p, b, n)[j];
                0 <= i < n && matches_at(p, b, i)
            },
        forall|j1: int, j2: int|
            0 <= j1 < j2 < offsets_below(p, b, n).len() ==> #[trigger] offsets_below(p, b, n)[j1]
                < #[trigger] offsets_below(p, b, n)[j2],
        forall|i: int| 0 <= i < n && matches_at(p, b, i) ==> offsets_below(p, b, n).contains(i),
    decreases n,
{
    if n > 0 {
        let m = (n - 1) as nat;
        lemma_offsets_below(p, b, m);
        let prev = offsets_below(p, b, m);
        if matches_at(p, b, m as int) {
            let cur = prev.push(m as int);
            assert(cur[prev.len() as int] == m);
            assert forall|i: int| 0 <= i < n && matches_at(p, b, i) implies cur.contains(i) by {
                if i < m {
                    let j = choose|j: int| 0 <= j < prev.len() && prev[j] == i;
                    assert(cur[j] == i);
                } else {
                    assert(cur[prev.len() as int] == i);
                }
            }
        }
    }
}

/// Every reported offset is a start at which the whole pattern fits in the
/// buffer: `i + p.len() <= b.len()`.
pub proof fn lemma_offsets_in_bounds(p: Seq<PatternByte>, b: Seq<u8>)
    ensures
        forall|j: int|
            0 <= j < match_offsets(p, b).len() ==> 0 <= #[trigger] match_offsets(p, b)[j] && match_offsets(p, b)[j]
                + p.len() <= b.len(),
{
    lemma_offsets_below(p, b, b.len());
}

/// An offset is reported exactly when it is a candidate start of the buffer
/// at which the pattern matches.
pub proof fn lemma_offsets_exact(p: Seq<PatternByte>, b: Seq<u8>, i: int)
    ensures
        match_offsets(p, b).contains(i) <==> (0 <= i < b.len() && matches_at(p, b, i)),
{
    lemma_offsets_below(p, b, b.len());
}

/// Reported offsets are strictly ascending.
pub proof fn lemma_offsets_ascending(p: Seq<PatternByte>, b: Seq<u8>)
    ensures
        forall|j1: int, j2: int|
            0 <= j1 < j2 < match_offsets(p, b).len() ==> #[trigger] match_offsets(p, b)[j1]
                < #[trigger] match_offsets(p, b)[j2],
{
    lemma_offsets_below(p, b, b.len());
}

/// Compiling the same text twice gives equal token sequences, or equal errors.
pub proof fn lemma_compile_deterministic(s: Seq<char>, r1: Result<Pattern, Error>, r2: Result<Pattern, Error>)
    requires
        compiled_from(s, r1),
        compiled_from(s, r2),
    ensures
        r1 is Ok <==> r2 is Ok,
        r1 is Ok ==> r1->Ok_0@ == r2->Ok_0@,
        r1 is Err ==> r1->Err_0@ == r2->Err_0@,
{
}

/// Two outcomes that report the same offsets are equal.
proof fn lemma_reports_unique(r1: Option<Vec<usize>>, r2: Option<Vec<usize>>, offs: Seq<int>)
    requires
        reports(r1, offs),
        reports(r2, offs),
    ensures
        r1 is None <==> r2 is None,
        r1 is Some ==> r1->0@ == r2->0@,
{
    if r1 is Some {
        let v1 = r1->0@;
        let v2 = r2->0@;
        assert(v1.map_values(|x: usize| x as int).len() == v2.map_values(|x: usize| x as int).len());
        assert forall|k: int| 0 <= k < v1.len() implies v1[k] == v2[k] by {
            assert(v1.map_values(|x: usize| x as int)[k] == v2.map_values(|x: usize| x as int)[k]);
        }
        assert(v1 =~= v2);
    }
}

/// Scanning the same buffer twice for the same compiled pattern gives the
/// same result.
pub proof fn lemma_scan_pattern_deterministic(
    p: Seq<PatternByte>,
    b: Seq<u8>,
    r1: Option<Vec<usize>>,
    r2: Option<Vec<usize>>,
)
    requires
        reports(r1, match_offsets(p, b)),
        reports(r2, match_offsets(p, b)),
    ensures
        r1 is None <==> r2 is None,
        r1 is Some ==> r1->0@ == r2->0@,
{
    lemma_reports_unique(r1, r2, match_offsets(p, b));
}

/// Scanning the same buffer twice for the same pattern text gives the same
/// offsets, or the same error.
pub proof fn lemma_scan_deterministic(
    b: Seq<u8>,
    s: Seq<char>,
    r1: Result<Option<Vec<usize>>, Error>,
    r2: Result<Option<Vec<usize>>, Error>,
)
    requires
        scanned(b, s, r1),
        scanned(b, s, r2),
    ensures
        r1 is Ok <==> r2 is Ok,
        r1 is Ok ==> (r1->Ok_0 is None <==> r2->Ok_0 is None),
        r1 is Ok && r1->Ok_0 is Some ==> r1->Ok_0->0@ == r2->Ok_0->0@,
        r1 is Err ==> r1->Err_0@ == r2->Err_0@,
{
    match compile_text(s) {
        Ok(ts) => lemma_reports_unique(r1->Ok_0, r2->Ok_0, match_offsets(ts, b)),
        Err(_) => {},
    }
}

/// The pattern of `n` wildcards.
pub open spec fn wildcards(n: nat) -> Seq<PatternByte> {
    Seq::new(n, |k: int| PatternByte::Any)
}

/// The ascending sequence `0, 1, ..., n - 1`.
pub open spec fn first_offsets(n: nat) -> Seq<int> {
    Seq::new(n, |i: int| i)
}

proof fn lemma_wildcard_offsets_below(n: nat, b: Seq<u8>, m: nat)
    requires
        1 <= n <= b.len(),
        m <= b.len(),
    ensures
        offsets_below(wildcards(n), b, m) == first_offsets(
            if m <= b.len() - n + 1 {
                m
            } else {
                (b.len() - n + 1) as nat
            },
        ),
    decreases m,
{
    if m > 0 {
        lemma_wildcard_offsets_below(n, b, (m - 1) as nat);
        let last = m - 1;
        if last + n <= b.len() {
            assert(matches_at(wildcards(n), b, last));
            assert(first_offsets((m - 1) as nat).push(last) =~= first_offsets(m));
        } else {
            assert(!matches_at(wildcards(n), b, last));
        }
    } else {
        assert(first_offsets(0) =~= seq![]);
    }
}

/// A pattern of `n` wildcards, `1 <= n <= b.len()`, matches at every offset
/// from `0` to `b.len() - n`.
pub proof fn lemma_wildcards_match_everywhere(n: nat, b: Seq<u8>)
    requires
        1 <= n <= b.len(),
    ensures
        match_offsets(wildcards(n), b) == first_offsets((b.len() - n + 1) as nat),
{
    lemma_wildcard_offsets_below(n, b, b.len());
}

/// A pattern longer than the buffer matches nowhere.
pub proof fn lemma_longer_pattern_no_matches(p: Seq<PatternByte>, b: Seq<u8>)
    requires
        p.len() > b.len(),
    ensures
        match_offsets(p, b).len() == 0,
{
    lemma_offsets_below(p, b, b.len());
    if match_offsets(p, b).len() > 0 {
        assert(matches_at(p, b, match_offsets(p, b)[0]));
    }
}

/// The empty buffer has no matches, whatever the pattern.
pub proof fn lemma_empty_buffer_no_matches(p: Seq<PatternByte>)
    ensures
        match_offsets(p, seq![]).len() == 0,
{
}

} // verus!
