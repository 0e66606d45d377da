//! Scoring metadata candidates against the recognized identity, and ranking
//! them best first.

use vstd::prelude::*;
use crate::model::{MetadataCandidate, TrackIdentity};
use crate::text::{ascii_lower_char, ascii_lowercase, ascii_lowercase_chars, chars_of};
use crate::unicode::{keep_alphanumeric, keep_alphanumeric_chars, unicode_alphanumeric};

verus! {

/// The form in which scored titles, artists and albums are compared: ASCII
/// letters folded to lower case, and only alphanumeric characters kept.
pub open spec fn score_key(value: Seq<char>) -> Seq<char> {
    keep_alphanumeric(ascii_lowercase(value))
}

/// Comparison forms are built one character at a time: a character whose
/// ASCII-lowercase form is alphanumeric adds that form, any other character
/// adds nothing; so ASCII case never matters.
pub proof fn lemma_score_key_steps(s: Seq<char>, c: char)
    ensures
        unicode_alphanumeric(ascii_lower_char(c)) ==> score_key(s.push(c)) == score_key(s).push(
            ascii_lower_char(c),
        ),
        !unicode_alphanumeric(ascii_lower_char(c)) ==> score_key(s.push(c)) == score_key(s),
        score_key(ascii_lowercase(s)) == score_key(s),
{
    assert(ascii_lowercase(s.push(c)) =~= ascii_lowercase(s).push(ascii_lower_char(c)));
    assert(ascii_lowercase(s.push(c)).drop_last() =~= ascii_lowercase(s));
    assert forall|i: int| 0 <= i < s.len() implies #[trigger] ascii_lower_char(ascii_lower_char(s[i]))
        == ascii_lower_char(s[i]) by {
        let d = s[i];
        if 'A' <= d <= 'Z' {
            assert(65 <= d as u32 <= 90);
            assert(97 <= ascii_lower_char(d) as u32 <= 122);
        }
    }
    assert(ascii_lowercase(ascii_lowercase(s)) =~= ascii_lowercase(s));
}

/// Reduces a title, artist or album to its comparison form.
pub fn normalize(value: &str) -> (r: Vec<char>)
    ensures
        r@ == score_key(value@),
{
    let c = chars_of(value);
    let low = ascii_lowercase_chars(&c);
    keep_alphanumeric_chars(&low)
}

/// Whether two texts agree in comparison form.
pub fn eq_norm(a: &str, b: &str) -> (r: bool)
    ensures
        r == (score_key(a@) == score_key(b@)),
{
    let na = normalize(a);
    let nb = normalize(b);
    crate::text::chars_eq(&na, &nb)
}

/// The points a candidate earns: 35 for the title, 35 for the artist, 20
/// when both albums are known and agree, and 10 when both durations are
/// known and differ by at most the tolerance. A clean title, artist and
/// album match thus scores 90, and 100 with a matching duration.
pub open spec fn score_points(
    identity: TrackIdentity,
    candidate: MetadataCandidate,
    tolerance_seconds: u16,
) -> nat {
    (if score_key(identity.title@) == score_key(candidate.title@) {
        35nat
    } else {
        0nat
    }) + (if score_key(identity.artist@) == score_key(candidate.artist@) {
        35nat
    } else {
        0nat
    }) + (match (identity.duration_ms, candidate.duration_ms) {
        (Some(a), Some(b)) => if (if a >= b {
            a - b
        } else {
            b - a
        }) <= tolerance_seconds * 1000 {
            10nat
        } else {
            0nat
        },
        _ => 0nat,
    }) + (match (identity.album, candidate.album) {
        (Some(a), Some(b)) => if score_key(a@) == score_key(b@) {
            20nat
        } else {
            0nat
        },
        _ => 0nat,
    })
}

/// Duration points depend only on how far apart the two durations are:
/// swapping the recognized and the candidate duration changes nothing; two
/// durations further apart than the tolerance earn what no duration earns;
/// two within it earn 10 points more. A clean title, artist and album
/// match scores at least 90.
pub proof fn lemma_duration_points_use_distance(
    identity: TrackIdentity,
    candidate: MetadataCandidate,
    tolerance_seconds: u16,
)
    ensures
        score_points(identity, candidate, tolerance_seconds) == score_points(
            TrackIdentity { duration_ms: candidate.duration_ms, ..identity },
            MetadataCandidate { duration_ms: identity.duration_ms, ..candidate },
            tolerance_seconds,
        ),
        identity.duration_ms is Some && candidate.duration_ms is Some && (
        identity.duration_ms->0 - candidate.duration_ms->0 > tolerance_seconds * 1000
            || candidate.duration_ms->0 - identity.duration_ms->0 > tolerance_seconds * 1000)
            ==> score_points(identity, candidate, tolerance_seconds) == score_points(
            identity,
            MetadataCandidate { duration_ms: None, ..candidate },
            tolerance_seconds,
        ),
        identity.duration_ms is Some && candidate.duration_ms is Some && identity.duration_ms->0
            - candidate.duration_ms->0 <= tolerance_seconds * 1000 && candidate.duration_ms->0
            - identity.duration_ms->0 <= tolerance_seconds * 1000 ==> score_points(
            identity,
            candidate,
            tolerance_seconds,
        ) == score_points(
            identity,
            MetadataCandidate { duration_ms: None, ..candidate },
            tolerance_seconds,
        ) + 10,
        score_key(identity.title@) == score_key(candidate.title@) && score_key(identity.artist@)
            == score_key(candidate.artist@) && identity.album is Some && candidate.album is Some
            && score_key(identity.album->0@) == score_key(candidate.album->0@) ==> score_points(
            identity,
            candidate,
            tolerance_seconds,
        ) >= 90,
{
}

/// What each agreement is worth: giving the candidate the recognized
/// title adds 35 points unless the titles already agreed, likewise 35 for
/// the artist, and 20 for the album when the identity has one.
pub proof fn lemma_score_weights(identity: TrackIdentity, candidate: MetadataCandidate, tolerance_seconds: u16)
    ensures
        score_points(identity, MetadataCandidate { title: identity.title, ..candidate }, tolerance_seconds)
            == score_points(identity, candidate, tolerance_seconds) + (if score_key(identity.title@)
            == score_key(candidate.title@) {
            0int
        } else {
            35int
        }),
        score_points(identity, MetadataCandidate { artist: identity.artist, ..candidate }, tolerance_seconds)
            == score_points(identity, candidate, tolerance_seconds) + (if score_key(identity.artist@)
            == score_key(candidate.artist@) {
            0int
        } else {
            35int
        }),
        identity.album is Some ==> score_points(
            identity,
            MetadataCandidate { album: identity.album, ..candidate },
            tolerance_seconds,
        ) == score_points(identity, candidate, tolerance_seconds) + (if candidate.album is Some
            && score_key(identity.album->0@) == score_key(candidate.album->0@) {
            0int
        } else {
            20int
        }),
{
}

/// Scores a candidate against the recognized identity.
pub fn score_candidate(
    identity: &TrackIdentity,
    candidate: &MetadataCandidate,
    duration_tolerance_seconds: u16,
) -> (r: u32)
    ensures
        r as nat == score_points(*identity, *candidate, duration_tolerance_seconds),
        r <= 100,
{
    let mut score: u32 = 0;
    if eq_norm(identity.title.as_str(), candidate.title.as_str()) {
        score = score + 35;
    }
    if eq_norm(identity.artist.as_str(), candidate.artist.as_str()) {
        score = score + 35;
    }
    match (identity.duration_ms, candidate.duration_ms) {
        (Some(a), Some(b)) => {
            let delta = if a >= b {
                a - b
            } else {
                b - a
            };
            if delta <= (duration_tolerance_seconds as u64) * 1000 {
                score = score + 10;
            }
        },
        _ => {},
    }
    match (&identity.album, &candidate.album) {
        (Some(a), Some(b)) => {
            if eq_norm(a.as_str(), b.as_str()) {
                score = score + 20;
            }
        },
        _ => {},
    }
    score
}

/// `ranked` with `c` placed after every candidate scoring at least as much.
pub open spec fn insert_ranked(ranked: Seq<MetadataCandidate>, c: MetadataCandidate) -> Seq<
    MetadataCandidate,
>
    decreases ranked.len(),
{
    if ranked.len() == 0 {
        seq![c]
    } else if ranked.last().confidence >= c.confidence {
        ranked.push(c)
    } else {
        insert_ranked(ranked.drop_last(), c).push(ranked.last())
    }
}

/// The candidates ordered by confidence, highest first; candidates with
/// equal confidence keep their order (a stable sort).
pub open spec fn ranked(candidates: Seq<MetadataCandidate>) -> Seq<MetadataCandidate>
    decreases candidates.len(),
{
    if candidates.len() == 0 {
        Seq::<MetadataCandidate>::empty()
    } else {
        insert_ranked(ranked(candidates.drop_last()), candidates.last())
    }
}

/// Every earlier candidate has at least the confidence of every later one.
pub open spec fn ranked_best_first(s: Seq<MetadataCandidate>) -> bool {
    forall|i: int, j: int|
        0 <= i < j < s.len() ==> (#[trigger] s[i]).confidence >= (#[trigger] s[j]).confidence
}

proof fn lemma_insert_ranked(s: Seq<MetadataCandidate>, c: MetadataCandidate)
    requires
        ranked_best_first(s),
    ensures
        ranked_best_first(insert_ranked(s, c)),
        insert_ranked(s, c).to_multiset() == s.to_multiset().insert(c),
        insert_ranked(s, c).len() == s.len() + 1,
        forall|k: int|
            0 <= k < insert_ranked(s, c).len() ==> (#[trigger] insert_ranked(s, c)[k] == c
                || s.contains(insert_ranked(s, c)[k])),
    decreases s.len(),
{
    broadcast use vstd::seq_lib::group_to_multiset_ensures;

    let t = insert_ranked(s, c);
    if s.len() == 0 {
        assert(t =~= seq![c]);
        assert(s.push(c) =~= t);
    } else if s.last().confidence >= c.confidence {
    } else {
        let p = s.drop_last();
        assert(ranked_best_first(p));
        lemma_insert_ranked(p, c);
        let u = insert_ranked(p, c);
        assert(p.push(s.last()) =~= s);
        assert forall|i: int, j: int| 0 <= i < j < t.len() implies (#[trigger] t[i]).confidence
            >= (#[trigger] t[j]).confidence by {
            if j == t.len() - 1 {
                if u[i] == c {
                } else {
                    assert(p.contains(u[i]));
                    let k = choose|k: int| 0 <= k < p.len() && p[k] == u[i];
                    assert(s[k] == p[k]);
                    assert(s[k].confidence >= s[s.len() - 1].confidence);
                }
            } else {
                assert(u[i].confidence >= u[j].confidence);
            }
        }
        assert forall|k: int| 0 <= k < t.len() implies (#[trigger] t[k] == c || s.contains(
            t[k],
        )) by {
            if k == t.len() - 1 {
                assert(s[s.len() - 1] == t[k]);
            } else if u[k] != c {
                assert(p.contains(u[k]));
                let m = choose|m: int| 0 <= m < p.len() && p[m] == u[k];
                assert(s[m] == t[k]);
            }
        }
        assert(u.push(s.last()).to_multiset() =~= u.to_multiset().insert(s.last()));
        assert(s.to_multiset() =~= p.to_multiset().insert(s.last()));
    }
}

/// Ranking orders the candidates best first and keeps exactly the same
/// candidates.
pub proof fn lemma_ranked_is_sorted_permutation(candidates: Seq<MetadataCandidate>)
    ensures
        ranked_best_first(ranked(candidates)),
        ranked(candidates).to_multiset() == candidates.to_multiset(),
        ranked(candidates).len() == candidates.len(),
    decreases candidates.len(),
{
    broadcast use vstd::seq_lib::group_to_multiset_ensures;

    if candidates.len() > 0 {
        lemma_ranked_is_sorted_permutation(candidates.drop_last());
        lemma_insert_ranked(ranked(candidates.drop_last()), candidates.last());
        assert(candidates.drop_last().push(candidates.last()) =~= candidates);
    } else {
        assert(ranked(candidates) =~= Seq::<MetadataCandidate>::empty());
    }
}

proof fn lemma_insert_ranked_split(s: Seq<MetadataCandidate>, c: MetadataCandidate, p: int)
    requires
        0 <= p <= s.len(),
        forall|k: int| p <= k < s.len() ==> (#[trigger] s[k]).confidence < c.confidence,
        p == 0 || s[p - 1].confidence >= c.confidence,
    ensures
        insert_ranked(s, c) == s.take(p).push(c) + s.skip(p),
    decreases s.len() - p,
{
    if p == s.len() {
        if s.len() == 0 {
            assert(insert_ranked(s, c) =~= s.take(p).push(c) + s.skip(p));
        } else {
            assert(insert_ranked(s, c) =~= s.take(p).push(c) + s.skip(p));
        }
    } else {
        let q = s.drop_last();
        assert(s.last().confidence < c.confidence);
        assert forall|k: int| p <= k < q.len() implies (#[trigger] q[k]).confidence
            < c.confidence by {
            assert(q[k] == s[k]);
        }
        if p > 0 {
            assert(q[p - 1] == s[p - 1]);
        }
        lemma_insert_ranked_split(q, c, p);
        assert(insert_ranked(s, c) == insert_ranked(q, c).push(s.last()));
        assert(q.take(p).push(c) + q.skip(p) + seq![s.last()] =~= s.take(p).push(c) + s.skip(p));
        assert(insert_ranked(q, c).push(s.last()) =~= insert_ranked(q, c) + seq![s.last()]);
    }
}

/// Orders candidates by confidence, highest first, keeping the order of
/// equally scored candidates.
pub fn rank_candidates(candidates: Vec<MetadataCandidate>) -> (r: Vec<MetadataCandidate>)
    ensures
        r@ == ranked(candidates@),
        ranked_best_first(r@),
        r@.to_multiset() == candidates@.to_multiset(),
{
    let ghost all = candidates@;
    let mut input = candidates;
    let mut out: Vec<MetadataCandidate> = Vec::new();
    let mut done: usize = 0;
    let n = input.len();
    while input.len() > 0
        invariant
            all.len() == n,
            done + input@.len() == all.len(),
            input@ == all.skip(done as int),
            out@ == ranked(all.take(done as int)),
        decreases input@.len(),
    {
        let c = input.remove(0);
        assert(c == all[done as int]);
        assert(input@ =~= all.skip(done + 1));
        let mut p: usize = out.len();
        while p > 0 && out[p - 1].confidence < c.confidence
            invariant
                p <= out@.len(),
                forall|k: int| p <= k < out@.len() ==> (#[trigger] out@[k]).confidence
                    < c.confidence,
            decreases p,
        {
            p = p - 1;
        }
        proof {
            lemma_insert_ranked_split(out@, c, p as int);
            assert(all.take(done + 1).drop_last() =~= all.take(done as int));
        }
        out.insert(p, c);
        assert(out@ =~= ranked(all.take(done + 1)));
        done = done + 1;
    }
    assert(all.take(all.len() as int) =~= all);
    proof {
        lemma_ranked_is_sorted_permutation(all);
    }
    out
}


/// Scores every candidate against the identity, keeping their order.
pub fn score_candidates(
    identity: &TrackIdentity,
    candidates: Vec<MetadataCandidate>,
    duration_tolerance_seconds: u16,
) -> (r: Vec<MetadataCandidate>)
    ensures
        r@.len() == candidates@.len(),
        forall|i: int|
            0 <= i < r@.len() ==> #[trigger] r@[i] == (MetadataCandidate {
                confidence: score_points(*identity, candidates@[i], duration_tolerance_seconds) as u32,
                ..candidates@[i]
            }),
{
    let ghost all = candidates@;
    let mut rest = candidates;
    let mut out: Vec<MetadataCandidate> = Vec::new();
    let n = rest.len();
    while rest.len() > 0
        invariant
            all.len() == n,
            out@.len() + rest@.len() == all.len(),
            rest@ == all.skip(out@.len() as int),
            forall|i: int|
                0 <= i < out@.len() ==> #[trigger] out@[i] == (MetadataCandidate {
                    confidence: score_points(*identity, all[i], duration_tolerance_seconds) as u32,
                    ..all[i]
                }),
        decreases rest@.len(),
    {
        let mut c = rest.remove(0);
        assert(c == all[out@.len() as int]);
        assert(rest@ =~= all.skip(out@.len() + 1int));
        let score = score_candidate(identity, &c, duration_tolerance_seconds);
        c.confidence = score;
        out.push(c);
    }
    out
}

/// The candidate to use: the first of the ranking, if there is any.
pub fn best_candidate(candidates: Vec<MetadataCandidate>) -> (r: Option<MetadataCandidate>)
    ensures
        candidates@.len() == 0 <==> r is None,
        r matches Some(b) ==> b == ranked(candidates@)[0] && forall|j: int|
            0 <= j < candidates@.len() ==> (#[trigger] candidates@[j]).confidence <= b.confidence,
{
    let mut ranking = rank_candidates(candidates);
    proof {
        lemma_ranked_is_sorted_permutation(candidates@);
    }
    if ranking.len() == 0 {
        None
    } else {
        let ghost rk = ranking@;
        let b = ranking.swap_remove(0);
        proof {
            vstd::seq_lib::to_multiset_len(candidates@);
            vstd::seq_lib::to_multiset_len(rk);
            assert forall|j: int| 0 <= j < candidates@.len() implies (#[trigger] candidates@[j]).confidence
                <= b.confidence by {
                vstd::seq_lib::to_multiset_contains(candidates@, candidates@[j]);
                vstd::seq_lib::to_multiset_contains(rk, candidates@[j]);
                assert(candidates@.contains(candidates@[j]));
                assert(rk.contains(candidates@[j]));
                let k = choose|k: int| 0 <= k < rk.len() && rk[k] == candidates@[j];
                if k > 0 {
                    assert(rk[0].confidence >= rk[k].confidence);
                }
            }
        }
        Some(b)
    }
}

} // verus!
