//! Stable ordering of tracks inside a cluster.
//!
//! Tracks are ordered by the pair (disc number defaulting to 1, track number
//! defaulting to 0), ascending; records whose pairs are equal keep their
//! original relative order. The executable sort is an insertion sort proved
//! equal to `spec_sort_tracks`, a recursive specification whose definition
//! makes stability explicit: each record is inserted after every record
//! already placed whose pair is less than or equal to its own.

use crate::models::{AudioFile, AudioFileView};
use vstd::multiset::Multiset;
use vstd::prelude::*;
use vstd::seq_lib::lemma_multiset_commutative;

verus! {

/// The disc number used for ordering and grouping: 1 when absent.
pub open spec fn spec_disc_or_default(f: AudioFileView) -> u32 {
    match f.disc_number {
        Some(d) => d,
        None => 1u32,
    }
}

/// The track number used for ordering: 0 when absent.
pub open spec fn spec_track_or_default(f: AudioFileView) -> u32 {
    match f.track_number {
        Some(t) => t,
        None => 0u32,
    }
}

/// The ordering on records: (disc-or-1, track-or-0), lexicographic.
pub open spec fn spec_key_le(a: AudioFileView, b: AudioFileView) -> bool {
    spec_disc_or_default(a) < spec_disc_or_default(b) || (spec_disc_or_default(a)
        == spec_disc_or_default(b) && spec_track_or_default(a) <= spec_track_or_default(b))
}

/// A sequence of records is sorted when every earlier record's pair is less
/// than or equal to every later one's.
pub open spec fn spec_sorted_tracks(s: Seq<AudioFileView>) -> bool {
    forall|i: int, j: int| 0 <= i <= j < s.len() ==> spec_key_le(#[trigger] s[i], #[trigger] s[j])
}

/// Inserts a record into an already sorted sequence, after every record whose
/// pair is less than or equal to its own; this placement is what makes the
/// sort stable.
pub open spec fn spec_insert_track(f: AudioFileView, s: Seq<AudioFileView>) -> Seq<AudioFileView>
    decreases s.len(),
{
    if s.len() == 0 {
        seq![f]
    } else if spec_key_le(s[0], f) {
        seq![s[0]] + spec_insert_track(f, s.drop_first())
    } else {
        seq![f] + s
    }
}

/// The stable sort of a track sequence: records are inserted left to right.
pub open spec fn spec_sort_tracks(s: Seq<AudioFileView>) -> Seq<AudioFileView>
    decreases s.len(),
{
    if s.len() == 0 {
        Seq::empty()
    } else {
        spec_insert_track(s.last(), spec_sort_tracks(s.drop_last()))
    }
}

pub proof fn lemma_insert_track_multiset(f: AudioFileView, s: Seq<AudioFileView>)
    ensures
        spec_insert_track(f, s).to_multiset() == s.to_multiset().insert(f),
        spec_insert_track(f, s).len() == s.len() + 1,
    decreases s.len(),
{
    broadcast use vstd::seq_lib::group_to_multiset_ensures;

    if s.len() == 0 {
        assert(spec_insert_track(f, s) =~= Seq::empty().push(f));
        assert(Seq::<AudioFileView>::empty().push(f).to_multiset() =~= s.to_multiset().insert(f));
    } else if spec_key_le(s[0], f) {
        lemma_insert_track_multiset(f, s.drop_first());
        let rest = spec_insert_track(f, s.drop_first());
        lemma_multiset_commutative(seq![s[0]], rest);
        lemma_multiset_commutative(seq![s[0]], s.drop_first());
        assert(seq![s[0]] + s.drop_first() =~= s);
        assert(seq![s[0]].to_multiset() =~= Multiset::empty().insert(s[0]));
        assert((seq![s[0]] + rest).to_multiset() =~= s.to_multiset().insert(f));
    } else {
        lemma_multiset_commutative(seq![f], s);
        assert(seq![f].to_multiset() =~= Multiset::empty().insert(f));
        assert((seq![f] + s).to_multiset() =~= s.to_multiset().insert(f));
    }
}

/// Sorting does not lose, duplicate or invent records.
pub proof fn lemma_sort_tracks_multiset(s: Seq<AudioFileView>)
    ensures
        spec_sort_tracks(s).to_multiset() == s.to_multiset(),
        spec_sort_tracks(s).len() == s.len(),
    decreases s.len(),
{
    broadcast use vstd::seq_lib::group_to_multiset_ensures;

    if s.len() == 0 {
    } else {
        lemma_sort_tracks_multiset(s.drop_last());
        lemma_insert_track_multiset(s.last(), spec_sort_tracks(s.drop_last()));
        assert(s.drop_last().push(s.last()) =~= s);
        assert(s.drop_last().push(s.last()).to_multiset() =~= s.drop_last().to_multiset().insert(
            s.last(),
        ));
    }
}

pub proof fn lemma_insert_track_sorted(f: AudioFileView, s: Seq<AudioFileView>)
    requires
        spec_sorted_tracks(s),
    ensures
        spec_sorted_tracks(spec_insert_track(f, s)),
    decreases s.len(),
{
    if s.len() == 0 {
    } else if spec_key_le(s[0], f) {
        assert(spec_sorted_tracks(s.drop_first()));
        lemma_insert_track_sorted(f, s.drop_first());
        let rest = spec_insert_track(f, s.drop_first());
        lemma_insert_track_multiset(f, s.drop_first());
        broadcast use vstd::seq_lib::group_to_multiset_ensures;

        let out = seq![s[0]] + rest;
        assert forall|i: int, j: int| 0 <= i <= j < out.len() implies spec_key_le(
            #[trigger] out[i],
            #[trigger] out[j],
        ) by {
            if i == 0 && j > 0 {
                // out[j] is either f or an element of s.drop_first(); either
                // way s[0]'s pair is below it.
                assert(rest.to_multiset().count(out[j]) > 0);
                if out[j] != f {
                    assert(s.drop_first().to_multiset().count(out[j]) > 0);
                    assert(s.drop_first().contains(out[j]));
                    let w = choose|w: int|
                        0 <= w < s.drop_first().len() && s.drop_first()[w] == out[j];
                    assert(spec_key_le(s[0], s[w + 1]));
                }
            } else if i > 0 {
                assert(spec_key_le(rest[i - 1], rest[j - 1]));
            }
        }
    } else {
        let out = seq![f] + s;
        assert forall|i: int, j: int| 0 <= i <= j < out.len() implies spec_key_le(
            #[trigger] out[i],
            #[trigger] out[j],
        ) by {
            if i == 0 && j > 0 {
                assert(spec_key_le(s[0], s[j - 1]));
            }
        }
    }
}

/// Every sorted track sequence produced by the sort is non-decreasing in
/// (disc-or-1, track-or-0).
pub proof fn lemma_sort_tracks_sorted(s: Seq<AudioFileView>)
    ensures
        spec_sorted_tracks(spec_sort_tracks(s)),
    decreases s.len(),
{
    if s.len() == 0 {
    } else {
        lemma_sort_tracks_sorted(s.drop_last());
        lemma_insert_track_sorted(s.last(), spec_sort_tracks(s.drop_last()));
    }
}

pub proof fn lemma_filter_empty(p: spec_fn(AudioFileView) -> bool)
    ensures
        Seq::<AudioFileView>::empty().filter(p) == Seq::<AudioFileView>::empty(),
{
    reveal(Seq::filter);
}

pub proof fn lemma_filter_push(s: Seq<AudioFileView>, x: AudioFileView, p: spec_fn(AudioFileView) -> bool)
    ensures
        s.push(x).filter(p) == if p(x) {
            s.filter(p).push(x)
        } else {
            s.filter(p)
        },
{
    reveal(Seq::filter);
    assert(s.push(x).drop_last() =~= s);
    assert(s.push(x).last() == x);
}

pub proof fn lemma_filter_singleton(x: AudioFileView, p: spec_fn(AudioFileView) -> bool)
    ensures
        seq![x].filter(p) == if p(x) {
            seq![x]
        } else {
            Seq::<AudioFileView>::empty()
        },
{
    lemma_filter_empty(p);
    lemma_filter_push(Seq::empty(), x, p);
    assert(Seq::empty().push(x) =~= seq![x]);
    if p(x) {
        assert(Seq::<AudioFileView>::empty().filter(p).push(x) =~= seq![x]);
    }
}

pub proof fn lemma_filter_none(s: Seq<AudioFileView>, p: spec_fn(AudioFileView) -> bool)
    requires
        forall|i: int| 0 <= i < s.len() ==> !p(#[trigger] s[i]),
    ensures
        s.filter(p) == Seq::<AudioFileView>::empty(),
    decreases s.len(),
{
    if s.len() == 0 {
        lemma_filter_empty(p);
    } else {
        lemma_filter_none(s.drop_last(), p);
        lemma_filter_push(s.drop_last(), s.last(), p);
        assert(s.drop_last().push(s.last()) =~= s);
    }
}

pub proof fn lemma_filter_all(s: Seq<AudioFileView>, p: spec_fn(AudioFileView) -> bool)
    requires
        forall|i: int| 0 <= i < s.len() ==> p(#[trigger] s[i]),
    ensures
        s.filter(p) == s,
    decreases s.len(),
{
    if s.len() == 0 {
        lemma_filter_empty(p);
    } else {
        lemma_filter_all(s.drop_last(), p);
        lemma_filter_push(s.drop_last(), s.last(), p);
        assert(s.drop_last().push(s.last()) =~= s);
    }
}

/// Whether a record's effective ordering pair is exactly (d, t).
pub open spec fn spec_has_pair(f: AudioFileView, d: u32, t: u32) -> bool {
    spec_disc_or_default(f) == d && spec_track_or_default(f) == t
}

pub proof fn lemma_insert_track_stable(
    f: AudioFileView,
    s: Seq<AudioFileView>,
    d: u32,
    t: u32,
)
    requires
        spec_sorted_tracks(s),
    ensures
        spec_insert_track(f, s).filter(|x: AudioFileView| spec_has_pair(x, d, t)) == if spec_has_pair(f, d, t) {
            s.filter(|x: AudioFileView| spec_has_pair(x, d, t)).push(f)
        } else {
            s.filter(|x: AudioFileView| spec_has_pair(x, d, t))
        },
    decreases s.len(),
{
    broadcast use Seq::filter_distributes_over_add;

    let p = |x: AudioFileView| spec_has_pair(x, d, t);
    if s.len() == 0 {
        lemma_filter_singleton(f, p);
        lemma_filter_empty(p);
        if p(f) {
            assert(spec_insert_track(f, s).filter(p) =~= s.filter(p).push(f));
        } else {
            assert(spec_insert_track(f, s) =~= seq![f]);
            assert(s =~= Seq::<AudioFileView>::empty());
        }
    } else if spec_key_le(s[0], f) {
        assert(spec_sorted_tracks(s.drop_first()));
        lemma_insert_track_stable(f, s.drop_first(), d, t);
        lemma_filter_singleton(s[0], p);
        assert(s =~= seq![s[0]] + s.drop_first());
        let rest = spec_insert_track(f, s.drop_first());
        assert(spec_insert_track(f, s) == seq![s[0]] + rest);
        assert((seq![s[0]] + rest).filter(p) == seq![s[0]].filter(p) + rest.filter(p));
        assert((seq![s[0]] + s.drop_first()).filter(p) == seq![s[0]].filter(p) + s.drop_first().filter(p));
        if p(f) {
            assert(seq![s[0]].filter(p) + s.drop_first().filter(p).push(f) =~= (seq![s[0]].filter(
                p,
            ) + s.drop_first().filter(p)).push(f));
        }
    } else {
        // Every record of s is strictly above f's pair; none shares f's pair.
        if p(f) {
            assert forall|i: int| 0 <= i < s.len() implies !p(#[trigger] s[i]) by {
                assert(spec_key_le(s[0], s[i]));
                if p(s[i]) {
                    assert(spec_key_le(s[i], f));
                    assert(spec_key_le(s[0], f));
                }
            }
            lemma_filter_none(s, p);
            lemma_filter_singleton(f, p);
            assert(spec_insert_track(f, s).filter(p) == seq![f].filter(p) + s.filter(p));
            assert(seq![f] + Seq::<AudioFileView>::empty() =~= seq![f]);
            assert(Seq::<AudioFileView>::empty().push(f) =~= seq![f]);
        } else {
            lemma_filter_singleton(f, p);
            assert(spec_insert_track(f, s).filter(p) == seq![f].filter(p) + s.filter(p));
            assert(Seq::<AudioFileView>::empty() + s.filter(p) =~= s.filter(p));
        }
    }
}

/// Stability: for every ordering pair, the records carrying that pair appear
/// in the sorted sequence in the same order as in the input.
pub proof fn lemma_sort_tracks_stable(s: Seq<AudioFileView>, d: u32, t: u32)
    ensures
        spec_sort_tracks(s).filter(|x: AudioFileView| spec_has_pair(x, d, t)) == s.filter(
            |x: AudioFileView| spec_has_pair(x, d, t),
        ),
    decreases s.len(),
{
    let p = |x: AudioFileView| spec_has_pair(x, d, t);
    if s.len() == 0 {
    } else {
        lemma_sort_tracks_stable(s.drop_last(), d, t);
        lemma_sort_tracks_sorted(s.drop_last());
        lemma_insert_track_stable(s.last(), spec_sort_tracks(s.drop_last()), d, t);
        lemma_filter_push(s.drop_last(), s.last(), p);
        assert(s.drop_last().push(s.last()) =~= s);
    }
}

pub proof fn lemma_insert_track_all_le(f: AudioFileView, s: Seq<AudioFileView>)
    requires
        forall|i: int| 0 <= i < s.len() ==> spec_key_le(#[trigger] s[i], f),
    ensures
        spec_insert_track(f, s) == s.push(f),
    decreases s.len(),
{
    if s.len() == 0 {
        assert(spec_insert_track(f, s) =~= s.push(f));
    } else {
        lemma_insert_track_all_le(f, s.drop_first());
        assert(seq![s[0]] + s.drop_first().push(f) =~= s.push(f));
    }
}

/// Sorting an already sorted sequence returns it unchanged.
pub proof fn lemma_sort_tracks_idempotent(s: Seq<AudioFileView>)
    requires
        spec_sorted_tracks(s),
    ensures
        spec_sort_tracks(s) == s,
    decreases s.len(),
{
    if s.len() == 0 {
        assert(spec_sort_tracks(s) =~= s);
    } else {
        assert(spec_sorted_tracks(s.drop_last()));
        lemma_sort_tracks_idempotent(s.drop_last());
        lemma_insert_track_all_le(s.last(), s.drop_last());
        assert(s.drop_last().push(s.last()) =~= s);
    }
}

pub proof fn lemma_insert_track_at(f: AudioFileView, s: Seq<AudioFileView>, j: int)
    requires
        0 <= j <= s.len(),
        forall|i: int| 0 <= i < j ==> spec_key_le(#[trigger] s[i], f),
        j < s.len() ==> !spec_key_le(s[j], f),
    ensures
        spec_insert_track(f, s) == s.insert(j, f),
    decreases j,
{
    if j == 0 {
        if s.len() == 0 {
            assert(spec_insert_track(f, s) =~= s.insert(0, f));
        } else {
            assert(spec_insert_track(f, s) == seq![f] + s);
            assert(seq![f] + s =~= s.insert(0, f));
        }
    } else {
        assert(spec_key_le(s[0], f));
        lemma_insert_track_at(f, s.drop_first(), j - 1);
        assert(seq![s[0]] + s.drop_first().insert(j - 1, f) =~= s.insert(j, f));
    }
}

/// The disc number used for ordering: 1 when the tag is absent.
pub fn disc_or_default(f: &AudioFile) -> (r: u32)
    ensures
        r == spec_disc_or_default(f@),
{
    match f.disc_number {
        Some(d) => d,
        None => 1,
    }
}

/// The track number used for ordering: 0 when the tag is absent.
pub fn track_or_default(f: &AudioFile) -> (r: u32)
    ensures
        r == spec_track_or_default(f@),
{
    match f.track_number {
        Some(t) => t,
        None => 0,
    }
}

/// Compares two records by (disc-or-1, track-or-0), lexicographically.
pub fn track_le(a: &AudioFile, b: &AudioFile) -> (r: bool)
    ensures
        r == spec_key_le(a@, b@),
{
    let da = disc_or_default(a);
    let db = disc_or_default(b);
    da < db || (da == db && track_or_default(a) <= track_or_default(b))
}

/// Stable insertion sort of a track list by (disc-or-1, track-or-0).
pub fn sort_tracks(tracks: Vec<AudioFile>) -> (r: Vec<AudioFile>)
    ensures
        r.deep_view() == spec_sort_tracks(tracks.deep_view()),
{
    let mut out: Vec<AudioFile> = Vec::new();
    let mut i: usize = 0;
    proof {
        assert(out.deep_view() =~= spec_sort_tracks(tracks.deep_view().take(0)));
    }
    while i < tracks.len()
        invariant
            i <= tracks.len(),
            out.deep_view() == spec_sort_tracks(tracks.deep_view().take(i as int)),
        decreases tracks.len() - i,
    {
        let f = tracks[i].clone();
        let ghost fv = f@;
        let ghost pre = out.deep_view();
        let mut j: usize = 0;
        while j < out.len() && track_le(&out[j], &f)
            invariant
                j <= out.len(),
                out.deep_view() == pre,
                f@ == fv,
                forall|x: int| 0 <= x < j ==> spec_key_le(#[trigger] out.deep_view()[x], fv),
            decreases out.len() - j,
        {
            j = j + 1;
        }
        out.insert(j, f);
        i = i + 1;
        proof {
            lemma_insert_track_at(fv, pre, j as int);
            assert(out.deep_view() =~= pre.insert(j as int, fv));
            assert(tracks.deep_view().take(i as int).drop_last() =~= tracks.deep_view().take(
                i as int - 1,
            ));
            assert(tracks.deep_view().take(i as int).last() == fv);
        }
    }
    proof {
        assert(tracks.deep_view().take(tracks.len() as int) =~= tracks.deep_view());
    }
    out
}

} // verus!
