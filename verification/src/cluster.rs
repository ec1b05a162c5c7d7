//! The cluster builder: grouping file records into album clusters.
//!
//! Records are bucketed by exact equality of their grouping key — the
//! containing directory, the album artist (or its fallback), the album title
//! (or its fallback) and the disc count (or 1). Buckets keep the order of
//! first appearance, each bucket keeps its records in input order, and each
//! cluster's track list is the stable sort of its bucket. The whole builder
//! is characterised by `spec_cluster_files`, a purely mathematical model of
//! that process.

use crate::models::{AlbumCluster, AlbumClusterView, AudioFile, AudioFileView};
use crate::paths::{parent_dir, spec_parent_dir};
use crate::sorting::{lemma_filter_none, lemma_filter_push, sort_tracks, spec_sort_tracks};
use vstd::multiset::Multiset;
use vstd::prelude::*;

verus! {

/// The grouping key of a file record.
#[derive(Debug)]
pub struct ClusterKey {
    pub base_path: String,
    pub album_artist: String,
    pub album: String,
    pub total_discs: u32,
}

/// The mathematical model of a grouping key.
pub ghost struct ClusterKeyView {
    pub base_path: Seq<char>,
    pub album_artist: Seq<char>,
    pub album: Seq<char>,
    pub total_discs: u32,
}

impl View for ClusterKey {
    type V = ClusterKeyView;

    open spec fn view(&self) -> ClusterKeyView {
        ClusterKeyView {
            base_path: self.base_path@,
            album_artist: self.album_artist@,
            album: self.album@,
            total_discs: self.total_discs,
        }
    }
}

/// The fallback shown when a record names no album artist.
pub open spec fn spec_unknown_artist() -> Seq<char> {
    "Unknown Artist"@
}

/// The fallback shown when a record names no album.
pub open spec fn spec_unknown_album() -> Seq<char> {
    "Unknown Album"@
}

/// The grouping key of a record: containing directory, album artist or its
/// fallback, album or its fallback, disc count or 1.
pub open spec fn spec_cluster_key(f: AudioFileView) -> ClusterKeyView {
    ClusterKeyView {
        base_path: spec_parent_dir(f.path),
        album_artist: match f.album_artist {
            Some(a) => a,
            None => spec_unknown_artist(),
        },
        album: match f.album {
            Some(a) => a,
            None => spec_unknown_album(),
        },
        total_discs: match f.total_discs {
            Some(d) => d,
            None => 1u32,
        },
    }
}

impl ClusterKey {
    /// The grouping key of a file record.
    pub fn from_file(file: &AudioFile) -> (k: Self)
        ensures
            k@ == spec_cluster_key(file@),
    {
        let base_path = parent_dir(file.path.as_str());
        let album_artist = match &file.album_artist {
            Some(s) => s.clone(),
            None => "Unknown Artist".to_owned(),
        };
        let album = match &file.album {
            Some(s) => s.clone(),
            None => "Unknown Album".to_owned(),
        };
        let total_discs = match file.total_discs {
            Some(d) => d,
            None => 1,
        };
        ClusterKey { base_path, album_artist, album, total_discs }
    }
}

/// Whether two grouping keys are equal.
pub fn key_eq(a: &ClusterKey, b: &ClusterKey) -> (r: bool)
    ensures
        r == (a@ == b@),
{
    a.base_path == b.base_path && a.album_artist == b.album_artist && a.album == b.album
        && a.total_discs == b.total_discs
}

/// The distinct grouping keys of a record sequence, in order of first
/// appearance.
pub open spec fn spec_keys_in_order(s: Seq<AudioFileView>) -> Seq<ClusterKeyView>
    decreases s.len(),
{
    if s.len() == 0 {
        Seq::empty()
    } else {
        let rest = spec_keys_in_order(s.drop_last());
        if rest.contains(spec_cluster_key(s.last())) {
            rest
        } else {
            rest.push(spec_cluster_key(s.last()))
        }
    }
}

/// The records of `s` whose grouping key is `k`, in input order.
pub open spec fn spec_tracks_for_key(s: Seq<AudioFileView>, k: ClusterKeyView) -> Seq<
    AudioFileView,
> {
    s.filter(|x: AudioFileView| spec_cluster_key(x) == k)
}

/// The cluster built for grouping key `k` over input `s`.
pub open spec fn spec_cluster_of(s: Seq<AudioFileView>, k: ClusterKeyView) -> AlbumClusterView {
    AlbumClusterView {
        album: k.album,
        album_artist: k.album_artist,
        tracks: spec_sort_tracks(spec_tracks_for_key(s, k)),
        base_path: k.base_path,
        total_discs: k.total_discs,
    }
}

/// The full model of the cluster builder: one cluster per distinct grouping
/// key, keys in order of first appearance.
pub open spec fn spec_cluster_files(s: Seq<AudioFileView>) -> Seq<AlbumClusterView> {
    spec_keys_in_order(s).map_values(|k: ClusterKeyView| spec_cluster_of(s, k))
}

/// Every record's grouping key appears among the keys of its sequence.
pub proof fn lemma_keys_in_order_complete(s: Seq<AudioFileView>)
    ensures
        forall|i: int|
            0 <= i < s.len() ==> spec_keys_in_order(s).contains(spec_cluster_key(#[trigger] s[i])),
    decreases s.len(),
{
    if s.len() > 0 {
        lemma_keys_in_order_complete(s.drop_last());
        let rest = spec_keys_in_order(s.drop_last());
        assert forall|i: int| 0 <= i < s.len() implies spec_keys_in_order(s).contains(
            spec_cluster_key(#[trigger] s[i]),
        ) by {
            if i < s.len() - 1 {
                assert(s.drop_last()[i] == s[i]);
                let w = choose|w: int|
                    0 <= w < rest.len() && rest[w] == spec_cluster_key(s.drop_last()[i]);
                assert(spec_keys_in_order(s)[w] == spec_cluster_key(s[i]));
            } else {
                if rest.contains(spec_cluster_key(s.last())) {
                    let w = choose|w: int|
                        0 <= w < rest.len() && rest[w] == spec_cluster_key(s.last());
                    assert(spec_keys_in_order(s)[w] == spec_cluster_key(s[i]));
                } else {
                    assert(spec_keys_in_order(s)[rest.len() as int] == spec_cluster_key(s[i]));
                }
            }
        }
    }
}

/// The keys of a record sequence are distinct.
pub proof fn lemma_keys_in_order_distinct(s: Seq<AudioFileView>)
    ensures
        forall|i: int, j: int|
            0 <= i < j < spec_keys_in_order(s).len() ==> #[trigger] spec_keys_in_order(s)[i]
                != #[trigger] spec_keys_in_order(s)[j],
    decreases s.len(),
{
    if s.len() > 0 {
        lemma_keys_in_order_distinct(s.drop_last());
        let rest = spec_keys_in_order(s.drop_last());
        let keys = spec_keys_in_order(s);
        assert forall|i: int, j: int| 0 <= i < j < keys.len() implies #[trigger] keys[i]
            != #[trigger] keys[j] by {
            if j < rest.len() {
                assert(rest[i] != rest[j]);
            } else {
                assert(!rest.contains(spec_cluster_key(s.last())));
                assert(rest[i] == keys[i]);
            }
        }
    }
}

/// Every key of a record sequence is the key of one of its records.
pub proof fn lemma_keys_in_order_sound(s: Seq<AudioFileView>)
    ensures
        forall|w: int|
            0 <= w < spec_keys_in_order(s).len() ==> exists|i: int|
                0 <= i < s.len() && #[trigger] spec_keys_in_order(s)[w] == spec_cluster_key(s[i]),
    decreases s.len(),
{
    if s.len() > 0 {
        lemma_keys_in_order_sound(s.drop_last());
        let rest = spec_keys_in_order(s.drop_last());
        let keys = spec_keys_in_order(s);
        assert forall|w: int| 0 <= w < keys.len() implies exists|i: int|
            0 <= i < s.len() && #[trigger] keys[w] == spec_cluster_key(s[i]) by {
            if w < rest.len() {
                let i = choose|i: int|
                    0 <= i < s.drop_last().len() && rest[w] == spec_cluster_key(
                        s.drop_last()[i],
                    );
                assert(keys[w] == spec_cluster_key(s[i]));
            } else {
                assert(keys[w] == spec_cluster_key(s[s.len() - 1]));
            }
        }
    }
}

struct Group {
    key: ClusterKey,
    tracks: Vec<AudioFile>,
}

/// Groups file records into album clusters.
///
/// The result is exactly `spec_cluster_files` of the input: records are
/// partitioned by grouping key, buckets appear in order of first appearance,
/// and each cluster's tracks are the stable sort of its bucket by
/// (disc-or-1, track-or-0).
pub fn cluster_files(files: Vec<AudioFile>) -> (clusters: Vec<AlbumCluster>)
    ensures
        clusters.deep_view() == spec_cluster_files(files.deep_view()),
{
    let ghost s = files.deep_view();
    let mut groups: Vec<Group> = Vec::new();
    let mut i: usize = 0;
    while i < files.len()
        invariant
            i <= files.len(),
            s == files.deep_view(),
            groups@.len() == spec_keys_in_order(s.take(i as int)).len(),
            forall|g: int|
                0 <= g < groups@.len() ==> #[trigger] groups@[g].key@ == spec_keys_in_order(
                    s.take(i as int),
                )[g],
            forall|g: int|
                0 <= g < groups@.len() ==> #[trigger] groups@[g].tracks.deep_view()
                    == spec_tracks_for_key(s.take(i as int), groups@[g].key@),
            forall|g1: int, g2: int|
                0 <= g1 < g2 < groups@.len() ==> #[trigger] groups@[g1].key@ != #[trigger] groups@[g2].key@,
        decreases files.len() - i,
    {
        let f = files[i].clone();
        let key = ClusterKey::from_file(&f);
        let ghost fv = f@;
        let ghost kv = key@;
        let ghost prefix = s.take(i as int);
        let ghost keys_pre = spec_keys_in_order(prefix);

        let mut g: usize = 0;
        let mut found: bool = false;
        while g < groups.len() && !found
            invariant
                g <= groups@.len(),
                key@ == kv,
                !found ==> forall|x: int| 0 <= x < g ==> #[trigger] groups@[x].key@ != kv,
                found ==> g < groups@.len() && groups@[g as int].key@ == kv,
            decreases groups@.len() - g + (if found { 0int } else { 1int }),
        {
            if key_eq(&groups[g].key, &key) {
                found = true;
            } else {
                g = g + 1;
            }
        }

        proof {
            assert(s.take(i as int + 1).drop_last() =~= prefix);
            assert(s.take(i as int + 1).last() == fv);
            assert(spec_cluster_key(fv) == kv);
            if found {
                assert(keys_pre.contains(kv));
            } else {
                if keys_pre.contains(kv) {
                    let w = choose|w: int| 0 <= w < keys_pre.len() && keys_pre[w] == kv;
                    assert(groups@[w].key@ == kv);
                    assert(false);
                }
            }
        }

        if found {
            let ghost gpre = groups@;
            let mut grp = groups.remove(g);
            let ghost tpre = grp.tracks.deep_view();
            grp.tracks.push(f);
            groups.insert(g, grp);
            proof {
                assert(groups@ =~= gpre.update(g as int, groups@[g as int]));
                assert(groups@[g as int].tracks.deep_view() =~= tpre.push(fv));
                assert forall|x: int| 0 <= x < groups@.len() implies #[trigger] groups@[x].tracks.deep_view()
                    == spec_tracks_for_key(s.take(i as int + 1), groups@[x].key@) by {
                    let p = |y: AudioFileView| spec_cluster_key(y) == groups@[x].key@;
                    lemma_filter_push(prefix, fv, p);
                    assert(prefix.push(fv) =~= s.take(i as int + 1));
                    if x == g {
                        assert(groups@[x].tracks.deep_view() =~= prefix.filter(p).push(fv));
                    } else {
                        assert(groups@[x].key@ != kv);
                    }
                }
            }
        } else {
            let mut tracks: Vec<AudioFile> = Vec::new();
            tracks.push(f);
            groups.push(Group { key, tracks });
            proof {
                let keys_post = spec_keys_in_order(s.take(i as int + 1));
                assert(keys_post =~= keys_pre.push(kv));
                lemma_keys_in_order_complete(prefix);
                assert forall|x: int| 0 <= x < groups@.len() implies #[trigger] groups@[x].tracks.deep_view()
                    == spec_tracks_for_key(s.take(i as int + 1), groups@[x].key@) by {
                    let p = |y: AudioFileView| spec_cluster_key(y) == groups@[x].key@;
                    lemma_filter_push(prefix, fv, p);
                    assert(prefix.push(fv) =~= s.take(i as int + 1));
                    if x == groups@.len() - 1 {
                        assert forall|w: int| 0 <= w < prefix.len() implies !p(
                            #[trigger] prefix[w],
                        ) by {
                            if p(prefix[w]) {
                                assert(keys_pre.contains(spec_cluster_key(prefix[w])));
                                let u = choose|u: int|
                                    0 <= u < keys_pre.len() && keys_pre[u] == spec_cluster_key(
                                        prefix[w],
                                    );
                                assert(groups@[u].key@ == kv);
                                assert(false);
                            }
                        }
                        lemma_filter_none(prefix, p);
                        assert(groups@[x].tracks.deep_view() =~= prefix.filter(p).push(fv));
                    }
                }
            }
        }
        i = i + 1;
    }

    proof {
        assert(s.take(files@.len() as int) =~= s);
    }

    let ghost keys = spec_keys_in_order(s);
    let mut clusters: Vec<AlbumCluster> = Vec::new();
    let mut g: usize = 0;
    while g < groups.len()
        invariant
            g <= groups@.len(),
            s == files.deep_view(),
            groups@.len() == keys.len(),
            forall|x: int| 0 <= x < groups@.len() ==> #[trigger] groups@[x].key@ == keys[x],
            forall|x: int|
                0 <= x < groups@.len() ==> #[trigger] groups@[x].tracks.deep_view()
                    == spec_tracks_for_key(s, groups@[x].key@),
            clusters@.len() == g,
            forall|x: int|
                0 <= x < g ==> #[trigger] clusters@[x]@ == spec_cluster_of(s, keys[x]),
        decreases groups@.len() - g,
    {
        let grp = &groups[g];
        let sorted = sort_tracks(crate::models::clone_files(&grp.tracks));
        let cluster = AlbumCluster {
            album: grp.key.album.clone(),
            album_artist: grp.key.album_artist.clone(),
            tracks: sorted,
            base_path: grp.key.base_path.clone(),
            total_discs: grp.key.total_discs,
        };
        clusters.push(cluster);
        g = g + 1;
    }

    proof {
        assert(clusters.deep_view() =~= spec_cluster_files(s));
    }
    clusters
}

/// All tracks of a cluster list, in cluster order.
pub open spec fn spec_all_tracks(clusters: Seq<AlbumClusterView>) -> Seq<AudioFileView> {
    clusters.map_values(|c: AlbumClusterView| c.tracks).flatten()
}

/// The records of `s` with a key from `keys`, counted once per key entry.
spec fn keys_tracks_multiset(s: Seq<AudioFileView>, keys: Seq<ClusterKeyView>) -> Multiset<
    AudioFileView,
>
    decreases keys.len(),
{
    if keys.len() == 0 {
        Multiset::empty()
    } else {
        keys_tracks_multiset(s, keys.drop_last()).add(
            spec_tracks_for_key(s, keys.last()).to_multiset(),
        )
    }
}

proof fn lemma_all_tracks_sum(s: Seq<AudioFileView>, keys: Seq<ClusterKeyView>)
    ensures
        spec_all_tracks(keys.map_values(|k: ClusterKeyView| spec_cluster_of(s, k))).to_multiset()
            == keys_tracks_multiset(s, keys),
    decreases keys.len(),
{
    broadcast use Seq::lemma_flatten_push;
    broadcast use vstd::seq_lib::group_to_multiset_ensures;
    broadcast use vstd::multiset::group_multiset_axioms;

    let chunks = keys.map_values(|k: ClusterKeyView| spec_cluster_of(s, k)).map_values(
        |c: AlbumClusterView| c.tracks,
    );
    if keys.len() == 0 {
        assert(chunks =~= Seq::<Seq<AudioFileView>>::empty());
        assert(chunks.flatten().to_multiset().len() == 0);
        assert(chunks.flatten().to_multiset() =~= Multiset::<AudioFileView>::empty());
    } else {
        lemma_all_tracks_sum(s, keys.drop_last());
        let chunks_dl = keys.drop_last().map_values(
            |k: ClusterKeyView| spec_cluster_of(s, k),
        ).map_values(|c: AlbumClusterView| c.tracks);
        let last_tracks = crate::sorting::spec_sort_tracks(spec_tracks_for_key(s, keys.last()));
        assert(chunks =~= chunks_dl.push(last_tracks));
        assert(chunks.flatten() == chunks_dl.flatten() + last_tracks);
        vstd::seq_lib::lemma_multiset_commutative(chunks_dl.flatten(), last_tracks);
        crate::sorting::lemma_sort_tracks_multiset(spec_tracks_for_key(s, keys.last()));
    }
}

proof fn lemma_sum_push(s: Seq<AudioFileView>, f: AudioFileView, keys: Seq<ClusterKeyView>)
    requires
        forall|i: int, j: int| 0 <= i < j < keys.len() ==> #[trigger] keys[i] != #[trigger] keys[j],
    ensures
        keys.contains(spec_cluster_key(f)) ==> keys_tracks_multiset(s.push(f), keys)
            == keys_tracks_multiset(s, keys).insert(f),
        !keys.contains(spec_cluster_key(f)) ==> keys_tracks_multiset(s.push(f), keys)
            == keys_tracks_multiset(s, keys),
    decreases keys.len(),
{
    broadcast use vstd::seq_lib::group_to_multiset_ensures;

    if keys.len() == 0 {
    } else {
        let k = spec_cluster_key(f);
        let kl = keys.last();
        let dl = keys.drop_last();
        let p = |y: AudioFileView| spec_cluster_key(y) == kl;
        lemma_filter_push(s, f, p);
        assert(forall|i: int, j: int|
            0 <= i < j < dl.len() ==> #[trigger] dl[i] != #[trigger] dl[j]);
        lemma_sum_push(s, f, dl);
        if kl == k {
            assert(!dl.contains(k)) by {
                if dl.contains(k) {
                    let w = choose|w: int| 0 <= w < dl.len() && dl[w] == k;
                    assert(keys[w] == keys[keys.len() - 1]);
                }
            }
            assert(spec_tracks_for_key(s.push(f), kl).to_multiset() == spec_tracks_for_key(
                s,
                kl,
            ).to_multiset().insert(f));
            assert(keys_tracks_multiset(s.push(f), keys) =~= keys_tracks_multiset(
                s,
                keys,
            ).insert(f));
            assert(keys.contains(k)) by {
                assert(keys[keys.len() - 1] == k);
            }
        } else {
            assert(spec_tracks_for_key(s.push(f), kl) == spec_tracks_for_key(s, kl));
            if dl.contains(k) {
                assert(keys_tracks_multiset(s.push(f), keys) =~= keys_tracks_multiset(
                    s,
                    keys,
                ).insert(f));
                assert(keys.contains(k)) by {
                    let w = choose|w: int| 0 <= w < dl.len() && dl[w] == k;
                    assert(keys[w] == k);
                }
            } else {
                assert(keys_tracks_multiset(s.push(f), keys) =~= keys_tracks_multiset(s, keys));
                assert(!keys.contains(k)) by {
                    if keys.contains(k) {
                        let w = choose|w: int| 0 <= w < keys.len() && keys[w] == k;
                        assert(w < dl.len() ==> dl[w] == k);
                    }
                }
            }
        }
    }
}

proof fn lemma_sum_is_input(s: Seq<AudioFileView>)
    ensures
        keys_tracks_multiset(s, spec_keys_in_order(s)) == s.to_multiset(),
    decreases s.len(),
{
    broadcast use vstd::seq_lib::group_to_multiset_ensures;

    if s.len() == 0 {
        assert(keys_tracks_multiset(s, spec_keys_in_order(s)) =~= s.to_multiset());
    } else {
        let dl = s.drop_last();
        let f = s.last();
        let k = spec_cluster_key(f);
        let keys_dl = spec_keys_in_order(dl);
        lemma_sum_is_input(dl);
        lemma_keys_in_order_distinct(dl);
        assert(dl.push(f) =~= s);
        if keys_dl.contains(k) {
            assert(spec_keys_in_order(s) == keys_dl);
            lemma_sum_push(dl, f, keys_dl);
            assert(keys_tracks_multiset(s, keys_dl) == dl.to_multiset().insert(f));
            assert(s.to_multiset() == dl.to_multiset().insert(f));
        } else {
            assert(spec_keys_in_order(s) == keys_dl.push(k));
            lemma_sum_push(dl, f, keys_dl);
            assert(keys_dl.push(k).drop_last() =~= keys_dl);
            assert(keys_dl.push(k).last() == k);
            assert(keys_tracks_multiset(s, keys_dl.push(k)) == keys_tracks_multiset(
                s,
                keys_dl,
            ).add(spec_tracks_for_key(s, k).to_multiset()));
            assert(keys_tracks_multiset(s, keys_dl) == keys_tracks_multiset(dl, keys_dl));
            // No record of dl carries the new key, so the new bucket is {f}.
            let p = |y: AudioFileView| spec_cluster_key(y) == k;
            lemma_keys_in_order_complete(dl);
            assert forall|w: int| 0 <= w < dl.len() implies !p(#[trigger] dl[w]) by {
                if p(dl[w]) {
                    assert(keys_dl.contains(spec_cluster_key(dl[w])));
                }
            }
            lemma_filter_none(dl, p);
            lemma_filter_push(dl, f, p);
            assert(spec_tracks_for_key(s, k) =~= Seq::<AudioFileView>::empty().push(f));
            assert(spec_tracks_for_key(s, k).to_multiset() =~= Multiset::<
                AudioFileView,
            >::empty().insert(f));
            assert(keys_tracks_multiset(s, spec_keys_in_order(s)) =~= dl.to_multiset().insert(f));
            assert(s.to_multiset() == dl.to_multiset().insert(f));
        }
    }
}

/// Partition: the clusters' track lists together hold exactly the input
/// records — none dropped, none duplicated, none invented.
pub proof fn lemma_cluster_partition(s: Seq<AudioFileView>)
    ensures
        spec_all_tracks(spec_cluster_files(s)).to_multiset() == s.to_multiset(),
{
    lemma_keys_in_order_distinct(s);
    lemma_all_tracks_sum(s, spec_keys_in_order(s));
    lemma_sum_is_input(s);
}

/// The grouping key a cluster was built around, read off its fields.
pub open spec fn spec_key_of_cluster(c: AlbumClusterView) -> ClusterKeyView {
    ClusterKeyView {
        base_path: c.base_path,
        album_artist: c.album_artist,
        album: c.album,
        total_discs: c.total_discs,
    }
}

/// Every track of a cluster carries that cluster's grouping key; hence two
/// records that differ in any key field never land in the same cluster.
pub proof fn lemma_cluster_tracks_share_key(s: Seq<AudioFileView>)
    ensures
        forall|c: int, t: int|
            0 <= c < spec_cluster_files(s).len() && 0 <= t
                < spec_cluster_files(s)[c].tracks.len() ==> spec_cluster_key(
                #[trigger] spec_cluster_files(s)[c].tracks[t],
            ) == spec_key_of_cluster(spec_cluster_files(s)[c]),
{
    broadcast use vstd::seq_lib::group_to_multiset_ensures;
    broadcast use Seq::lemma_filter_pred;

    let m = spec_cluster_files(s);
    let keys = spec_keys_in_order(s);
    assert forall|c: int, t: int|
        0 <= c < m.len() && 0 <= t < m[c].tracks.len() implies spec_cluster_key(
        #[trigger] m[c].tracks[t],
    ) == spec_key_of_cluster(m[c]) by {
        let k = keys[c];
        let bucket = spec_tracks_for_key(s, k);
        let sorted = spec_sort_tracks(bucket);
        assert(m[c] == spec_cluster_of(s, k));
        crate::sorting::lemma_sort_tracks_multiset(bucket);
        let x = sorted[t];
        assert(sorted.contains(x));
        assert(bucket.to_multiset().count(x) > 0);
        assert(bucket.contains(x));
        let w = choose|w: int| 0 <= w < bucket.len() && bucket[w] == x;
        assert(spec_cluster_key(bucket[w]) == k);
        assert(spec_key_of_cluster(m[c]) =~= k);
    }
}

/// Two records with the same grouping key land in the same cluster.
pub proof fn lemma_same_key_same_cluster(s: Seq<AudioFileView>)
    ensures
        forall|i: int, j: int|
            0 <= i < s.len() && 0 <= j < s.len() && spec_cluster_key(#[trigger] s[i])
                == spec_cluster_key(#[trigger] s[j]) ==> exists|c: int|
                0 <= c < spec_cluster_files(s).len() && spec_cluster_files(s)[c].tracks.contains(
                    s[i],
                ) && spec_cluster_files(s)[c].tracks.contains(s[j]),
{
    broadcast use vstd::seq_lib::group_to_multiset_ensures;
    broadcast use Seq::lemma_filter_contains;

    let m = spec_cluster_files(s);
    let keys = spec_keys_in_order(s);
    lemma_keys_in_order_complete(s);
    assert forall|i: int, j: int|
        0 <= i < s.len() && 0 <= j < s.len() && spec_cluster_key(#[trigger] s[i])
            == spec_cluster_key(#[trigger] s[j]) implies exists|c: int|
        0 <= c < m.len() && m[c].tracks.contains(s[i]) && m[c].tracks.contains(s[j]) by {
        let k = spec_cluster_key(s[i]);
        assert(keys.contains(k));
        let c = choose|c: int| 0 <= c < keys.len() && keys[c] == k;
        let p = |y: AudioFileView| spec_cluster_key(y) == k;
        let bucket = spec_tracks_for_key(s, k);
        crate::sorting::lemma_sort_tracks_multiset(bucket);
        assert(p(s[i]) && p(s[j]));
        assert(bucket.contains(s[i]));
        assert(bucket.contains(s[j]));
        let sorted = spec_sort_tracks(bucket);
        assert(sorted.to_multiset().count(s[i]) > 0);
        assert(sorted.to_multiset().count(s[j]) > 0);
        assert(sorted.contains(s[i]) && sorted.contains(s[j]));
        assert(m[c] == spec_cluster_of(s, k));
        assert(m[c].tracks.contains(s[i]) && m[c].tracks.contains(s[j]));
    }
}

proof fn lemma_filter_to_multiset(s: Seq<AudioFileView>, p: spec_fn(AudioFileView) -> bool)
    ensures
        s.filter(p).to_multiset() == s.to_multiset().filter(p),
    decreases s.len(),
{
    broadcast use vstd::seq_lib::group_to_multiset_ensures;
    broadcast use vstd::multiset::group_multiset_axioms;

    if s.len() == 0 {
        crate::sorting::lemma_filter_empty(p);
        assert(s.to_multiset().len() == 0);
        assert(s.filter(p).to_multiset() =~= s.to_multiset().filter(p));
    } else {
        let dl = s.drop_last();
        let x = s.last();
        lemma_filter_to_multiset(dl, p);
        lemma_filter_push(dl, x, p);
        assert(dl.push(x) =~= s);
        if p(x) {
            assert(s.filter(p).to_multiset() == dl.filter(p).to_multiset().insert(x));
            assert(dl.filter(p).to_multiset().insert(x) =~= dl.to_multiset().insert(x).filter(p));
        } else {
            assert(s.filter(p) == dl.filter(p));
            assert(dl.to_multiset().filter(p) =~= dl.to_multiset().insert(x).filter(p));
        }
    }
}

/// Order independence: two inputs holding the same records (in any order)
/// produce the same grouping keys, and for each key the same bucket of
/// records.
pub proof fn lemma_cluster_files_order_independent(s1: Seq<AudioFileView>, s2: Seq<AudioFileView>)
    requires
        s1.to_multiset() == s2.to_multiset(),
    ensures
        forall|k: ClusterKeyView|
            spec_keys_in_order(s1).contains(k) <==> spec_keys_in_order(s2).contains(k),
        forall|k: ClusterKeyView| #[trigger]
            spec_tracks_for_key(s1, k).to_multiset() == spec_tracks_for_key(s2, k).to_multiset(),
{
    broadcast use vstd::seq_lib::group_to_multiset_ensures;
    broadcast use vstd::multiset::group_multiset_axioms;
    broadcast use Seq::lemma_filter_contains;

    lemma_keys_in_order_complete(s1);
    lemma_keys_in_order_complete(s2);
    lemma_keys_in_order_sound(s1);
    lemma_keys_in_order_sound(s2);
    assert forall|k: ClusterKeyView| #[trigger]
        spec_tracks_for_key(s1, k).to_multiset() == spec_tracks_for_key(s2, k).to_multiset() by {
        let p = |y: AudioFileView| spec_cluster_key(y) == k;
        lemma_filter_to_multiset(s1, p);
        lemma_filter_to_multiset(s2, p);
    }
    assert forall|k: ClusterKeyView|
        spec_keys_in_order(s1).contains(k) <==> spec_keys_in_order(s2).contains(k) by {
        let p = |y: AudioFileView| spec_cluster_key(y) == k;
        lemma_filter_to_multiset(s1, p);
        lemma_filter_to_multiset(s2, p);
        if spec_keys_in_order(s1).contains(k) {
            let w = choose|w: int|
                0 <= w < spec_keys_in_order(s1).len() && spec_keys_in_order(s1)[w] == k;
            let i = choose|i: int|
                0 <= i < s1.len() && spec_keys_in_order(s1)[w] == spec_cluster_key(s1[i]);
            assert(p(s1[i]));
            assert(spec_tracks_for_key(s1, k).contains(s1[i]));
            assert(spec_tracks_for_key(s1, k).to_multiset().count(s1[i]) > 0);
            assert(spec_tracks_for_key(s2, k).to_multiset().count(s1[i]) > 0);
            assert(s2.to_multiset().count(s1[i]) > 0);
            assert(s2.contains(s1[i]));
            let j = choose|j: int| 0 <= j < s2.len() && s2[j] == s1[i];
            assert(spec_keys_in_order(s2).contains(spec_cluster_key(s2[j])));
        }
        if spec_keys_in_order(s2).contains(k) {
            let w = choose|w: int|
                0 <= w < spec_keys_in_order(s2).len() && spec_keys_in_order(s2)[w] == k;
            let i = choose|i: int|
                0 <= i < s2.len() && spec_keys_in_order(s2)[w] == spec_cluster_key(s2[i]);
            assert(p(s2[i]));
            assert(spec_tracks_for_key(s2, k).contains(s2[i]));
            assert(spec_tracks_for_key(s2, k).to_multiset().count(s2[i]) > 0);
            assert(spec_tracks_for_key(s1, k).to_multiset().count(s2[i]) > 0);
            assert(s1.to_multiset().count(s2[i]) > 0);
            assert(s1.contains(s2[i]));
            let j = choose|j: int| 0 <= j < s1.len() && s1[j] == s2[i];
            assert(spec_keys_in_order(s1).contains(spec_cluster_key(s1[j])));
        }
    }
}

/// Every cluster's track list is non-decreasing in (disc-or-1, track-or-0).
pub proof fn lemma_cluster_tracks_sorted(s: Seq<AudioFileView>)
    ensures
        forall|c: int|
            0 <= c < spec_cluster_files(s).len() ==> crate::sorting::spec_sorted_tracks(
                #[trigger] spec_cluster_files(s)[c].tracks,
            ),
{
    let m = spec_cluster_files(s);
    let keys = spec_keys_in_order(s);
    assert forall|c: int| 0 <= c < m.len() implies crate::sorting::spec_sorted_tracks(
        #[trigger] m[c].tracks,
    ) by {
        crate::sorting::lemma_sort_tracks_sorted(spec_tracks_for_key(s, keys[c]));
        assert(m[c] == spec_cluster_of(s, keys[c]));
    }
}

/// Within a cluster, records with the same (disc-or-1, track-or-0) pair keep
/// the relative order they had in the input.
pub proof fn lemma_cluster_tracks_stable(s: Seq<AudioFileView>, c: int, d: u32, t: u32)
    requires
        0 <= c < spec_cluster_files(s).len(),
    ensures
        spec_cluster_files(s)[c].tracks.filter(
            |x: AudioFileView| crate::sorting::spec_has_pair(x, d, t),
        ) == spec_tracks_for_key(s, spec_keys_in_order(s)[c]).filter(
            |x: AudioFileView| crate::sorting::spec_has_pair(x, d, t),
        ),
{
    let keys = spec_keys_in_order(s);
    crate::sorting::lemma_sort_tracks_stable(spec_tracks_for_key(s, keys[c]), d, t);
    assert(spec_cluster_files(s)[c] == spec_cluster_of(s, keys[c]));
}

proof fn lemma_keys_append_uniform(a: Seq<AudioFileView>, chunk: Seq<AudioFileView>, k: ClusterKeyView)
    requires
        chunk.len() > 0,
        forall|i: int| 0 <= i < chunk.len() ==> spec_cluster_key(#[trigger] chunk[i]) == k,
    ensures
        spec_keys_in_order(a + chunk) == if spec_keys_in_order(a).contains(k) {
            spec_keys_in_order(a)
        } else {
            spec_keys_in_order(a).push(k)
        },
    decreases chunk.len(),
{
    if chunk.len() == 1 {
        assert((a + chunk).drop_last() =~= a);
        assert((a + chunk).last() == chunk[0]);
    } else {
        lemma_keys_append_uniform(a, chunk.drop_last(), k);
        assert((a + chunk).drop_last() =~= a + chunk.drop_last());
        assert((a + chunk).last() == chunk[chunk.len() - 1]);
        let rest = spec_keys_in_order(a + chunk.drop_last());
        assert(rest.contains(k)) by {
            if spec_keys_in_order(a).contains(k) {
                let w = choose|w: int|
                    0 <= w < spec_keys_in_order(a).len() && spec_keys_in_order(a)[w] == k;
                assert(rest[w] == k);
            } else {
                assert(rest[rest.len() - 1] == k);
            }
        }
    }
}

/// The flattened track lists of the first `g` clusters.
spec fn spec_partial_tracks(s: Seq<AudioFileView>, g: int) -> Seq<AudioFileView> {
    spec_cluster_files(s).take(g).map_values(|c: AlbumClusterView| c.tracks).flatten()
}

proof fn lemma_chunk_nonempty(s: Seq<AudioFileView>, c: int)
    requires
        0 <= c < spec_keys_in_order(s).len(),
    ensures
        spec_cluster_files(s)[c].tracks.len() > 0,
{
    broadcast use Seq::lemma_filter_contains;

    let keys = spec_keys_in_order(s);
    let k = keys[c];
    lemma_keys_in_order_sound(s);
    let i = choose|i: int| 0 <= i < s.len() && keys[c] == spec_cluster_key(s[i]);
    let p = |y: AudioFileView| spec_cluster_key(y) == k;
    assert(p(s[i]));
    assert(spec_tracks_for_key(s, k).contains(s[i]));
    crate::sorting::lemma_sort_tracks_multiset(spec_tracks_for_key(s, k));
    assert(spec_cluster_files(s)[c] == spec_cluster_of(s, k));
}

proof fn lemma_chunk_uniform(s: Seq<AudioFileView>, c: int)
    requires
        0 <= c < spec_keys_in_order(s).len(),
    ensures
        forall|i: int|
            0 <= i < spec_cluster_files(s)[c].tracks.len() ==> spec_cluster_key(
                #[trigger] spec_cluster_files(s)[c].tracks[i],
            ) == spec_keys_in_order(s)[c],
{
    lemma_cluster_tracks_share_key(s);
    let m = spec_cluster_files(s);
    assert forall|i: int| 0 <= i < m[c].tracks.len() implies spec_cluster_key(
        #[trigger] m[c].tracks[i],
    ) == spec_keys_in_order(s)[c] by {
        assert(spec_cluster_key(m[c].tracks[i]) == spec_key_of_cluster(m[c]));
        assert(m[c] == spec_cluster_of(s, spec_keys_in_order(s)[c]));
        assert(spec_key_of_cluster(m[c]) =~= spec_keys_in_order(s)[c]);
    }
}

proof fn lemma_partial_tracks_step(s: Seq<AudioFileView>, g: int)
    requires
        1 <= g <= spec_keys_in_order(s).len(),
    ensures
        spec_partial_tracks(s, g) == spec_partial_tracks(s, g - 1) + spec_cluster_files(
            s,
        )[g - 1].tracks,
{
    broadcast use Seq::lemma_flatten_push;

    let m = spec_cluster_files(s);
    let chunk = m[g - 1].tracks;
    assert(m.take(g).map_values(|c: AlbumClusterView| c.tracks) =~= m.take(g - 1).map_values(
        |c: AlbumClusterView| c.tracks,
    ).push(chunk));
}

proof fn lemma_take_not_contains(keys: Seq<ClusterKeyView>, g: int, k: ClusterKeyView)
    requires
        0 <= g <= keys.len(),
        forall|i: int, j: int| 0 <= i < j < keys.len() ==> #[trigger] keys[i] != #[trigger] keys[j],
        g < keys.len() ==> k == keys[g],
        g == keys.len() ==> !keys.contains(k),
    ensures
        !keys.take(g).contains(k),
{
    if keys.take(g).contains(k) {
        let w = choose|w: int| 0 <= w < g && #[trigger] keys.take(g)[w] == k;
        assert(keys[w] == k);
        if g == keys.len() {
            assert(keys.contains(k));
        }
        assert(false);
    }
}

proof fn lemma_partial_keys(s: Seq<AudioFileView>, g: int)
    requires
        0 <= g <= spec_keys_in_order(s).len(),
    ensures
        spec_keys_in_order(spec_partial_tracks(s, g)) == spec_keys_in_order(s).take(g),
    decreases g,
{
    let m = spec_cluster_files(s);
    let keys = spec_keys_in_order(s);
    if g == 0 {
        assert(m.take(0).map_values(|c: AlbumClusterView| c.tracks) =~= Seq::<
            Seq<AudioFileView>,
        >::empty());
        assert(spec_partial_tracks(s, 0) =~= Seq::<AudioFileView>::empty());
        assert(spec_keys_in_order(spec_partial_tracks(s, g)) =~= keys.take(0));
    } else {
        lemma_partial_keys(s, g - 1);
        lemma_partial_tracks_step(s, g);
        lemma_chunk_nonempty(s, g - 1);
        lemma_chunk_uniform(s, g - 1);
        lemma_keys_in_order_distinct(s);
        let prev = spec_partial_tracks(s, g - 1);
        let chunk = m[g - 1].tracks;
        let k = keys[g - 1];
        lemma_keys_append_uniform(prev, chunk, k);
        lemma_take_not_contains(keys, g - 1, k);
        assert(!keys.take(g - 1).contains(k));
        assert(spec_keys_in_order(prev + chunk) =~= keys.take(g));
    }
}

proof fn lemma_partial_unseen_empty(s: Seq<AudioFileView>, g: int, k: ClusterKeyView)
    requires
        0 <= g <= spec_keys_in_order(s).len(),
        !spec_keys_in_order(s).take(g).contains(k),
    ensures
        spec_tracks_for_key(spec_partial_tracks(s, g), k) == Seq::<AudioFileView>::empty(),
    decreases g,
{
    broadcast use Seq::filter_distributes_over_add;

    let m = spec_cluster_files(s);
    let keys = spec_keys_in_order(s);
    let p = |y: AudioFileView| spec_cluster_key(y) == k;
    if g == 0 {
        assert(m.take(0).map_values(|c: AlbumClusterView| c.tracks) =~= Seq::<
            Seq<AudioFileView>,
        >::empty());
        assert(spec_partial_tracks(s, 0) =~= Seq::<AudioFileView>::empty());
        crate::sorting::lemma_filter_empty(p);
    } else {
        assert(!keys.take(g - 1).contains(k)) by {
            if keys.take(g - 1).contains(k) {
                let w = choose|w: int| 0 <= w < g - 1 && #[trigger] keys.take(g - 1)[w] == k;
                assert(keys.take(g)[w] == k);
            }
        }
        lemma_partial_unseen_empty(s, g - 1, k);
        lemma_partial_tracks_step(s, g);
        lemma_chunk_uniform(s, g - 1);
        let prev = spec_partial_tracks(s, g - 1);
        let chunk = m[g - 1].tracks;
        assert(k != keys[g - 1]) by {
            if k == keys[g - 1] {
                assert(keys.take(g)[g - 1] == k);
            }
        }
        assert forall|i: int| 0 <= i < chunk.len() implies !p(#[trigger] chunk[i]) by {}
        lemma_filter_none(chunk, p);
        assert((prev + chunk).filter(p) == prev.filter(p) + chunk.filter(p));
        assert(prev.filter(p) + chunk.filter(p) =~= Seq::<AudioFileView>::empty());
    }
}

proof fn lemma_partial_bucket(s: Seq<AudioFileView>, g: int, c: int)
    requires
        0 <= c < g <= spec_keys_in_order(s).len(),
    ensures
        spec_tracks_for_key(spec_partial_tracks(s, g), spec_keys_in_order(s)[c])
            == spec_cluster_files(s)[c].tracks,
    decreases g,
{
    broadcast use Seq::filter_distributes_over_add;

    lemma_partial_tracks_step(s, g);
    lemma_chunk_uniform(s, g - 1);
    lemma_keys_in_order_distinct(s);
    let m = spec_cluster_files(s);
    let keys = spec_keys_in_order(s);
    let prev = spec_partial_tracks(s, g - 1);
    let chunk = m[g - 1].tracks;
    let p = |y: AudioFileView| spec_cluster_key(y) == keys[c];
    assert((prev + chunk).filter(p) == prev.filter(p) + chunk.filter(p));
    if c < g - 1 {
        lemma_partial_bucket(s, g - 1, c);
        assert forall|i: int| 0 <= i < chunk.len() implies !p(#[trigger] chunk[i]) by {
            assert(keys[c] != keys[g - 1]);
        }
        lemma_filter_none(chunk, p);
        assert(prev.filter(p) + Seq::<AudioFileView>::empty() =~= prev.filter(p));
    } else {
        lemma_take_not_contains(keys, g - 1, keys[c]);
        lemma_partial_unseen_empty(s, g - 1, keys[c]);
        assert(prev.filter(p) == Seq::<AudioFileView>::empty());
        crate::sorting::lemma_filter_all(chunk, p);
        assert(Seq::<AudioFileView>::empty() + chunk =~= chunk);
    }
}

/// Idempotence: running the cluster builder on the flattened track lists of
/// its own output reproduces the same cluster list.
pub proof fn lemma_cluster_idempotent(s: Seq<AudioFileView>)
    ensures
        spec_cluster_files(spec_all_tracks(spec_cluster_files(s))) == spec_cluster_files(s),
{
    let m = spec_cluster_files(s);
    let keys = spec_keys_in_order(s);
    let t = spec_all_tracks(m);
    lemma_partial_keys(s, keys.len() as int);
    assert(m.take(keys.len() as int) =~= m);
    assert(t == spec_partial_tracks(s, keys.len() as int));
    assert(spec_keys_in_order(t) =~= keys.take(keys.len() as int));
    assert(keys.take(keys.len() as int) =~= keys);
    assert forall|c: int| 0 <= c < keys.len() implies #[trigger] spec_cluster_files(t)[c] == m[c] by {
        lemma_partial_bucket(s, keys.len() as int, c);
        assert(spec_tracks_for_key(t, keys[c]) == m[c].tracks);
        crate::sorting::lemma_sort_tracks_sorted(spec_tracks_for_key(s, keys[c]));
        assert(m[c] == spec_cluster_of(s, keys[c]));
        crate::sorting::lemma_sort_tracks_idempotent(m[c].tracks);
        assert(spec_cluster_files(t)[c] == spec_cluster_of(t, keys[c]));
        assert(spec_cluster_of(t, keys[c]) =~= m[c]);
    }
    assert(spec_cluster_files(t) =~= m);
}

} // verus!
