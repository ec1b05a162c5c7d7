//! The catalog lookup stage's message logic.
//!
//! The stage drains clusters one at a time, announces each search before
//! issuing it, and classifies every outcome: candidates found, none found,
//! or a failure. The remote call itself is the caller's concern; this module
//! decides exactly which message each outcome produces.

use crate::models::{AlbumCluster, AlbumClusterView, CandidateMatch, CandidateMatchView};
use vstd::prelude::*;
use vstd::string::StringExecFns;

verus! {

/// An event emitted by the lookup stage towards the orchestrator.
#[derive(Debug)]
pub enum SearchMessage {
    /// A lookup for this cluster is about to be issued; carries the status
    /// line to show.
    Searching(AlbumCluster, String),
    /// The catalog returned at least one candidate, in catalog order.
    Results(AlbumCluster, Vec<CandidateMatch>),
    /// The catalog returned no candidates.
    NoResults(AlbumCluster),
    /// The lookup failed; carries a human-readable message.
    Error(AlbumCluster, String),
}

/// The mathematical model of a lookup-stage event.
pub ghost enum SearchMessageView {
    Searching(AlbumClusterView, Seq<char>),
    Results(AlbumClusterView, Seq<CandidateMatchView>),
    NoResults(AlbumClusterView),
    Error(AlbumClusterView, Seq<char>),
}

impl View for SearchMessage {
    type V = SearchMessageView;

    open spec fn view(&self) -> SearchMessageView {
        match self {
            SearchMessage::Searching(c, s) => SearchMessageView::Searching(c@, s@),
            SearchMessage::Results(c, r) => SearchMessageView::Results(c@, r.deep_view()),
            SearchMessage::NoResults(c) => SearchMessageView::NoResults(c@),
            SearchMessage::Error(c, t) => SearchMessageView::Error(c@, t@),
        }
    }
}

/// The status line announced before a lookup is issued.
pub open spec fn spec_searching_status(c: AlbumClusterView) -> Seq<char> {
    "Searching for "@ + c.album_artist + " - "@ + c.album + "..."@
}

/// The status line for a failed lookup.
pub open spec fn spec_search_failed(e: Seq<char>) -> Seq<char> {
    "Search failed: "@ + e
}

/// The status line for a lookup that returned no candidates.
pub open spec fn spec_no_results_status(c: AlbumClusterView) -> Seq<char> {
    "No results for "@ + c.album_artist + " - "@ + c.album
}

/// Renders the status line for a lookup that returned no candidates.
pub fn no_results_status(cluster: &AlbumCluster) -> (r: String)
    ensures
        r@ == spec_no_results_status(cluster@),
{
    let mut r = "No results for ".to_owned();
    r.append(cluster.album_artist.as_str());
    r.append(" - ");
    r.append(cluster.album.as_str());
    proof {
        assert(r@ =~= spec_no_results_status(cluster@));
    }
    r
}

/// The message announcing that a cluster's lookup is about to be issued.
pub fn searching_message(cluster: AlbumCluster) -> (m: SearchMessage)
    ensures
        m matches SearchMessage::Searching(c, status) && c@ == cluster@ && status@
            == spec_searching_status(cluster@),
{
    let mut status = "Searching for ".to_owned();
    status.append(cluster.album_artist.as_str());
    status.append(" - ");
    status.append(cluster.album.as_str());
    status.append("...");
    proof {
        assert(status@ =~= spec_searching_status(cluster@));
    }
    SearchMessage::Searching(cluster, status)
}

/// Classifies a lookup outcome: one or more candidates give `Results`, an
/// empty list gives `NoResults`, and a failure gives `Error` with the
/// failure text — exactly one of the three, decided by the outcome alone.
pub fn outcome_message(cluster: AlbumCluster, outcome: Result<Vec<CandidateMatch>, String>) -> (m:
    SearchMessage)
    ensures
        (match outcome {
            Ok(candidates) => if candidates.deep_view().len() > 0 {
                m matches SearchMessage::Results(c, r) && c@ == cluster@ && r.deep_view()
                    == candidates.deep_view()
            } else {
                m matches SearchMessage::NoResults(c) && c@ == cluster@
            },
            Err(e) => m matches SearchMessage::Error(c, t) && c@ == cluster@ && t@
                == spec_search_failed(e@),
        }),
{
    match outcome {
        Ok(candidates) => {
            if candidates.len() == 0 {
                SearchMessage::NoResults(cluster)
            } else {
                SearchMessage::Results(cluster, candidates)
            }
        },
        Err(e) => {
            let mut t = "Search failed: ".to_owned();
            t.append(e.as_str());
            proof {
                assert(t@ =~= spec_search_failed(e@));
            }
            SearchMessage::Error(cluster, t)
        },
    }
}

/// The summed track count across a release's media, saturating at the
/// 32-bit maximum.
pub open spec fn spec_sum_saturating(counts: Seq<u32>) -> int
    decreases counts.len(),
{
    if counts.len() == 0 {
        0int
    } else {
        let rest = spec_sum_saturating(counts.drop_last());
        if rest + counts.last() > u32::MAX {
            u32::MAX as int
        } else {
            rest + counts.last()
        }
    }
}

/// Sums a release's per-medium track counts, saturating at the 32-bit
/// maximum.
pub fn sum_track_counts(counts: &Vec<u32>) -> (r: u32)
    ensures
        r == spec_sum_saturating(counts@),
{
    let mut total: u32 = 0;
    let mut i: usize = 0;
    while i < counts.len()
        invariant
            i <= counts@.len(),
            total == spec_sum_saturating(counts@.take(i as int)),
        decreases counts@.len() - i,
    {
        let c = counts[i];
        if total > u32::MAX - c {
            total = u32::MAX;
        } else {
            total = total + c;
        }
        i = i + 1;
        proof {
            assert(counts@.take(i as int).drop_last() =~= counts@.take(i as int - 1));
        }
    }
    proof {
        assert(counts@.take(counts@.len() as int) =~= counts@);
    }
    total
}

} // verus!
