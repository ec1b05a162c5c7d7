//! The orchestrator: the sole owner of the interface-visible state.
//!
//! Walker progress, lookup events and user input all funnel into this state
//! machine, one event at a time. Every transition is a total function of the
//! current state and the event; events that a state does not know are
//! no-ops. A first-in-first-out queue of lookup results keeps reviews
//! strictly ordered: only one album is presented for tagging at a time, and
//! dismissing it presents the oldest queued result next.
//!
//! While a review or the cluster list is shown, the background scan's data
//! lives in a stashed snapshot; returning to the scanning display restores
//! it. The driving loop — channels, terminal, clock — lives outside the
//! library and hands plain values in.

use crate::cluster::{cluster_files, spec_cluster_files};
use crate::lookup::{no_results_status, spec_no_results_status, SearchMessage, SearchMessageView};
use crate::models::{
    clone_files, AlbumCluster, AlbumClusterView, AudioFile, AudioFileView, CandidateMatch,
    CandidateMatchView, PendingResult, PendingResultView,
};
use crate::textfmt::{scan_status_line, spec_scan_status};
use std::collections::VecDeque;
use vstd::prelude::*;

verus! {

/// A progress report from the walker: the directory under scan and the
/// running count of clusters found.
#[derive(Debug)]
pub struct ScanProgress {
    pub current_dir: String,
    pub clusters_found: usize,
}

/// The interface-visible state; exactly one is live at a time.
#[derive(Debug)]
pub enum AppState {
    /// The walk is running or has finished; the interface shows progress.
    Scanning {
        path: String,
        files_found: Vec<AudioFile>,
        current_file: Option<String>,
        is_complete: bool,
    },
    /// One cluster's catalog candidates are under review.
    AutoTagging { cluster: AlbumCluster, results: Vec<CandidateMatch>, selected_idx: usize },
    /// All clusters found by a finished scan, with a selection.
    ClusterList { clusters: Vec<AlbumCluster>, selected_idx: usize },
    /// A failed walk; only quitting leaves this state.
    Error { message: String },
}

/// The mathematical model of the interface-visible state.
pub ghost enum AppStateView {
    Scanning {
        path: Seq<char>,
        files_found: Seq<AudioFileView>,
        current_file: Option<Seq<char>>,
        is_complete: bool,
    },
    AutoTagging { cluster: AlbumClusterView, results: Seq<CandidateMatchView>, selected_idx: usize },
    ClusterList { clusters: Seq<AlbumClusterView>, selected_idx: usize },
    Error { message: Seq<char> },
}

impl View for AppState {
    type V = AppStateView;

    open spec fn view(&self) -> AppStateView {
        match self {
            AppState::Scanning { path, files_found, current_file, is_complete } => {
                AppStateView::Scanning {
                    path: path@,
                    files_found: files_found.deep_view(),
                    current_file: crate::models::view_opt_str(*current_file),
                    is_complete: *is_complete,
                }
            },
            AppState::AutoTagging { cluster, results, selected_idx } => {
                AppStateView::AutoTagging {
                    cluster: cluster@,
                    results: results.deep_view(),
                    selected_idx: *selected_idx,
                }
            },
            AppState::ClusterList { clusters, selected_idx } => {
                AppStateView::ClusterList {
                    clusters: clusters.deep_view(),
                    selected_idx: *selected_idx,
                }
            },
            AppState::Error { message } => AppStateView::Error { message: message@ },
        }
    }
}

/// The background scan snapshot kept while another state is shown.
#[derive(Debug)]
pub struct ScanInfo {
    pub path: String,
    pub files_found: Vec<AudioFile>,
    pub current_file: Option<String>,
    pub is_complete: bool,
}

/// The mathematical model of the scan snapshot.
pub ghost struct ScanInfoView {
    pub path: Seq<char>,
    pub files_found: Seq<AudioFileView>,
    pub current_file: Option<Seq<char>>,
    pub is_complete: bool,
}

impl View for ScanInfo {
    type V = ScanInfoView;

    open spec fn view(&self) -> ScanInfoView {
        ScanInfoView {
            path: self.path@,
            files_found: self.files_found.deep_view(),
            current_file: crate::models::view_opt_str(self.current_file),
            is_complete: self.is_complete,
        }
    }
}

/// The scanning state a snapshot restores to.
pub open spec fn spec_scanning_of(info: ScanInfoView) -> AppStateView {
    AppStateView::Scanning {
        path: info.path,
        files_found: info.files_found,
        current_file: info.current_file,
        is_complete: info.is_complete,
    }
}

/// The snapshot a scanning state stashes.
pub open spec fn spec_snapshot_of(state: AppStateView) -> Option<ScanInfoView> {
    match state {
        AppStateView::Scanning { path, files_found, current_file, is_complete } => {
            Some(ScanInfoView { path, files_found, current_file, is_complete })
        },
        _ => None,
    }
}

/// A user input, already decoded from the terminal by the caller.
#[derive(Debug, Clone, Copy, PartialEq, Eq, Structural)]
pub enum InputEvent {
    /// Leave the program (the quit key or an interrupt).
    Quit,
    /// Confirm: start clustering after a finished scan, or ask for a lookup
    /// of the selected cluster in the cluster list.
    Confirm,
    /// Move the selection up.
    Up,
    /// Move the selection down.
    Down,
    /// Accept the selected candidate (a placeholder: it only dismisses).
    Apply,
    /// Dismiss the current review.
    Skip,
    /// Ask for a manual search (a placeholder: it only dismisses).
    ManualSearch,
}

/// The orchestrator.
pub struct App {
    /// The live interface state.
    pub state: AppState,
    /// The background scan snapshot; present exactly while `state` is not
    /// `Scanning`.
    pub scan: Option<ScanInfo>,
    /// Lookup results awaiting review, oldest first.
    pub pending: VecDeque<PendingResult>,
    /// Set once the quit input arrives; the driving loop then stops.
    pub should_quit: bool,
}

impl App {
    /// The model of the scan snapshot.
    pub open spec fn scan_view(self) -> Option<ScanInfoView> {
        match self.scan {
            Some(i) => Some(i@),
            None => None,
        }
    }

    /// The model of the pending queue, oldest first.
    pub open spec fn pending_view(self) -> Seq<PendingResultView> {
        self.pending.deep_view()
    }

    /// Well-formedness: the snapshot exists exactly while the state is not
    /// `Scanning`, and every selection index is clamped to its list.
    pub open spec fn wf(self) -> bool {
        &&& (self.state matches AppState::Scanning { .. }) <==> (self.scan is None)
        &&& (self.state matches AppState::AutoTagging { results, selected_idx, .. } ==> (
        if results.deep_view().len() == 0 {
            selected_idx == 0
        } else {
            (selected_idx as int) < results.deep_view().len()
        }))
        &&& (self.state matches AppState::ClusterList { clusters, selected_idx } ==> (
        if clusters.deep_view().len() == 0 {
            selected_idx == 0
        } else {
            (selected_idx as int) < clusters.deep_view().len()
        }))
    }

    /// A fresh orchestrator: scanning the given root, nothing found yet,
    /// nothing pending.
    pub fn new(path: String) -> (app: App)
        ensures
            app.wf(),
            app.state@ == (AppStateView::Scanning {
                path: path@,
                files_found: Seq::<AudioFileView>::empty(),
                current_file: None::<Seq<char>>,
                is_complete: false,
            }),
            app.pending_view() == Seq::<PendingResultView>::empty(),
            !app.should_quit,
    {
        let files: Vec<AudioFile> = Vec::new();
        proof {
            assert(files.deep_view() =~= Seq::<AudioFileView>::empty());
        }
        let app = App {
            state: AppState::Scanning {
                path,
                files_found: files,
                current_file: None,
                is_complete: false,
            },
            scan: None,
            pending: VecDeque::new(),
            should_quit: false,
        };
        proof {
            assert(app.pending_view() =~= Seq::<PendingResultView>::empty());
        }
        app
    }

    /// Walker progress: while scanning, show the directory and cluster
    /// count; any other state ignores it.
    pub fn on_scan_progress(&mut self, progress: ScanProgress)
        requires
            old(self).wf(),
        ensures
            final(self).wf(),
            final(self).state@ == match old(self).state@ {
                AppStateView::Scanning { path, files_found, current_file, is_complete } => {
                    AppStateView::Scanning {
                        path,
                        files_found,
                        current_file: Some(
                            spec_scan_status(
                                progress.current_dir@,
                                progress.clusters_found as nat,
                            ),
                        ),
                        is_complete,
                    }
                },
                other => other,
            },
            final(self).scan == old(self).scan,
            final(self).pending == old(self).pending,
            final(self).should_quit == old(self).should_quit,
    {
        match &mut self.state {
            AppState::Scanning { current_file, .. } => {
                *current_file = Some(
                    scan_status_line(progress.current_dir.as_str(), progress.clusters_found),
                );
            },
            _ => {},
        }
    }

    /// Walk completion: while scanning, record the full file list, clear the
    /// status line and mark the scan complete; any other state ignores it.
    pub fn complete_scan(&mut self, files: Vec<AudioFile>)
        requires
            old(self).wf(),
        ensures
            final(self).wf(),
            final(self).state@ == match old(self).state@ {
                AppStateView::Scanning { path, .. } => AppStateView::Scanning {
                    path,
                    files_found: files.deep_view(),
                    current_file: None::<Seq<char>>,
                    is_complete: true,
                },
                other => other,
            },
            final(self).scan == old(self).scan,
            final(self).pending == old(self).pending,
            final(self).should_quit == old(self).should_quit,
    {
        let mut taken = AppState::Error { message: String::new() };
        core::mem::swap(&mut self.state, &mut taken);
        match taken {
            AppState::Scanning { path, .. } => {
                self.state = AppState::Scanning {
                    path,
                    files_found: files,
                    current_file: None,
                    is_complete: true,
                };
            },
            other => {
                self.state = other;
            },
        }
    }

    /// A walk failure: the terminal error state, from anywhere. A scanning
    /// state stashes its snapshot first so well-formedness is kept.
    pub fn set_error(&mut self, message: String)
        requires
            old(self).wf(),
        ensures
            final(self).wf(),
            final(self).state@ == (AppStateView::Error { message: message@ }),
            final(self).scan_view() == match spec_snapshot_of(old(self).state@) {
                Some(info) => Some(info),
                None => old(self).scan_view(),
            },
            final(self).pending == old(self).pending,
            final(self).should_quit == old(self).should_quit,
    {
        let mut taken = AppState::Error { message };
        core::mem::swap(&mut self.state, &mut taken);
        match taken {
            AppState::Scanning { path, files_found, current_file, is_complete } => {
                self.scan = Some(ScanInfo { path, files_found, current_file, is_complete });
            },
            _ => {},
        }
    }
    /// A lookup status line shown while scanning; other states ignore it.
    pub open spec fn spec_status_update(state: AppStateView, status: Seq<char>) -> AppStateView {
        match state {
            AppStateView::Scanning { path, files_found, current_file, is_complete } => {
                AppStateView::Scanning {
                    path,
                    files_found,
                    current_file: Some(status),
                    is_complete,
                }
            },
            other => other,
        }
    }

    /// A lookup event.
    ///
    /// `Searching`, `NoResults` and `Error` only update the scanning status
    /// line: in particular a cluster without results is never presented for
    /// review. `Results` enqueues the pair in the pending queue; if no
    /// cluster is under review and the scan display is live, the front of
    /// the queue is presented at once. The error state ignores every
    /// pipeline event.
    pub fn handle_search_message(&mut self, msg: SearchMessage)
        requires
            old(self).wf(),
        ensures
            final(self).wf(),
            final(self).should_quit == old(self).should_quit,
            match msg@ {
                SearchMessageView::Searching(_, status) => {
                    &&& final(self).state@ == Self::spec_status_update(old(self).state@, status)
                    &&& final(self).scan == old(self).scan
                    &&& final(self).pending == old(self).pending
                },
                SearchMessageView::NoResults(c) => {
                    &&& final(self).state@ == Self::spec_status_update(
                        old(self).state@,
                        spec_no_results_status(c),
                    )
                    &&& final(self).scan == old(self).scan
                    &&& final(self).pending == old(self).pending
                },
                SearchMessageView::Error(_, t) => {
                    &&& final(self).state@ == Self::spec_status_update(old(self).state@, t)
                    &&& final(self).scan == old(self).scan
                    &&& final(self).pending == old(self).pending
                },
                SearchMessageView::Results(c, r) => match old(self).state@ {
                    AppStateView::Error { .. } => {
                        &&& final(self).state == old(self).state
                        &&& final(self).scan == old(self).scan
                        &&& final(self).pending == old(self).pending
                    },
                    AppStateView::Scanning { .. } => {
                        let q = old(self).pending_view().push(
                            PendingResultView { cluster: c, candidates: r },
                        );
                        &&& final(self).state@ == (AppStateView::AutoTagging {
                            cluster: q[0].cluster,
                            results: q[0].candidates,
                            selected_idx: 0,
                        })
                        &&& final(self).pending_view() == q.drop_first()
                        &&& final(self).scan_view() == spec_snapshot_of(old(self).state@)
                    },
                    _ => {
                        &&& final(self).state == old(self).state
                        &&& final(self).scan == old(self).scan
                        &&& final(self).pending_view() == old(self).pending_view().push(
                            PendingResultView { cluster: c, candidates: r },
                        )
                    },
                },
            },
    {
        match msg {
            SearchMessage::Searching(_, status) => {
                match &mut self.state {
                    AppState::Scanning { current_file, .. } => {
                        *current_file = Some(status);
                    },
                    _ => {},
                }
            },
            SearchMessage::NoResults(c) => {
                match &mut self.state {
                    AppState::Scanning { current_file, .. } => {
                        *current_file = Some(no_results_status(&c));
                    },
                    _ => {},
                }
            },
            SearchMessage::Error(_, t) => {
                match &mut self.state {
                    AppState::Scanning { current_file, .. } => {
                        *current_file = Some(t);
                    },
                    _ => {},
                }
            },
            SearchMessage::Results(c, r) => {
                let in_error = match &self.state {
                    AppState::Error { .. } => true,
                    _ => false,
                };
                if !in_error {
                    let ghost cv = c@;
                    let ghost rv = r.deep_view();
                    let ghost qpre = self.pending.deep_view();
                    self.pending.push_back(PendingResult { cluster: c, candidates: r });
                    proof {
                        assert(self.pending.deep_view() =~= qpre.push(
                            PendingResultView { cluster: cv, candidates: rv },
                        ));
                    }
                    let is_scanning = match &self.state {
                        AppState::Scanning { .. } => true,
                        _ => false,
                    };
                    if is_scanning {
                        let mut taken = AppState::Error { message: String::new() };
                        core::mem::swap(&mut self.state, &mut taken);
                        match taken {
                            AppState::Scanning { path, files_found, current_file, is_complete } => {
                                self.scan = Some(
                                    ScanInfo { path, files_found, current_file, is_complete },
                                );
                            },
                            other => {
                                proof {
                                    assert(false);
                                }
                                self.state = other;
                            },
                        }
                        let ghost qfull = self.pending.deep_view();
                        match self.pending.pop_front() {
                            Some(p) => {
                                self.state = AppState::AutoTagging {
                                    cluster: p.cluster,
                                    results: p.candidates,
                                    selected_idx: 0,
                                };
                                proof {
                                    assert(self.pending.deep_view() =~= qfull.drop_first());
                                    assert(p@ == qfull[0]);
                                }
                            },
                            None => {
                                proof {
                                    assert(false);
                                }
                            },
                        }
                    }
                }
            },
        }
    }

    /// The selection index one step down, clamped to the list.
    pub open spec fn spec_next_idx(i: usize, len: nat) -> usize {
        if len == 0 {
            i
        } else if (i as nat) + 1 < len {
            (i + 1) as usize
        } else {
            (len - 1) as usize
        }
    }

    /// The selection index one step up, stopping at the top.
    pub open spec fn spec_prev_idx(i: usize) -> usize {
        if i > 0 {
            (i - 1) as usize
        } else {
            0
        }
    }

    /// Moves the selection one step down, clamped to the list; states
    /// without a selection ignore it.
    pub fn select_next(&mut self)
        requires
            old(self).wf(),
        ensures
            final(self).wf(),
            final(self).state@ == match old(self).state@ {
                AppStateView::AutoTagging { cluster, results, selected_idx } => {
                    AppStateView::AutoTagging {
                        cluster,
                        results,
                        selected_idx: Self::spec_next_idx(selected_idx, results.len()),
                    }
                },
                AppStateView::ClusterList { clusters, selected_idx } => {
                    AppStateView::ClusterList {
                        clusters,
                        selected_idx: Self::spec_next_idx(selected_idx, clusters.len()),
                    }
                },
                other => other,
            },
            final(self).scan == old(self).scan,
            final(self).pending == old(self).pending,
            final(self).should_quit == old(self).should_quit,
    {
        match &mut self.state {
            AppState::AutoTagging { results, selected_idx, .. } => {
                if results.len() > 0 {
                    if *selected_idx + 1 < results.len() {
                        *selected_idx = *selected_idx + 1;
                    } else {
                        *selected_idx = results.len() - 1;
                    }
                }
            },
            AppState::ClusterList { clusters, selected_idx } => {
                if clusters.len() > 0 {
                    if *selected_idx + 1 < clusters.len() {
                        *selected_idx = *selected_idx + 1;
                    } else {
                        *selected_idx = clusters.len() - 1;
                    }
                }
            },
            _ => {},
        }
    }

    /// Moves the selection one step up, stopping at the top; states without
    /// a selection ignore it.
    pub fn select_previous(&mut self)
        requires
            old(self).wf(),
        ensures
            final(self).wf(),
            final(self).state@ == match old(self).state@ {
                AppStateView::AutoTagging { cluster, results, selected_idx } => {
                    AppStateView::AutoTagging {
                        cluster,
                        results,
                        selected_idx: Self::spec_prev_idx(selected_idx),
                    }
                },
                AppStateView::ClusterList { clusters, selected_idx } => {
                    AppStateView::ClusterList {
                        clusters,
                        selected_idx: Self::spec_prev_idx(selected_idx),
                    }
                },
                other => other,
            },
            final(self).scan == old(self).scan,
            final(self).pending == old(self).pending,
            final(self).should_quit == old(self).should_quit,
    {
        match &mut self.state {
            AppState::AutoTagging { selected_idx, .. } => {
                if *selected_idx > 0 {
                    *selected_idx = *selected_idx - 1;
                }
            },
            AppState::ClusterList { selected_idx, .. } => {
                if *selected_idx > 0 {
                    *selected_idx = *selected_idx - 1;
                }
            },
            _ => {},
        }
    }

    /// A user input.
    ///
    /// Quit stops the run loop from any state. Confirm turns a finished
    /// scan into the cluster list, and in the cluster list asks for an
    /// on-demand lookup of the selected cluster — returned to the caller,
    /// which owns the pipeline (a placeholder contract: the library does
    /// not issue the lookup itself). Apply, skip and manual-search all
    /// dismiss the current review; the next pending result is presented,
    /// or the scan display returns. Navigation moves the selection.
    pub fn handle_input(&mut self, input: InputEvent) -> (lookup_request: Option<usize>)
        requires
            old(self).wf(),
        ensures
            final(self).wf(),
            input != InputEvent::Quit ==> final(self).should_quit == old(self).should_quit,
            match input {
                InputEvent::Quit => {
                    &&& final(self).should_quit
                    &&& final(self).state == old(self).state
                    &&& final(self).scan == old(self).scan
                    &&& final(self).pending == old(self).pending
                    &&& lookup_request is None
                },
                InputEvent::Up => {
                    &&& final(self).state@ == match old(self).state@ {
                        AppStateView::AutoTagging { cluster, results, selected_idx } => {
                            AppStateView::AutoTagging {
                                cluster,
                                results,
                                selected_idx: Self::spec_prev_idx(selected_idx),
                            }
                        },
                        AppStateView::ClusterList { clusters, selected_idx } => {
                            AppStateView::ClusterList {
                                clusters,
                                selected_idx: Self::spec_prev_idx(selected_idx),
                            }
                        },
                        other => other,
                    }
                    &&& final(self).scan == old(self).scan
                    &&& final(self).pending == old(self).pending
                    &&& lookup_request is None
                },
                InputEvent::Down => {
                    &&& final(self).state@ == match old(self).state@ {
                        AppStateView::AutoTagging { cluster, results, selected_idx } => {
                            AppStateView::AutoTagging {
                                cluster,
                                results,
                                selected_idx: Self::spec_next_idx(selected_idx, results.len()),
                            }
                        },
                        AppStateView::ClusterList { clusters, selected_idx } => {
                            AppStateView::ClusterList {
                                clusters,
                                selected_idx: Self::spec_next_idx(selected_idx, clusters.len()),
                            }
                        },
                        other => other,
                    }
                    &&& final(self).scan == old(self).scan
                    &&& final(self).pending == old(self).pending
                    &&& lookup_request is None
                },
                InputEvent::Confirm => match old(self).state@ {
                    AppStateView::Scanning { is_complete, files_found, .. } => {
                        if is_complete {
                            &&& final(self).state@ == (AppStateView::ClusterList {
                                clusters: spec_cluster_files(files_found),
                                selected_idx: 0,
                            })
                            &&& final(self).scan_view() == spec_snapshot_of(old(self).state@)
                            &&& final(self).pending == old(self).pending
                            &&& lookup_request is None
                        } else {
                            &&& final(self).state == old(self).state
                            &&& final(self).scan == old(self).scan
                            &&& final(self).pending == old(self).pending
                            &&& lookup_request is None
                        }
                    },
                    AppStateView::ClusterList { clusters, selected_idx } => {
                        &&& final(self).state == old(self).state
                        &&& final(self).scan == old(self).scan
                        &&& final(self).pending == old(self).pending
                        &&& lookup_request == if clusters.len() > 0 {
                            Some(selected_idx)
                        } else {
                            None::<usize>
                        }
                    },
                    _ => {
                        &&& final(self).state == old(self).state
                        &&& final(self).scan == old(self).scan
                        &&& final(self).pending == old(self).pending
                        &&& lookup_request is None
                    },
                },
                InputEvent::Apply | InputEvent::Skip | InputEvent::ManualSearch => match old(
                    self,
                ).state@ {
                    AppStateView::AutoTagging { .. } => {
                        if old(self).pending_view().len() > 0 {
                            &&& final(self).state@ == (AppStateView::AutoTagging {
                                cluster: old(self).pending_view()[0].cluster,
                                results: old(self).pending_view()[0].candidates,
                                selected_idx: 0,
                            })
                            &&& final(self).pending_view() == old(self).pending_view().drop_first()
                            &&& final(self).scan == old(self).scan
                            &&& lookup_request is None
                        } else {
                            &&& final(self).state@ == spec_scanning_of(
                                old(self).scan_view().unwrap(),
                            )
                            &&& final(self).scan_view() is None
                            &&& final(self).pending_view() == old(self).pending_view()
                            &&& lookup_request is None
                        }
                    },
                    _ => {
                        &&& final(self).state == old(self).state
                        &&& final(self).scan == old(self).scan
                        &&& final(self).pending == old(self).pending
                        &&& lookup_request is None
                    },
                },
            },
    {
        match input {
            InputEvent::Quit => {
                self.should_quit = true;
                None
            },
            InputEvent::Up => {
                self.select_previous();
                None
            },
            InputEvent::Down => {
                self.select_next();
                None
            },
            InputEvent::Confirm => {
                let is_scanning = match &self.state {
                    AppState::Scanning { .. } => true,
                    _ => false,
                };
                if is_scanning {
                    let mut taken = AppState::Error { message: String::new() };
                    core::mem::swap(&mut self.state, &mut taken);
                    match taken {
                        AppState::Scanning { path, files_found, current_file, is_complete } => {
                            if is_complete {
                                let copy = clone_files(&files_found);
                                let clusters = cluster_files(copy);
                                self.scan = Some(
                                    ScanInfo { path, files_found, current_file, is_complete },
                                );
                                self.state = AppState::ClusterList { clusters, selected_idx: 0 };
                            } else {
                                self.state = AppState::Scanning {
                                    path,
                                    files_found,
                                    current_file,
                                    is_complete,
                                };
                            }
                        },
                        other => {
                            proof {
                                assert(false);
                            }
                            self.state = other;
                        },
                    }
                    None
                } else {
                    match &self.state {
                        AppState::ClusterList { clusters, selected_idx } => {
                            if clusters.len() > 0 {
                                Some(*selected_idx)
                            } else {
                                None
                            }
                        },
                        _ => None,
                    }
                }
            },
            InputEvent::Apply | InputEvent::Skip | InputEvent::ManualSearch => {
                let in_review = match &self.state {
                    AppState::AutoTagging { .. } => true,
                    _ => false,
                };
                if in_review {
                    let ghost qpre = self.pending.deep_view();
                    match self.pending.pop_front() {
                        Some(p) => {
                            self.state = AppState::AutoTagging {
                                cluster: p.cluster,
                                results: p.candidates,
                                selected_idx: 0,
                            };
                            proof {
                                assert(self.pending.deep_view() =~= qpre.drop_first());
                                assert(p@ == qpre[0]);
                            }
                        },
                        None => {
                            match self.scan.take() {
                                Some(info) => {
                                    self.state = AppState::Scanning {
                                        path: info.path,
                                        files_found: info.files_found,
                                        current_file: info.current_file,
                                        is_complete: info.is_complete,
                                    };
                                },
                                None => {
                                    proof {
                                        assert(false);
                                    }
                                },
                            }
                        },
                    }
                }
                None
            },
        }
    }

    /// Number of lookup results waiting for review.
    pub fn pending_count(&self) -> (n: usize)
        ensures
            n == self.pending_view().len(),
    {
        self.pending.len()
    }
}

} // verus!
