use crate::graph::{create_graph, graph_edges, graph_nodes, valid_releases, Graph, GraphError};
use crate::registry::{collect_releases, found_releases, trim_protocol, trim_protocol_spec};
use crate::release::Release;
use vstd::prelude::*;
use vstd::string::StringExecFns;

verus! {

/// Largest number of repository scans in flight at once.
pub const MAX_REPO_SCANS: usize = 5;

/// Where a repository lives and how to log in to it.
#[derive(Clone, Debug)]
pub struct RepoConfig {
    pub hostname: String,
    pub repository: String,
    pub username: Option<String>,
    pub password: Option<String>,
}

/// The scanning agent: starts a scan of one repository every period, keeping
/// at most `MAX_REPO_SCANS` of them in flight and cancelling the oldest when a
/// new one would exceed that.
pub struct RegistryScanner {
    period_secs: u64,
    repository: RepoConfig,
    scans: Vec<u64>,
    next_scan: u64,
}

/// What starting a scan did: the scan it cancelled, if any, and the new one.
pub struct ScanStart {
    pub cancelled: Option<u64>,
    pub started: u64,
}

impl RegistryScanner {
    /// Identifiers of the scans in flight, oldest first.
    pub closed spec fn scans_view(&self) -> Seq<u64> {
        self.scans@
    }

    pub closed spec fn next_scan_view(&self) -> u64 {
        self.next_scan
    }

    pub closed spec fn period_view(&self) -> u64 {
        self.period_secs
    }

    pub closed spec fn config_view(&self) -> RepoConfig {
        self.repository
    }

    /// Never more than `MAX_REPO_SCANS` scans in flight.
    pub open spec fn wf(&self) -> bool {
        self.scans_view().len() <= MAX_REPO_SCANS
    }

    /// A scanner with no scan in flight; the registry address loses its scheme.
    pub fn new(
        period_secs: u64,
        registry: &str,
        repository: String,
        username: Option<String>,
        password: Option<String>,
    ) -> (s: RegistryScanner)
        ensures
            s.wf(),
            s.scans_view().len() == 0,
            s.next_scan_view() == 0,
            s.period_view() == period_secs,
            s.config_view().hostname@ == trim_protocol_spec(registry@),
            s.config_view().repository == repository,
            s.config_view().username == username,
            s.config_view().password == password,
    {
        let hostname = String::from_str(trim_protocol(registry));
        RegistryScanner {
            period_secs,
            repository: RepoConfig { hostname, repository, username, password },
            scans: Vec::new(),
            next_scan: 0,
        }
    }

    /// Seconds between two scans.
    pub fn period_secs(&self) -> (r: u64)
        ensures
            r == self.period_view(),
    {
        self.period_secs
    }

    /// The repository that is scanned.
    pub fn config(&self) -> (r: &RepoConfig)
        ensures
            *r == self.config_view(),
    {
        &self.repository
    }

    /// Number of scans in flight.
    pub fn in_flight(&self) -> (r: usize)
        ensures
            r == self.scans_view().len(),
    {
        self.scans.len()
    }

    /// Starts a scan. When `MAX_REPO_SCANS` are in flight already, the oldest
    /// is cancelled first.
    pub fn start_scan(&mut self) -> (r: ScanStart)
        requires
            old(self).wf(),
        ensures
            final(self).wf(),
            r.started == old(self).next_scan_view(),
            final(self).next_scan_view() == old(self).next_scan_view().wrapping_add(1),
            final(self).period_view() == old(self).period_view(),
            final(self).config_view() == old(self).config_view(),
            old(self).scans_view().len() >= MAX_REPO_SCANS ==> {
                &&& r.cancelled == Some(old(self).scans_view()[0])
                &&& final(self).scans_view() == old(self).scans_view().drop_first().push(r.started)
            },
            old(self).scans_view().len() < MAX_REPO_SCANS ==> {
                &&& r.cancelled is None
                &&& final(self).scans_view() == old(self).scans_view().push(r.started)
            },
    {
        let cancelled = if self.scans.len() >= MAX_REPO_SCANS {
            Some(self.scans.remove(0))
        } else {
            None
        };
        let started = self.next_scan;
        self.next_scan = self.next_scan.wrapping_add(1);
        self.scans.push(started);
        ScanStart { cancelled, started }
    }

    /// Marks a scan as finished; it is no longer in flight.
    pub fn finish_scan(&mut self, id: u64)
        requires
            old(self).wf(),
        ensures
            final(self).wf(),
            final(self).scans_view() == old(self).scans_view().filter(|s: u64| s != id),
            final(self).next_scan_view() == old(self).next_scan_view(),
            final(self).period_view() == old(self).period_view(),
            final(self).config_view() == old(self).config_view(),
    {
        let ghost orig = self.scans@;
        let mut kept: Vec<u64> = Vec::new();
        let mut i: usize = 0;
        while i < self.scans.len()
            invariant
                self.scans@ == orig,
                i <= orig.len(),
                kept@ == orig.subrange(0, i as int).filter(|s: u64| s != id),
            decreases orig.len() - i,
        {
            let s = self.scans[i];
            proof {
                reveal_with_fuel(Seq::filter, 1);
                assert(orig.subrange(0, i + 1).drop_last() =~= orig.subrange(0, i as int));
            }
            if s != id {
                kept.push(s);
            }
            i = i + 1;
        }
        proof {
            assert(orig.subrange(0, orig.len() as int) =~= orig);
            orig.filter_lemma(|s: u64| s != id);
        }
        self.scans = kept;
    }
}


/// Why logging in to the registry failed.
pub enum AuthError {
    /// The registry does not speak the v2 protocol.
    ProtocolUnsupported,
    /// The credentials were not exchanged for a token.
    LoginFailed,
    /// The registry did not accept the token it issued.
    TokenRejected,
}

/// Where an authentication stands.
pub enum AuthState {
    /// Asking whether the registry supports the v2 protocol.
    CheckingProtocol,
    /// Exchanging the credentials for a token.
    LoggingIn,
    /// Checking that the registry accepts this token.
    VerifyingToken(String),
    /// Authenticated with this token.
    Authenticated(String),
    Failed(AuthError),
}

/// What the registry answered to the pending authentication request.
pub enum AuthEvent {
    ProtocolChecked(bool),
    /// The token obtained, or `None` when the login failed.
    LoggedIn(Option<String>),
    TokenChecked(bool),
}

/// The next authentication state. An answer that does not fit the pending
/// request leaves the state as it was; a finished authentication stays finished.
pub fn auth_next(state: AuthState, event: AuthEvent) -> (r: AuthState)
    ensures
        state is CheckingProtocol && event == AuthEvent::ProtocolChecked(true) ==> r is LoggingIn,
        state is CheckingProtocol && event == AuthEvent::ProtocolChecked(false) ==> r == AuthState::Failed(
            AuthError::ProtocolUnsupported,
        ),
        state is LoggingIn && event is LoggedIn ==> match event->LoggedIn_0 {
            Some(t) => r == AuthState::VerifyingToken(t),
            None => r == AuthState::Failed(AuthError::LoginFailed),
        },
        state is VerifyingToken && event == AuthEvent::TokenChecked(true) ==> r == AuthState::Authenticated(
            state->VerifyingToken_0,
        ),
        state is VerifyingToken && event == AuthEvent::TokenChecked(false) ==> r == AuthState::Failed(
            AuthError::TokenRejected,
        ),
        !(state is CheckingProtocol && event is ProtocolChecked) && !(state is LoggingIn
            && event is LoggedIn) && !(state is VerifyingToken && event is TokenChecked) ==> r == state,
{
    match state {
        AuthState::CheckingProtocol => match event {
            AuthEvent::ProtocolChecked(true) => AuthState::LoggingIn,
            AuthEvent::ProtocolChecked(false) => AuthState::Failed(AuthError::ProtocolUnsupported),
            _ => AuthState::CheckingProtocol,
        },
        AuthState::LoggingIn => match event {
            AuthEvent::LoggedIn(Some(t)) => AuthState::VerifyingToken(t),
            AuthEvent::LoggedIn(None) => AuthState::Failed(AuthError::LoginFailed),
            _ => AuthState::LoggingIn,
        },
        AuthState::VerifyingToken(t) => match event {
            AuthEvent::TokenChecked(true) => AuthState::Authenticated(t),
            AuthEvent::TokenChecked(false) => AuthState::Failed(AuthError::TokenRejected),
            _ => AuthState::VerifyingToken(t),
        },
        other => other,
    }
}


/// The graph of a finished scan cycle: built from the releases that its tags
/// yielded, in tag order.
pub fn cycle_graph(yielded: Vec<Option<Release>>) -> (r: Result<Graph, GraphError>)
    ensures
        r is Ok <==> valid_releases(found_releases(yielded@)),
        r matches Ok(g) ==> {
            &&& g.wf()
            &&& g.node_set() == graph_nodes(found_releases(yielded@))
            &&& g.edge_set() == graph_edges(found_releases(yielded@))
        },
{
    create_graph(collect_releases(yielded))
}

/// Why a scan cycle stopped before building a graph.
pub enum CycleAbort {
    Auth(AuthError),
    /// The repository's tags could not be listed.
    TagListFailed,
}

/// Where a scan cycle stands.
pub enum CyclePhase {
    Authenticating,
    ListingTags,
    ScanningTags,
    Aborted(CycleAbort),
}

/// What a finished scan cycle does with the serving snapshot.
pub enum CycleAction {
    /// Serialize this graph and publish it.
    Publish(Graph),
    /// Leave the previous snapshot in place.
    KeepSnapshot,
}

/// The phase after authentication ends in `auth`.
pub open spec fn phase_after_auth(phase: CyclePhase, auth: AuthState) -> CyclePhase {
    match (phase, auth) {
        (CyclePhase::Authenticating, AuthState::Authenticated(_)) => CyclePhase::ListingTags,
        (CyclePhase::Authenticating, AuthState::Failed(e)) => CyclePhase::Aborted(CycleAbort::Auth(e)),
        (p, _) => p,
    }
}

/// The phase after the tag listing succeeded (`listed`) or failed.
pub open spec fn phase_after_listing(phase: CyclePhase, listed: bool) -> CyclePhase {
    match phase {
        CyclePhase::ListingTags => if listed {
            CyclePhase::ScanningTags
        } else {
            CyclePhase::Aborted(CycleAbort::TagListFailed)
        },
        p => p,
    }
}

/// The bookkeeping of one scan cycle: its phase, and the answers of its tags
/// in the order the tags arrived.
pub struct ScanCycle {
    phase: CyclePhase,
    yielded: Vec<Option<Release>>,
}

impl ScanCycle {
    pub closed spec fn phase_view(&self) -> CyclePhase {
        self.phase
    }

    pub closed spec fn yielded_view(&self) -> Seq<Option<Release>> {
        self.yielded@
    }

    /// A cycle that is about to authenticate.
    pub fn new() -> (c: ScanCycle)
        ensures
            c.phase_view() is Authenticating,
            c.yielded_view() == Seq::<Option<Release>>::empty(),
    {
        ScanCycle { phase: CyclePhase::Authenticating, yielded: Vec::new() }
    }

    /// The phase the cycle is in.
    pub fn phase(&self) -> (r: &CyclePhase)
        ensures
            *r == self.phase_view(),
    {
        &self.phase
    }

    /// Authentication ended in `auth`: a failure aborts the cycle.
    pub fn on_auth(&mut self, auth: &AuthState)
        ensures
            final(self).phase_view() == phase_after_auth(old(self).phase_view(), *auth),
            final(self).yielded_view() == old(self).yielded_view(),
    {
        if let CyclePhase::Authenticating = self.phase {
            match auth {
                AuthState::Authenticated(_) => self.phase = CyclePhase::ListingTags,
                AuthState::Failed(e) => {
                    let e = match e {
                        AuthError::ProtocolUnsupported => AuthError::ProtocolUnsupported,
                        AuthError::LoginFailed => AuthError::LoginFailed,
                        AuthError::TokenRejected => AuthError::TokenRejected,
                    };
                    self.phase = CyclePhase::Aborted(CycleAbort::Auth(e));
                },
                _ => {},
            }
        }
    }

    /// The tag listing succeeded (`listed`) or failed: a failure aborts the cycle.
    pub fn on_tag_list(&mut self, listed: bool)
        ensures
            final(self).phase_view() == phase_after_listing(old(self).phase_view(), listed),
            final(self).yielded_view() == old(self).yielded_view(),
    {
        if let CyclePhase::ListingTags = self.phase {
            self.phase = if listed {
                CyclePhase::ScanningTags
            } else {
                CyclePhase::Aborted(CycleAbort::TagListFailed)
            };
        }
    }

    /// A tag is settled: `Some(answer)` when its answer is known (from the
    /// cache or from its layers), `None` when fetching it failed, in which case
    /// the tag is skipped and the scan goes on.
    pub fn on_tag(&mut self, answer: Option<Option<Release>>)
        ensures
            final(self).phase_view() == old(self).phase_view(),
            old(self).phase_view() is ScanningTags && answer is Some ==> final(self).yielded_view()
                == old(self).yielded_view().push(answer->Some_0),
            !(old(self).phase_view() is ScanningTags && answer is Some) ==> final(self).yielded_view()
                == old(self).yielded_view(),
    {
        if let CyclePhase::ScanningTags = self.phase {
            if let Some(a) = answer {
                self.yielded.push(a);
            }
        }
    }

    /// Ends the cycle. A cycle that scanned its tags and was not cancelled
    /// publishes the graph of the releases found, unless that graph cannot be
    /// built; any other cycle leaves the snapshot as it is.
    pub fn finish(self, cancelled: bool) -> (r: CycleAction)
        ensures
            !(self.phase_view() is ScanningTags) || cancelled ==> r is KeepSnapshot,
            self.phase_view() is ScanningTags && !cancelled ==> {
                &&& r is Publish <==> valid_releases(found_releases(self.yielded_view()))
                &&& r matches CycleAction::Publish(g) ==> {
                    &&& g.wf()
                    &&& g.node_set() == graph_nodes(found_releases(self.yielded_view()))
                    &&& g.edge_set() == graph_edges(found_releases(self.yielded_view()))
                }
            },
    {
        let scanning = match self.phase {
            CyclePhase::ScanningTags => true,
            _ => false,
        };
        if !scanning || cancelled {
            return CycleAction::KeepSnapshot;
        }
        match cycle_graph(self.yielded) {
            Ok(g) => CycleAction::Publish(g),
            Err(_) => CycleAction::KeepSnapshot,
        }
    }
}

/// A cycle whose authentication fails never reaches its tags, whatever the
/// tag listing would answer, and so never publishes: the snapshot stays as it
/// was.
pub proof fn lemma_auth_failure_keeps_snapshot(e: AuthError, listed: bool)
    ensures
        phase_after_auth(CyclePhase::Authenticating, AuthState::Failed(e)) is Aborted,
        !(phase_after_listing(phase_after_auth(CyclePhase::Authenticating, AuthState::Failed(e)), listed) is ScanningTags),
{
}

/// A tag that yields nothing adds no release, wherever it stands: the
/// releases of a cycle are those of its other tags, in the same order.
pub proof fn lemma_empty_tag_adds_nothing(before: Seq<Option<Release>>, after: Seq<Option<Release>>)
    ensures
        found_releases(before + seq![None::<Release>] + after) == found_releases(before + after),
    decreases after.len(),
{
    if after.len() == 0 {
        assert(before + seq![None::<Release>] + after =~= before.push(None));
        assert(before.push(None).drop_last() =~= before);
        assert(before + after =~= before);
    } else {
        lemma_empty_tag_adds_nothing(before, after.drop_last());
        let s1 = before + seq![None::<Release>] + after;
        let s2 = before + after;
        assert(s1.drop_last() =~= before + seq![None::<Release>] + after.drop_last());
        assert(s2.drop_last() =~= before + after.drop_last());
        assert(s1.last() == after.last());
        assert(s2.last() == after.last());
    }
}

} // verus!
