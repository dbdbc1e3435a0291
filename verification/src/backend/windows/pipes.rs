//! Asking WinUSB for the pipes of an interface.
//!
//! WinUSB numbers the pipes of an interface and describes the pipe of a number, or fails where
//! there is none. Both [`PipeScan`] and [`PipeSearch`] ask for one pipe after the other, until
//! the first failure and never for more than [`MAX_PIPES`].

use vstd::prelude::*;

verus! {

/// The most pipes of an interface that are asked for.
pub const MAX_PIPES: u8 = 32;

/// The handle of an interface, as a number.
pub type Handle = usize;

/// What WinUSB tells about a pipe.
#[derive(Debug, Clone, Copy, PartialEq, Eq, Structural)]
pub struct PipeInfo {
    pub pipe_type: i32,
    /// The address of the endpoint.
    pub pipe_id: u8,
    pub max_packet_size: u16,
    pub interval: u8,
}

// ---------------------------------------------------------------------------
// All pipes of one interface
// ---------------------------------------------------------------------------

/// Collects the endpoints of an interface.
#[derive(Debug)]
pub struct PipeScan {
    endpoints: Vec<u8>,
    done: bool,
}

/// A [`PipeScan`] with its endpoints as a sequence.
#[verifier::ext_equal]
pub struct ScanView {
    pub endpoints: Seq<u8>,
    pub done: bool,
}

impl View for PipeScan {
    type V = ScanView;

    closed spec fn view(&self) -> ScanView {
        ScanView { endpoints: self.endpoints@, done: self.done }
    }
}

impl ScanView {
    /// A scan that has asked for nothing yet.
    pub open spec fn start() -> ScanView {
        ScanView { endpoints: Seq::empty(), done: false }
    }

    /// The number of the pipe that the scan asks for.
    pub open spec fn question(self) -> Option<int> {
        if self.done {
            None
        } else {
            Some(self.endpoints.len() as int)
        }
    }

    /// The scan after it was told about the pipe that it asked for, or that there is none.
    pub open spec fn answered(self, pipe: Option<PipeInfo>) -> ScanView {
        if self.done {
            self
        } else {
            match pipe {
                Some(p) => ScanView {
                    endpoints: self.endpoints.push(p.pipe_id),
                    done: self.endpoints.len() + 1 >= MAX_PIPES,
                },
                None => ScanView { done: true, ..self },
            }
        }
    }
}

impl PipeScan {
    #[verifier::type_invariant]
    closed spec fn wf(self) -> bool {
        self.endpoints@.len() <= MAX_PIPES && (self.endpoints@.len() == MAX_PIPES ==> self.done)
    }

    /// Begins a scan.
    pub fn start() -> (s: PipeScan)
        ensures
            s@ == ScanView::start(),
    {
        PipeScan { endpoints: Vec::new(), done: false }
    }

    /// The number of the pipe that the scan asks for.
    pub fn question(&self) -> (q: Option<u8>)
        ensures
            match q {
                Some(n) => self@.question() == Some(n as int) && n < MAX_PIPES,
                None => self@.question() is None,
            },
    {
        proof {
            use_type_invariant(self);
        }
        if self.done {
            None
        } else {
            Some(self.endpoints.len() as u8)
        }
    }

    /// Goes on with the answer of WinUSB.
    pub fn answer(self, pipe: Option<PipeInfo>) -> (s: PipeScan)
        ensures
            s@ == self@.answered(pipe),
    {
        proof {
            use_type_invariant(&self);
        }
        if self.done {
            return self;
        }
        let mut endpoints: Vec<u8> = self.endpoints;
        let mut done: bool = true;
        if let Some(p) = pipe {
            endpoints.push(p.pipe_id);
            done = endpoints.len() >= MAX_PIPES as usize;
        }
        PipeScan { endpoints, done }
    }

    /// The endpoints of the interface, in the order of their pipes.
    pub fn into_endpoints(self) -> (endpoints: Vec<u8>)
        ensures
            endpoints@ == self@.endpoints,
    {
        self.endpoints
    }
}

/// A scan after `steps` answers about an interface with the given pipes.
pub open spec fn scanned(pipes: Seq<PipeInfo>, s: ScanView, steps: nat) -> ScanView
    decreases steps,
{
    if steps == 0 {
        s
    } else {
        scanned(pipes, s.answered(pipe_at(pipes, s.endpoints.len() as int)), (steps - 1) as nat)
    }
}

/// The pipe of a number.
pub open spec fn pipe_at(pipes: Seq<PipeInfo>, n: int) -> Option<PipeInfo> {
    if n < pipes.len() {
        Some(pipes[n])
    } else {
        None
    }
}

/// The endpoints of the first pipes, as many as are asked for.
pub open spec fn first_endpoints(pipes: Seq<PipeInfo>) -> Seq<u8> {
    let n = if pipes.len() < MAX_PIPES {
        pipes.len() as int
    } else {
        MAX_PIPES as int
    };
    pipes.take(n).map_values(|p: PipeInfo| p.pipe_id)
}

/// A scan of an interface ends with the endpoints of its first pipes, and after no more
/// questions than there can be pipes.
pub proof fn law_scan_collects_the_endpoints(pipes: Seq<PipeInfo>)
    ensures
        scanned(pipes, ScanView::start(), MAX_PIPES as nat) == (ScanView {
            endpoints: first_endpoints(pipes),
            done: true,
        }),
{
    assert(Seq::<u8>::empty() =~= pipes.take(0).map_values(|p: PipeInfo| p.pipe_id));
    lemma_scanned(pipes, ScanView::start(), MAX_PIPES as nat);
}

/// What a scan has collected after `steps` more answers.
proof fn lemma_scanned(pipes: Seq<PipeInfo>, s: ScanView, steps: nat)
    requires
        s.endpoints.len() <= MAX_PIPES,
        s.endpoints.len() <= pipes.len(),
        s.endpoints == pipes.take(s.endpoints.len() as int).map_values(|p: PipeInfo| p.pipe_id),
        s.done <==> s.endpoints.len() == MAX_PIPES,
        s.endpoints.len() + steps == MAX_PIPES,
    ensures
        scanned(pipes, s, steps) == (ScanView { endpoints: first_endpoints(pipes), done: true }),
    decreases steps,
{
    if steps > 0 {
        let n = s.endpoints.len() as int;
        let next = s.answered(pipe_at(pipes, n));
        if n < pipes.len() {
            assert(next.endpoints =~= pipes.take(n + 1).map_values(|p: PipeInfo| p.pipe_id));
            lemma_scanned(pipes, next, (steps - 1) as nat);
        } else {
            assert(pipes.take(n) =~= pipes);
            assert(next.endpoints == first_endpoints(pipes));
            lemma_scan_done(pipes, next, (steps - 1) as nat);
        }
    }
}

/// A scan that is done stays as it is.
proof fn lemma_scan_done(pipes: Seq<PipeInfo>, s: ScanView, steps: nat)
    requires
        s.done,
    ensures
        scanned(pipes, s, steps) == s,
    decreases steps,
{
    if steps > 0 {
        lemma_scan_done(pipes, s, (steps - 1) as nat);
    }
}

// ---------------------------------------------------------------------------
// The pipe of an endpoint
// ---------------------------------------------------------------------------

/// Searches interfaces for the pipe of an endpoint.
#[derive(Debug)]
pub struct PipeSearch {
    endpoint: u8,
    candidates: Vec<Handle>,
    at: usize,
    index: u8,
    found: Option<(Handle, PipeInfo)>,
}

/// A [`PipeSearch`] with its candidates as a sequence.
#[verifier::ext_equal]
pub struct SearchView {
    pub endpoint: u8,
    pub candidates: Seq<Handle>,
    /// The candidate that is being searched, and the number of its next pipe.
    pub at: int,
    pub index: int,
    pub found: Option<(Handle, PipeInfo)>,
}

impl View for PipeSearch {
    type V = SearchView;

    closed spec fn view(&self) -> SearchView {
        SearchView {
            endpoint: self.endpoint,
            candidates: self.candidates@,
            at: self.at as int,
            index: self.index as int,
            found: self.found,
        }
    }
}

impl SearchView {
    /// A search that has asked for nothing yet.
    pub open spec fn start(endpoint: u8, candidates: Seq<Handle>) -> SearchView {
        SearchView { endpoint, candidates, at: 0, index: 0, found: None }
    }

    /// The interface and the number of the pipe that the search asks for.
    pub open spec fn question(self) -> Option<(Handle, int)> {
        if self.found is None && self.at < self.candidates.len() {
            Some((self.candidates[self.at], self.index))
        } else {
            None
        }
    }

    /// The search at the first pipe of the next candidate.
    pub open spec fn next_candidate(self) -> SearchView {
        SearchView { at: self.at + 1, index: 0, ..self }
    }

    /// The search after it was told about the pipe that it asked for, or that there is none.
    pub open spec fn answered(self, pipe: Option<PipeInfo>) -> SearchView {
        if self.question() is None {
            self
        } else {
            match pipe {
                Some(p) => if p.pipe_id == self.endpoint {
                    SearchView { found: Some((self.candidates[self.at], p)), ..self }
                } else if self.index + 1 >= MAX_PIPES {
                    self.next_candidate()
                } else {
                    SearchView { index: self.index + 1, ..self }
                },
                None => self.next_candidate(),
            }
        }
    }
}

impl PipeSearch {
    #[verifier::type_invariant]
    closed spec fn wf(self) -> bool {
        self.index < MAX_PIPES && self.at <= self.candidates@.len()
    }

    /// Begins a search of the given interfaces.
    pub fn start(endpoint: u8, candidates: Vec<Handle>) -> (s: PipeSearch)
        ensures
            s@ == SearchView::start(endpoint, candidates@),
    {
        PipeSearch { endpoint, candidates, at: 0, index: 0, found: None }
    }

    /// The interface and the number of the pipe that the search asks for.
    pub fn question(&self) -> (q: Option<(Handle, u8)>)
        ensures
            match q {
                Some((h, n)) => self@.question() == Some((h, n as int)) && n < MAX_PIPES,
                None => self@.question() is None,
            },
    {
        proof {
            use_type_invariant(self);
        }
        if self.found.is_none() && self.at < self.candidates.len() {
            Some((self.candidates[self.at], self.index))
        } else {
            None
        }
    }

    /// Goes on with the answer of WinUSB.
    pub fn answer(self, pipe: Option<PipeInfo>) -> (s: PipeSearch)
        ensures
            s@ == self@.answered(pipe),
    {
        proof {
            use_type_invariant(&self);
        }
        if self.found.is_some() || self.at >= self.candidates.len() {
            return self;
        }
        let endpoint: u8 = self.endpoint;
        let at: usize = self.at;
        let index: u8 = self.index;
        let candidates: Vec<Handle> = self.candidates;
        match pipe {
            Some(p) => if p.pipe_id == endpoint {
                let found: Option<(Handle, PipeInfo)> = Some((candidates[at], p));
                PipeSearch { endpoint, candidates, at, index, found }
            } else if index + 1 >= MAX_PIPES {
                PipeSearch { endpoint, candidates, at: at + 1, index: 0, found: None }
            } else {
                PipeSearch { endpoint, candidates, at, index: index + 1, found: None }
            },
            None => PipeSearch { endpoint, candidates, at: at + 1, index: 0, found: None },
        }
    }

    /// The interface and the pipe that the search found.
    pub fn found(&self) -> (r: Option<(Handle, PipeInfo)>)
        ensures
            r == self@.found,
    {
        self.found
    }
}

/// A search after `steps` answers of a system in which each interface has the given pipes.
pub open spec fn searched(
    pipes: spec_fn(Handle) -> Seq<PipeInfo>,
    s: SearchView,
    steps: nat,
) -> SearchView
    decreases steps,
{
    if steps == 0 {
        s
    } else {
        searched(
            pipes,
            s.answered(pipe_at(pipes(s.candidates[s.at]), s.index)),
            (steps - 1) as nat,
        )
    }
}

/// Whether the pipe of number `n` is the first one of an endpoint.
pub open spec fn is_pipe_of(pipes: Seq<PipeInfo>, endpoint: u8, n: int) -> bool {
    &&& 0 <= n < pipes.len()
    &&& n < MAX_PIPES
    &&& pipes[n].pipe_id == endpoint
    &&& forall|j: int| 0 <= j < n ==> (#[trigger] pipes[j]).pipe_id != endpoint
}

/// Whether no pipe that is asked for is one of an endpoint.
pub open spec fn has_no_pipe(pipes: Seq<PipeInfo>, endpoint: u8) -> bool {
    forall|j: int|
        0 <= j < pipes.len() && j < MAX_PIPES ==> (#[trigger] pipes[j]).pipe_id != endpoint
}

/// Whether `found` is the first pipe of an endpoint in the first of the candidates that has
/// one, or nothing where none has.
pub open spec fn is_first_pipe(
    pipes: spec_fn(Handle) -> Seq<PipeInfo>,
    candidates: Seq<Handle>,
    endpoint: u8,
    found: Option<(Handle, PipeInfo)>,
) -> bool {
    match found {
        Some((h, p)) => exists|k: int, n: int|
            {
                &&& 0 <= k < candidates.len()
                &&& candidates[k] == h
                &&& #[trigger] is_pipe_of(pipes(candidates[k]), endpoint, n)
                &&& pipes(h)[n] == p
                &&& forall|j: int|
                    0 <= j < k ==> has_no_pipe(pipes(#[trigger] candidates[j]), endpoint)
            },
        None => forall|j: int|
            0 <= j < candidates.len() ==> has_no_pipe(pipes(#[trigger] candidates[j]), endpoint),
    }
}

/// What holds of a search at any time.
spec fn search_inv(pipes: spec_fn(Handle) -> Seq<PipeInfo>, s: SearchView) -> bool {
    &&& 0 <= s.at <= s.candidates.len()
    &&& 0 <= s.index < MAX_PIPES
    &&& forall|j: int|
        0 <= j < s.at ==> has_no_pipe(pipes(#[trigger] s.candidates[j]), s.endpoint)
    &&& s.found is None && s.at < s.candidates.len() ==> {
        let ps = pipes(s.candidates[s.at]);
        s.index <= ps.len() && forall|j: int|
            0 <= j < s.index ==> (#[trigger] ps[j]).pipe_id != s.endpoint
    }
    &&& s.found is Some ==> is_first_pipe(pipes, s.candidates, s.endpoint, s.found)
}

/// An answer keeps the invariant.
proof fn lemma_search_step(pipes: spec_fn(Handle) -> Seq<PipeInfo>, s: SearchView)
    requires
        search_inv(pipes, s),
    ensures
        search_inv(pipes, s.answered(pipe_at(pipes(s.candidates[s.at]), s.index))),
{
    if s.question() is Some {
        let ps = pipes(s.candidates[s.at]);
        if s.index < ps.len() && ps[s.index].pipe_id == s.endpoint {
            assert(is_pipe_of(pipes(s.candidates[s.at]), s.endpoint, s.index));
        }
    }
}

/// The invariant holds after any number of answers.
proof fn lemma_searched(pipes: spec_fn(Handle) -> Seq<PipeInfo>, s: SearchView, steps: nat)
    requires
        search_inv(pipes, s),
    ensures
        search_inv(pipes, searched(pipes, s, steps)),
        searched(pipes, s, steps).candidates == s.candidates,
        searched(pipes, s, steps).endpoint == s.endpoint,
    decreases steps,
{
    if steps > 0 {
        lemma_search_step(pipes, s);
        lemma_searched(
            pipes,
            s.answered(pipe_at(pipes(s.candidates[s.at]), s.index)),
            (steps - 1) as nat,
        );
    }
}

/// A search comes to an end.
proof fn lemma_search_ends(pipes: spec_fn(Handle) -> Seq<PipeInfo>, s: SearchView) -> (steps: nat)
    requires
        search_inv(pipes, s),
    ensures
        searched(pipes, s, steps).question() is None,
    decreases
            (if s.found is None {
                1int
            } else {
                0int
            }),
            s.candidates.len() - s.at,
            MAX_PIPES - s.index,
{
    if s.question() is None {
        0
    } else {
        lemma_search_step(pipes, s);
        let next = s.answered(pipe_at(pipes(s.candidates[s.at]), s.index));
        let n = lemma_search_ends(pipes, next);
        n + 1
    }
}

/// A search comes to an end, and has found the first pipe of the endpoint in the first of the
/// interfaces that has one, or nothing where none has.
pub proof fn law_search_finds_the_first_pipe(
    pipes: spec_fn(Handle) -> Seq<PipeInfo>,
    endpoint: u8,
    candidates: Seq<Handle>,
)
    ensures
        exists|steps: nat|
            (#[trigger] searched(
                pipes,
                SearchView::start(endpoint, candidates),
                steps,
            )).question() is None,
        forall|steps: nat|
            {
                let s = #[trigger] searched(pipes, SearchView::start(endpoint, candidates), steps);
                s.question() is None ==> is_first_pipe(pipes, candidates, endpoint, s.found)
            },
{
    let start = SearchView::start(endpoint, candidates);
    let n = lemma_search_ends(pipes, start);
    assert(searched(pipes, start, n).question() is None);
    assert forall|steps: nat|
        {
            let s = #[trigger] searched(pipes, start, steps);
            s.question() is None ==> is_first_pipe(pipes, candidates, endpoint, s.found)
        } by {
        lemma_searched(pipes, start, steps);
    }
}

// ---------------------------------------------------------------------------
// Single questions
// ---------------------------------------------------------------------------

/// A scan of an interface with up to 32 pipes ends with the endpoint of each of them, in their
/// order, and one of an interface with more with those of the first 32.
pub proof fn law_scan_has_the_endpoint_of_every_pipe(pipes: Seq<PipeInfo>)
    ensures
        ({
            let s = scanned(pipes, ScanView::start(), 32);
            &&& s.done
            &&& pipes.len() <= 32 ==> s.endpoints.len() == pipes.len()
            &&& pipes.len() > 32 ==> s.endpoints.len() == 32
            &&& forall|k: int|
                0 <= k < s.endpoints.len() ==> #[trigger] s.endpoints[k] == pipes[k].pipe_id
        }),
{
    law_scan_collects_the_endpoints(pipes);
}

/// A scan asks for one pipe after the other, and for nothing once it is done.
pub proof fn law_scan_asks_in_order(s: ScanView, p: PipeInfo)
    ensures
        !s.done ==> s.question() == Some(s.endpoints.len() as int),
        s.done ==> s.question() is None && s.answered(Some(p)) == s && s.answered(None) == s,
        !s.done ==> s.answered(Some(p)).endpoints == s.endpoints.push(p.pipe_id),
        !s.done ==> s.answered(None).endpoints == s.endpoints && s.answered(None).done,
        ScanView::start().endpoints.len() == 0 && !ScanView::start().done,
{
}

/// What a search has found is a pipe of the endpoint, and neither an earlier pipe of the same
/// interface nor any pipe of an earlier interface is one. Where it has found nothing, none of
/// the pipes is one. Of each interface 32 pipes count.
pub proof fn law_found_pipe_has_none_in_front(
    pipes: spec_fn(Handle) -> Seq<PipeInfo>,
    candidates: Seq<Handle>,
    endpoint: u8,
    found: Option<(Handle, PipeInfo)>,
)
    requires
        is_first_pipe(pipes, candidates, endpoint, found),
    ensures
        found matches Some((h, p)) ==> p.pipe_id == endpoint && exists|k: int, n: int|
            {
                &&& 0 <= k < candidates.len() && candidates[k] == h
                &&& 0 <= n < pipes(h).len() && n < 32
                &&& #[trigger] pipes(candidates[k])[n] == p
                &&& forall|i: int| 0 <= i < n ==> (#[trigger] pipes(h)[i]).pipe_id != endpoint
                &&& forall|j: int, i: int|
                    0 <= j < k && 0 <= i < pipes(candidates[j]).len() && i < 32 ==> (
                    #[trigger] pipes(candidates[j])[i]).pipe_id != endpoint
            },
        found is None ==> forall|j: int, i: int|
            0 <= j < candidates.len() && 0 <= i < pipes(candidates[j]).len() && i < 32 ==> (
            #[trigger] pipes(candidates[j])[i]).pipe_id != endpoint,
{
    if let Some((h, p)) = found {
        let (k, n) = choose|k: int, n: int|
            {
                &&& 0 <= k < candidates.len()
                &&& candidates[k] == h
                &&& #[trigger] is_pipe_of(pipes(candidates[k]), endpoint, n)
                &&& pipes(h)[n] == p
                &&& forall|j: int|
                    0 <= j < k ==> has_no_pipe(pipes(#[trigger] candidates[j]), endpoint)
            };
        assert(pipes(candidates[k])[n] == p);
        assert forall|j: int, i: int|
            0 <= j < k && 0 <= i < pipes(candidates[j]).len() && i < 32 implies (
        #[trigger] pipes(candidates[j])[i]).pipe_id != endpoint by {
            assert(has_no_pipe(pipes(candidates[j]), endpoint));
        }
    } else {
        assert forall|j: int, i: int|
            0 <= j < candidates.len() && 0 <= i < pipes(candidates[j]).len() && i < 32 implies (
        #[trigger] pipes(candidates[j])[i]).pipe_id != endpoint by {
            assert(has_no_pipe(pipes(candidates[j]), endpoint));
        }
    }
}

/// A search begins at the first pipe of the first candidate, asks as long as it has found
/// nothing and has candidates left, and asks for the pipe that it stands at.
pub proof fn law_search_asks_in_order(s: SearchView, endpoint: u8, candidates: Seq<Handle>)
    ensures
        ({
            let start = SearchView::start(endpoint, candidates);
            &&& start.endpoint == endpoint && start.candidates == candidates
            &&& start.at == 0 && start.index == 0 && start.found is None
        }),
        s.found is None && s.at < s.candidates.len() ==> s.question() == Some(
            (s.candidates[s.at], s.index),
        ),
        s.found is Some || s.at >= s.candidates.len() ==> s.question() is None,
{
}

} // verus!
