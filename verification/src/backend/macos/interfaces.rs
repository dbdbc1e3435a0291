//! Finding and opening an interface of a device.
//!
//! IOKit gives the interfaces of a device one after the other. Each has to be opened before it
//! tells its number or its pipes. [`InterfaceSearch`] says what is to be done next, keeps the
//! interface that it looks for open, and takes care that everything else that was obtained is
//! given back, however the search ends.

use vstd::prelude::*;
use vstd::string::StringExecFns;

use crate::backend::macos::codes::{
    code_text, iokit_pipe_kr_to_usb_error, pipe_failure, with_code, IoReturn, SUCCESS,
};
use crate::backend::macos::device::{
    endpoint_address, endpoint_text, pipe_address, write_endpoint_text,
};
use crate::error::{outcome, ErrorView, UsbError};
use crate::numeral::{hex_fixed, numeral, write_numeral};
use crate::text::string_of;

verus! {

broadcast use vstd::string::group_string_axioms;

/// Which interface is looked for.
#[derive(Debug, Clone, Copy, PartialEq, Eq, Structural)]
pub enum Target {
    /// The one that has a pipe of this endpoint.
    Endpoint(u8),
    /// The one with this number.
    Number(u8),
}

/// What a search takes next.
#[derive(Debug, Clone, Copy, PartialEq, Eq, Structural)]
pub enum Step {
    /// Create an iterator over the interfaces.
    CreateIterator,
    /// Ask the iterator for the next one.
    NextService,
    /// Create the plug-in of the interface.
    CreatePlugin,
    /// Ask the plug-in for the interface, and release the plug-in.
    QueryInterface,
    OpenInterface,
    /// Ask the interface for the number of its pipes.
    CountEndpoints,
    /// Ask for the properties of a pipe. The first one is 1.
    PipeProperties(u8),
    /// Ask the interface for its number.
    InterfaceNumber,
    /// Close and release the interface.
    CloseInterface,
    ReleaseIterator,
    /// Nothing: the search has ended.
    Finished,
}

/// How a step ended: with a return code and what it gave, where it gives something.
#[derive(Debug, Clone, Copy, PartialEq, Eq, Structural)]
pub enum Reply {
    CreateIterator { kr: IoReturn, present: bool },
    NextService(bool),
    CreatePlugin { kr: IoReturn, present: bool },
    QueryInterface { kr: IoReturn, present: bool },
    OpenInterface(IoReturn),
    CountEndpoints { kr: IoReturn, count: u8 },
    PipeProperties { kr: IoReturn, direction: u8, number: u8 },
    InterfaceNumber { kr: IoReturn, number: u8 },
    CloseInterface,
    ReleaseIterator,
}

/// A search in progress.
#[derive(Debug)]
pub struct InterfaceSearch {
    pub target: Target,
    pub step: Step,
    /// Whether the iterator and an interface are held.
    pub iterator: bool,
    pub interface: bool,
    /// The number of pipes of the interface, and the endpoints of those that are known, each
    /// with its pipe.
    pub count: u8,
    pub current: Vec<(u8, u8)>,
    /// The endpoints of all interfaces that were asked for all of their pipes.
    pub learned: Vec<(u8, u8)>,
    pub result: Option<Result<(), UsbError>>,
}

/// An [`InterfaceSearch`] with its endpoints as sequences.
#[verifier::ext_equal]
pub struct SearchView {
    pub target: Target,
    pub step: Step,
    pub iterator: bool,
    pub interface: bool,
    pub count: u8,
    pub current: Seq<(u8, u8)>,
    pub learned: Seq<(u8, u8)>,
    pub result: Option<Result<(), ErrorView>>,
}

impl View for InterfaceSearch {
    type V = SearchView;

    open spec fn view(&self) -> SearchView {
        SearchView {
            target: self.target,
            step: self.step,
            iterator: self.iterator,
            interface: self.interface,
            count: self.count,
            current: self.current@,
            learned: self.learned@,
            result: match self.result {
                Some(r) => Some(outcome(r)),
                None => None,
            },
        }
    }
}

/// Whether one of the pipes is that of an endpoint.
pub open spec fn has_endpoint(pipes: Seq<(u8, u8)>, endpoint: u8) -> bool {
    exists|i: int| 0 <= i < pipes.len() && (#[trigger] pipes[i]).0 == endpoint
}

/// The complaint about an interface that the device does not have.
pub open spec fn not_found(target: Target) -> ErrorView {
    match target {
        Target::Endpoint(e) => ErrorView::Other(endpoint_text(e, " not found on any interface"@)),
        Target::Number(n) => ErrorView::Other(
            "interface "@ + numeral(n as int, 10) + " not found"@,
        ),
    }
}

/// The complaint about a plug-in that was not created.
pub open spec fn no_plugin(target: Target, kr: IoReturn) -> ErrorView {
    if kr == SUCCESS && target is Endpoint {
        ErrorView::InvalidHandle
    } else {
        pipe_failure(kr)
    }
}

impl SearchView {
    /// A search at its begin. One of a device that is not open fails at once.
    pub open spec fn begun(target: Target, device_open: bool) -> SearchView {
        SearchView {
            target,
            step: if device_open {
                Step::CreateIterator
            } else {
                Step::Finished
            },
            iterator: false,
            interface: false,
            count: 0,
            current: Seq::empty(),
            learned: Seq::empty(),
            result: if device_open {
                None
            } else {
                Some(Err(ErrorView::InvalidHandle))
            },
        }
    }

    pub open spec fn at(self, step: Step) -> SearchView {
        SearchView { step, ..self }
    }

    /// The search with an error, on its way to give back what it holds.
    pub open spec fn failing(self, e: ErrorView) -> SearchView {
        SearchView { result: Some(Err(e)), ..self }.at(
            if self.interface {
                Step::CloseInterface
            } else if self.iterator {
                Step::ReleaseIterator
            } else {
                Step::Finished
            },
        )
    }

    /// The search with the interface that it looks for, which stays open, or on its way to the
    /// next one.
    pub open spec fn decided(self, matches: bool) -> SearchView {
        if matches {
            SearchView { result: Some(Ok(())), ..self }.at(Step::ReleaseIterator)
        } else {
            self.at(Step::CloseInterface)
        }
    }

    /// The search when all pipes of the interface are known.
    pub open spec fn all_pipes_known(self) -> SearchView {
        SearchView { learned: self.learned + self.current, ..self }.decided(
            match self.target {
                Target::Endpoint(e) => has_endpoint(self.current, e),
                Target::Number(_) => false,
            },
        )
    }

    /// The search after a step has ended. A reply to another step changes nothing.
    pub open spec fn replied(self, reply: Reply) -> SearchView {
        match (self.step, reply) {
            (Step::CreateIterator, Reply::CreateIterator { kr, present }) => if kr != SUCCESS {
                self.failing(pipe_failure(kr))
            } else if !present {
                self.failing(ErrorView::InvalidHandle)
            } else {
                SearchView { iterator: true, ..self }.at(Step::NextService)
            },
            (Step::NextService, Reply::NextService(present)) => if present {
                self.at(Step::CreatePlugin)
            } else {
                self.failing(not_found(self.target))
            },
            (Step::CreatePlugin, Reply::CreatePlugin { kr, present }) => if kr != SUCCESS
                || !present {
                self.failing(no_plugin(self.target, kr))
            } else {
                self.at(Step::QueryInterface)
            },
            (Step::QueryInterface, Reply::QueryInterface { kr, present }) => if kr != SUCCESS
                || !present {
                self.failing(
                    ErrorView::Other(
                        code_text("QueryInterface for IOUSBInterfaceInterface failed: "@, kr),
                    ),
                )
            } else {
                SearchView { interface: true, ..self }.at(Step::OpenInterface)
            },
            (Step::OpenInterface, Reply::OpenInterface(kr)) => if kr != SUCCESS {
                self.failing(pipe_failure(kr))
            } else {
                self.at(
                    match self.target {
                        Target::Endpoint(_) => Step::CountEndpoints,
                        Target::Number(_) => Step::InterfaceNumber,
                    },
                )
            },
            (Step::CountEndpoints, Reply::CountEndpoints { kr, count }) => if kr != SUCCESS {
                self.failing(pipe_failure(kr))
            } else {
                let counted = SearchView { count, current: Seq::empty(), ..self };
                if count == 0 {
                    counted.all_pipes_known()
                } else {
                    counted.at(Step::PipeProperties(1))
                }
            },
            (Step::PipeProperties(pipe), Reply::PipeProperties { kr, direction, number }) => {
                if kr != SUCCESS {
                    self.failing(pipe_failure(kr))
                } else {
                    let known = SearchView {
                        current: self.current.push((pipe_address(direction, number), pipe)),
                        ..self
                    };
                    if pipe < self.count {
                        known.at(Step::PipeProperties((pipe + 1) as u8))
                    } else {
                        known.all_pipes_known()
                    }
                }
            },
            (Step::InterfaceNumber, Reply::InterfaceNumber { kr, number }) => if kr != SUCCESS {
                self.failing(pipe_failure(kr))
            } else {
                self.decided(self.target == Target::Number(number))
            },
            (Step::CloseInterface, Reply::CloseInterface) => SearchView {
                interface: false,
                ..self
            }.at(
                if self.result is Some {
                    Step::ReleaseIterator
                } else {
                    Step::NextService
                },
            ),
            (Step::ReleaseIterator, Reply::ReleaseIterator) => SearchView {
                iterator: false,
                ..self
            }.at(Step::Finished),
            _ => self,
        }
    }
}

/// Looks for a pipe of an endpoint.
fn contains_endpoint(pipes: &[(u8, u8)], endpoint: u8) -> (b: bool)
    ensures
        b == has_endpoint(pipes@, endpoint),
{
    for i in 0..pipes.len()
        invariant
            forall|j: int| 0 <= j < i ==> (#[trigger] pipes@[j]).0 != endpoint,
    {
        if pipes[i].0 == endpoint {
            assert(pipes@[i as int].0 == endpoint);
            return true;
        }
    }
    false
}

impl InterfaceSearch {
    /// Begins a search.
    pub fn begin(target: Target, device_open: bool) -> (s: InterfaceSearch)
        ensures
            s@ == SearchView::begun(target, device_open),
    {
        let s = InterfaceSearch {
            target,
            step: if device_open {
                Step::CreateIterator
            } else {
                Step::Finished
            },
            iterator: false,
            interface: false,
            count: 0,
            current: Vec::new(),
            learned: Vec::new(),
            result: if device_open {
                None
            } else {
                Some(Err(UsbError::InvalidHandle))
            },
        };
        assert(s@ =~= SearchView::begun(target, device_open));
        s
    }

    /// What the search takes next.
    pub fn step(&self) -> (step: Step)
        ensures
            step == self@.step,
    {
        self.step
    }

    fn fail(self, e: UsbError) -> (s: InterfaceSearch)
        ensures
            s@ == self@.failing(e@),
    {
        let mut s: InterfaceSearch = self;
        s.step = if s.interface {
            Step::CloseInterface
        } else if s.iterator {
            Step::ReleaseIterator
        } else {
            Step::Finished
        };
        s.result = Some(Err(e));
        s
    }

    fn decide(self, matches: bool) -> (s: InterfaceSearch)
        ensures
            s@ == self@.decided(matches),
    {
        let mut s: InterfaceSearch = self;
        if matches {
            s.result = Some(Ok(()));
            s.step = Step::ReleaseIterator;
        } else {
            s.step = Step::CloseInterface;
        }
        s
    }

    fn know_all_pipes(self) -> (s: InterfaceSearch)
        ensures
            s@ == self@.all_pipes_known(),
    {
        let mut s: InterfaceSearch = self;
        let matches: bool = match s.target {
            Target::Endpoint(e) => contains_endpoint(s.current.as_slice(), e),
            Target::Number(_) => false,
        };
        let n: usize = s.current.len();
        let ghost before = s.learned@;
        for i in 0..n
            invariant
                n == s.current@.len(),
                s.learned@ == before + s.current@.take(i as int),
                s@ == (SearchView { learned: s.learned@, ..self@ }),
        {
            s.learned.push(s.current[i]);
            assert(s.learned@ =~= before + s.current@.take(i + 1));
        }
        assert(s.current@.take(n as int) =~= s.current@);
        s.decide(matches)
    }

    /// Goes on after a step has ended.
    pub fn reply(self, reply: Reply) -> (s: InterfaceSearch)
        ensures
            s@ == self@.replied(reply),
    {
        let mut s: InterfaceSearch = self;
        match (s.step, reply) {
            (Step::CreateIterator, Reply::CreateIterator { kr, present }) => if kr != SUCCESS {
                s.fail(iokit_pipe_kr_to_usb_error(kr))
            } else if !present {
                s.fail(UsbError::InvalidHandle)
            } else {
                s.iterator = true;
                s.step = Step::NextService;
                s
            },
            (Step::NextService, Reply::NextService(present)) => if present {
                s.step = Step::CreatePlugin;
                s
            } else {
                let text: String = match s.target {
                    Target::Endpoint(e) => write_endpoint_text(e, " not found on any interface"),
                    Target::Number(n) => {
                        let number: String = string_of(write_numeral(n as u32, 10).as_slice());
                        "interface ".to_owned().concat(number.as_str()).concat(" not found")
                    },
                };
                s.fail(UsbError::Other(text))
            },
            (Step::CreatePlugin, Reply::CreatePlugin { kr, present }) => if kr != SUCCESS
                || !present {
                let missing: bool = match s.target {
                    Target::Endpoint(_) => kr == SUCCESS,
                    Target::Number(_) => false,
                };
                if missing {
                    s.fail(UsbError::InvalidHandle)
                } else {
                    s.fail(iokit_pipe_kr_to_usb_error(kr))
                }
            } else {
                s.step = Step::QueryInterface;
                s
            },
            (Step::QueryInterface, Reply::QueryInterface { kr, present }) => if kr != SUCCESS
                || !present {
                s.fail(
                    UsbError::Other(
                        with_code("QueryInterface for IOUSBInterfaceInterface failed: ", kr),
                    ),
                )
            } else {
                s.interface = true;
                s.step = Step::OpenInterface;
                s
            },
            (Step::OpenInterface, Reply::OpenInterface(kr)) => if kr != SUCCESS {
                s.fail(iokit_pipe_kr_to_usb_error(kr))
            } else {
                s.step = match s.target {
                    Target::Endpoint(_) => Step::CountEndpoints,
                    Target::Number(_) => Step::InterfaceNumber,
                };
                s
            },
            (Step::CountEndpoints, Reply::CountEndpoints { kr, count }) => if kr != SUCCESS {
                s.fail(iokit_pipe_kr_to_usb_error(kr))
            } else {
                s.count = count;
                s.current = Vec::new();
                if count == 0 {
                    s.know_all_pipes()
                } else {
                    s.step = Step::PipeProperties(1);
                    s
                }
            },
            (Step::PipeProperties(pipe), Reply::PipeProperties { kr, direction, number }) => {
                if kr != SUCCESS {
                    s.fail(iokit_pipe_kr_to_usb_error(kr))
                } else {
                    s.current.push((endpoint_address(direction, number), pipe));
                    if pipe < s.count {
                        s.step = Step::PipeProperties(pipe + 1);
                        s
                    } else {
                        s.know_all_pipes()
                    }
                }
            },
            (Step::InterfaceNumber, Reply::InterfaceNumber { kr, number }) => if kr != SUCCESS {
                s.fail(iokit_pipe_kr_to_usb_error(kr))
            } else {
                let matches: bool = s.target == Target::Number(number);
                s.decide(matches)
            },
            (Step::CloseInterface, Reply::CloseInterface) => {
                s.interface = false;
                s.step = if s.result.is_some() {
                    Step::ReleaseIterator
                } else {
                    Step::NextService
                };
                s
            },
            (Step::ReleaseIterator, Reply::ReleaseIterator) => {
                s.iterator = false;
                s.step = Step::Finished;
                s
            },
            _ => s,
        }
    }

    /// The result of a search that has ended, and the endpoints that it has learned of.
    pub fn into_result(self) -> (r: (Option<Result<(), UsbError>>, Vec<(u8, u8)>))
        ensures
            r.0 == self.result,
            r.1@ == self@.learned,
    {
        (self.result, self.learned)
    }
}

// ---------------------------------------------------------------------------
// What a search holds
// ---------------------------------------------------------------------------

/// A search after a sequence of replies.
pub open spec fn after_replies(s: SearchView, replies: Seq<Reply>) -> SearchView
    decreases replies.len(),
{
    if replies.len() == 0 {
        s
    } else {
        after_replies(s, replies.drop_last()).replied(replies.last())
    }
}

/// Whether a step that ended so has obtained the iterator (1), given it back (-1), or neither.
pub open spec fn iterators(step: Step, reply: Reply) -> int {
    match (step, reply) {
        (Step::CreateIterator, Reply::CreateIterator { kr, present }) => if kr == SUCCESS
            && present {
            1
        } else {
            0
        },
        (Step::ReleaseIterator, Reply::ReleaseIterator) => -1,
        _ => 0,
    }
}

/// Whether a step that ended so has obtained an interface (1), given it back (-1), or neither.
pub open spec fn interfaces(step: Step, reply: Reply) -> int {
    match (step, reply) {
        (Step::QueryInterface, Reply::QueryInterface { kr, present }) => if kr == SUCCESS
            && present {
            1
        } else {
            0
        },
        (Step::CloseInterface, Reply::CloseInterface) => -1,
        _ => 0,
    }
}

/// How many iterators have been obtained and not given back.
pub open spec fn iterators_held(s: SearchView, replies: Seq<Reply>) -> int
    decreases replies.len(),
{
    if replies.len() == 0 {
        0
    } else {
        let before = after_replies(s, replies.drop_last());
        iterators_held(s, replies.drop_last()) + iterators(before.step, replies.last())
    }
}

/// How many interfaces have been obtained and not given back.
pub open spec fn interfaces_held(s: SearchView, replies: Seq<Reply>) -> int
    decreases replies.len(),
{
    if replies.len() == 0 {
        0
    } else {
        let before = after_replies(s, replies.drop_last());
        interfaces_held(s, replies.drop_last()) + interfaces(before.step, replies.last())
    }
}

/// What holds of a search at any time.
spec fn search_inv(s: SearchView) -> bool {
    match s.step {
        Step::CreateIterator => !s.iterator && !s.interface && s.result is None,
        Step::NextService | Step::CreatePlugin | Step::QueryInterface => s.iterator && !s.interface
            && s.result is None,
        Step::OpenInterface
        | Step::CountEndpoints
        | Step::PipeProperties(_)
        | Step::InterfaceNumber => s.iterator && s.interface && s.result is None,
        Step::CloseInterface => s.iterator && s.interface && (s.result is Some ==> s.result->0
            is Err),
        Step::ReleaseIterator => s.iterator && s.result is Some && (s.interface <==> s.result->0
            is Ok),
        Step::Finished => !s.iterator && s.result is Some && (s.interface <==> s.result->0 is Ok),
    }
}

/// The search knows what it holds.
proof fn lemma_search_knows_what_it_holds(s: SearchView, replies: Seq<Reply>)
    requires
        search_inv(s),
        !s.iterator,
        !s.interface,
    ensures
        search_inv(after_replies(s, replies)),
        iterators_held(s, replies) == if after_replies(s, replies).iterator {
            1int
        } else {
            0int
        },
        interfaces_held(s, replies) == if after_replies(s, replies).interface {
            1int
        } else {
            0int
        },
    decreases replies.len(),
{
    if replies.len() > 0 {
        lemma_search_knows_what_it_holds(s, replies.drop_last());
    }
}

/// However its steps end, a search holds at most one iterator and one interface at any time.
/// When it has ended, it holds no iterator, and an interface only where it has succeeded.
pub proof fn law_search_gives_back_what_it_obtained(
    target: Target,
    device_open: bool,
    replies: Seq<Reply>,
)
    ensures
        ({
            let start = SearchView::begun(target, device_open);
            let s = after_replies(start, replies);
            &&& 0 <= iterators_held(start, replies) <= 1
            &&& 0 <= interfaces_held(start, replies) <= 1
            &&& s.step == Step::Finished ==> {
                &&& iterators_held(start, replies) == 0
                &&& s.result is Some
                &&& interfaces_held(start, replies) == if s.result->0 is Ok {
                    1int
                } else {
                    0int
                }
            }
        }),
{
    lemma_search_knows_what_it_holds(SearchView::begun(target, device_open), replies);
}

// ---------------------------------------------------------------------------
// What a search finds
// ---------------------------------------------------------------------------

/// An interface that answers all questions: its number, and the directions and numbers of its
/// pipes.
pub struct Service {
    pub number: u8,
    pub pipes: Seq<(u8, u8)>,
}

/// The endpoints of an interface, each with its pipe.
pub open spec fn service_endpoints(s: Service) -> Seq<(u8, u8)> {
    Seq::new(
        s.pipes.len(),
        |i: int| (pipe_address(s.pipes[i].0, s.pipes[i].1), (i + 1) as u8),
    )
}

/// Whether an interface is the one that is looked for.
pub open spec fn is_target(s: Service, target: Target) -> bool {
    match target {
        Target::Endpoint(e) => has_endpoint(service_endpoints(s), e),
        Target::Number(n) => s.number == n,
    }
}

/// How a step ends in a system with the given interfaces, of which `next` is the one that the
/// iterator gives next.
pub open spec fn system_reply(services: Seq<Service>, next: int, step: Step) -> Reply {
    match step {
        Step::CreateIterator => Reply::CreateIterator { kr: SUCCESS, present: true },
        Step::NextService => Reply::NextService(next < services.len()),
        Step::CreatePlugin => Reply::CreatePlugin { kr: SUCCESS, present: true },
        Step::QueryInterface => Reply::QueryInterface { kr: SUCCESS, present: true },
        Step::OpenInterface => Reply::OpenInterface(SUCCESS),
        Step::CountEndpoints => Reply::CountEndpoints {
            kr: SUCCESS,
            count: services[next - 1].pipes.len() as u8,
        },
        Step::PipeProperties(pipe) => Reply::PipeProperties {
            kr: SUCCESS,
            direction: services[next - 1].pipes[pipe - 1].0,
            number: services[next - 1].pipes[pipe - 1].1,
        },
        Step::InterfaceNumber => Reply::InterfaceNumber {
            kr: SUCCESS,
            number: services[next - 1].number,
        },
        Step::CloseInterface => Reply::CloseInterface,
        Step::ReleaseIterator => Reply::ReleaseIterator,
        Step::Finished => Reply::ReleaseIterator,
    }
}

/// A search after `steps` steps in such a system.
pub open spec fn searched(services: Seq<Service>, next: int, s: SearchView, steps: nat) -> SearchView
    decreases steps,
{
    if steps == 0 {
        s
    } else {
        searched(
            services,
            if s.step == Step::NextService {
                next + 1
            } else {
                next
            },
            s.replied(system_reply(services, next, s.step)),
            (steps - 1) as nat,
        )
    }
}

/// The endpoints of the first `n` interfaces.
pub open spec fn first_endpoints(services: Seq<Service>, n: int) -> Seq<(u8, u8)>
    decreases n,
{
    if n <= 0 {
        Seq::empty()
    } else {
        first_endpoints(services, n - 1) + service_endpoints(services[n - 1])
    }
}

/// Whether a search has ended as it should: with the first interface that is looked for, or
/// with a complaint where there is none. A search for an endpoint has learned of the endpoints
/// of all interfaces up to that one.
pub open spec fn is_right_end(services: Seq<Service>, target: Target, s: SearchView) -> bool {
    &&& s.step == Step::Finished
    &&& s.result is Some
    &&& match s.result->0 {
        Ok(_) => exists|k: int|
            {
                &&& 0 <= k < services.len()
                &&& is_target(#[trigger] services[k], target)
                &&& forall|j: int| 0 <= j < k ==> !is_target(#[trigger] services[j], target)
                &&& target is Endpoint ==> s.learned == first_endpoints(services, k + 1)
            },
        Err(e) => {
            &&& e == not_found(target)
            &&& forall|j: int|
                0 <= j < services.len() ==> !is_target(#[trigger] services[j], target)
            &&& target is Endpoint ==> s.learned == first_endpoints(
                services,
                services.len() as int,
            )
        },
    }
}

/// The remaining pipes of an interface become known.
proof fn lemma_pipes(services: Seq<Service>, next: int, s: SearchView, pipe: u8) -> (steps: nat)
    requires
        0 < next <= services.len(),
        services[next - 1].pipes.len() <= 255,
        s.count == services[next - 1].pipes.len(),
        1 <= pipe <= s.count,
        s.step == Step::PipeProperties(pipe),
        s.current == service_endpoints(services[next - 1]).take(pipe - 1),
    ensures
        forall|more: nat| #[trigger]
            searched(services, next, s, steps + more) == searched(
                services,
                next,
                SearchView {
                    current: service_endpoints(services[next - 1]),
                    ..s
                }.all_pipes_known(),
                more,
            ),
    decreases s.count - pipe,
{
    let all = service_endpoints(services[next - 1]);
    let after = s.replied(system_reply(services, next, s.step));
    assert(s.current.push(all[pipe - 1]) =~= all.take(pipe as int));
    if pipe < s.count {
        let n = lemma_pipes(services, next, after, (pipe + 1) as u8);
        assert forall|more: nat| #[trigger]
            searched(services, next, s, n + 1 + more) == searched(
                services,
                next,
                SearchView { current: all, ..s }.all_pipes_known(),
                more,
            ) by {
            assert((n + 1 + more - 1) as nat == n + more);
            assert(searched(services, next, s, n + 1 + more) == searched(
                services,
                next,
                after,
                n + more,
            ));
            assert(SearchView { current: all, ..s }.all_pipes_known() =~= SearchView {
                current: all,
                ..after
            }.all_pipes_known());
        }
        n + 1
    } else {
        assert(all.take(pipe as int) =~= all);
        assert forall|more: nat| #[trigger]
            searched(services, next, s, 1 + more) == searched(
                services,
                next,
                SearchView { current: all, ..s }.all_pipes_known(),
                more,
            ) by {
            assert((1 + more - 1) as nat == more);
        }
        1
    }
}

/// The search of one interface ends with a decision about it.
proof fn lemma_service(services: Seq<Service>, next: int, s: SearchView) -> (r: (nat, SearchView))
    requires
        0 <= next < services.len(),
        services[next].pipes.len() <= 255,
        s.step == Step::NextService,
        search_inv(s),
    ensures
        forall|more: nat| #[trigger]
            searched(services, next, s, r.0 + more) == searched(services, next + 1, r.1, more),
        search_inv(r.1),
        r.1.target == s.target,
        s.target is Endpoint ==> r.1.learned == s.learned + service_endpoints(services[next]),
        if is_target(services[next], s.target) {
            r.1.step == Step::ReleaseIterator && r.1.result == Some(Ok::<(), ErrorView>(()))
        } else {
            r.1.step == Step::CloseInterface && r.1.result is None
        },
{
    let all = service_endpoints(services[next]);
    let s1 = s.replied(system_reply(services, next, s.step));
    let s2 = s1.replied(system_reply(services, next + 1, s1.step));
    let s3 = s2.replied(system_reply(services, next + 1, s2.step));
    let s4 = s3.replied(system_reply(services, next + 1, s3.step));
    let s5 = s4.replied(system_reply(services, next + 1, s4.step));
    assert forall|more: nat| #[trigger]
        searched(services, next, s, 5 + more) == searched(services, next + 1, s5, more) by {
        reveal_with_fuel(searched, 6);
        assert((5 + more - 1) as nat == 4 + more);
        assert((4 + more - 1) as nat == 3 + more);
        assert((3 + more - 1) as nat == 2 + more);
        assert((2 + more - 1) as nat == 1 + more);
        assert((1 + more - 1) as nat == more);
    }
    if s.target is Endpoint && services[next].pipes.len() > 0 {
        assert(s5.current =~= all.take(0));
        let n = lemma_pipes(services, next + 1, s5, 1);
        let end = SearchView { current: all, ..s5 }.all_pipes_known();
        assert forall|more: nat| #[trigger]
            searched(services, next, s, (5 + n) + more) == searched(
                services,
                next + 1,
                end,
                more,
            ) by {
            assert((5 + n) + more == 5 + (n + more));
        }
        (5 + n, end)
    } else {
        assert(s.target is Endpoint ==> s5.current =~= all);
        (5, s5)
    }
}

/// From any interface on, the search ends as it should.
proof fn lemma_searched(services: Seq<Service>, next: int, s: SearchView) -> (steps: nat)
    requires
        0 <= next <= services.len(),
        forall|i: int| 0 <= i < services.len() ==> (#[trigger] services[i]).pipes.len() <= 255,
        forall|j: int| 0 <= j < next ==> !is_target(#[trigger] services[j], s.target),
        s.step == Step::NextService,
        search_inv(s),
        s.target is Endpoint ==> s.learned == first_endpoints(services, next),
    ensures
        is_right_end(services, s.target, searched(services, next, s, steps)),
    decreases services.len() - next,
{
    if next == services.len() {
        reveal_with_fuel(searched, 3);
        2
    } else {
        assert(services[next].pipes.len() <= 255);
        let (n, t) = lemma_service(services, next, s);
        if is_target(services[next], s.target) {
            reveal_with_fuel(searched, 2);
            let end = searched(services, next, s, n + 1);
            assert(end == searched(services, next + 1, t, 1));
            assert(is_target(services[next], s.target));
            n + 1
        } else {
            let u = t.replied(system_reply(services, next + 1, t.step));
            let m = lemma_searched(services, next + 1, u);
            assert(searched(services, next, s, n + (1 + m)) == searched(
                services,
                next + 1,
                t,
                1 + m,
            ));
            assert((1 + m - 1) as nat == m);
            n + (1 + m)
        }
    }
}

/// A finished search stays as it is.
proof fn lemma_finished(services: Seq<Service>, next: int, s: SearchView, steps: nat)
    requires
        s.step == Step::Finished,
    ensures
        searched(services, next, s, steps) == s,
    decreases steps,
{
    if steps > 0 {
        lemma_finished(services, next, s, (steps - 1) as nat);
    }
}

/// More steps do not change a search that has finished.
proof fn lemma_finished_at(services: Seq<Service>, next: int, s: SearchView, m: nat, more: nat)
    requires
        searched(services, next, s, m).step == Step::Finished,
    ensures
        searched(services, next, s, m + more) == searched(services, next, s, m),
    decreases m,
{
    if m == 0 {
        lemma_finished(services, next, s, more);
    } else {
        let after = s.replied(system_reply(services, next, s.step));
        let following = if s.step == Step::NextService {
            next + 1
        } else {
            next
        };
        assert((m + more - 1) as nat == (m - 1) as nat + more);
        lemma_finished_at(services, following, after, (m - 1) as nat, more);
    }
}

/// In a system whose interfaces answer all questions, a search comes to an end. It has then the
/// first interface that is looked for open, or a complaint where there is none. A search for an
/// endpoint has learned of the endpoints of all interfaces up to that one.
pub proof fn law_search_finds_the_first_interface(services: Seq<Service>, target: Target)
    requires
        forall|i: int| 0 <= i < services.len() ==> (#[trigger] services[i]).pipes.len() <= 255,
    ensures
        exists|steps: nat|
            is_right_end(
                services,
                target,
                #[trigger] searched(services, 0, SearchView::begun(target, true), steps),
            ),
        forall|steps: nat|
            (#[trigger] searched(services, 0, SearchView::begun(target, true), steps)).step
                == Step::Finished ==> is_right_end(
                services,
                target,
                searched(services, 0, SearchView::begun(target, true), steps),
            ),
{
    let start = SearchView::begun(target, true);
    let s = start.replied(system_reply(services, 0, start.step));
    let n = lemma_searched(services, 0, s) + 1;
    assert((n - 1) as nat + 1 == n);
    assert(searched(services, 0, start, n) == searched(services, 0, s, (n - 1) as nat));
    assert forall|steps: nat|
        (#[trigger] searched(services, 0, start, steps)).step
            == Step::Finished implies is_right_end(
        services,
        target,
        searched(services, 0, start, steps),
    ) by {
        if steps <= n {
            lemma_finished_at(services, 0, start, steps, (n - steps) as nat);
        } else {
            lemma_finished_at(services, 0, start, n, (steps - n) as nat);
        }
    }
}

/// An interface is looked for by its number, or by an endpoint that one of its pipes has.
pub proof fn law_target_is_a_number_or_an_endpoint(s: Service, n: u8, e: u8)
    ensures
        is_target(s, Target::Number(n)) <==> s.number == n,
        is_target(s, Target::Endpoint(e)) <==> exists|i: int|
            0 <= i < s.pipes.len() && (#[trigger] s.pipes[i]).1 % 16 + (if s.pipes[i].0 != 0 {
                128int
            } else {
                0
            }) == e,
{
    let all = service_endpoints(s);
    if is_target(s, Target::Endpoint(e)) {
        let i = choose|i: int| 0 <= i < all.len() && (#[trigger] all[i]).0 == e;
        assert(s.pipes[i].1 % 16 + (if s.pipes[i].0 != 0 {
            128int
        } else {
            0
        }) == e);
    }
    if exists|i: int|
        0 <= i < s.pipes.len() && (#[trigger] s.pipes[i]).1 % 16 + (if s.pipes[i].0 != 0 {
            128int
        } else {
            0
        }) == e {
        let i = choose|i: int|
            0 <= i < s.pipes.len() && (#[trigger] s.pipes[i]).1 % 16 + (if s.pipes[i].0 != 0 {
                128int
            } else {
                0
            }) == e;
        assert(all[i].0 == e);
    }
}

/// The endpoints of an interface are learned each with the number of its pipe, of which the
/// first is 1, and those of several interfaces one after the other.
pub proof fn law_endpoints_have_their_pipes(s: Service, services: Seq<Service>)
    requires
        s.pipes.len() <= 255,
    ensures
        service_endpoints(s).len() == s.pipes.len(),
        forall|i: int|
            0 <= i < s.pipes.len() ==> (#[trigger] service_endpoints(s)[i]).1 == i + 1
                && service_endpoints(s)[i].0 == pipe_address(s.pipes[i].0, s.pipes[i].1),
        first_endpoints(services, 0).len() == 0,
        forall|n: int|
            0 <= n < services.len() ==> #[trigger] first_endpoints(services, n + 1)
                == first_endpoints(services, n) + service_endpoints(services[n]),
{
}

/// A search of a device that is not open has failed at once, and any other begins with nothing
/// held and nothing learned.
pub proof fn law_search_begins(target: Target)
    ensures
        ({
            let s = SearchView::begun(target, true);
            &&& s.target == target && s.step == Step::CreateIterator && s.result is None
            &&& !s.iterator && !s.interface && s.learned.len() == 0
        }),
        ({
            let s = SearchView::begun(target, false);
            &&& s.step == Step::Finished
            &&& s.result == Some(Err::<(), ErrorView>(ErrorView::InvalidHandle))
        }),
{
}

/// A call that fails ends the search with the meaning of its code, whichever call it is.
pub proof fn law_failed_call_ends_the_search(
    s: SearchView,
    kr: IoReturn,
    present: bool,
    a: u8,
    b: u8,
)
    requires
        kr != 0,
    ensures
        s.step is CreateIterator ==> s.replied(Reply::CreateIterator { kr, present }).result == Some(
            Err::<(), ErrorView>(pipe_failure(kr)),
        ),
        s.step is CreatePlugin ==> s.replied(Reply::CreatePlugin { kr, present }).result == Some(
            Err::<(), ErrorView>(pipe_failure(kr)),
        ),
        s.step is QueryInterface ==> s.replied(Reply::QueryInterface { kr, present }).result == Some(
            Err::<(), ErrorView>(
                ErrorView::Other(
                    code_text("QueryInterface for IOUSBInterfaceInterface failed: "@, kr),
                ),
            ),
        ),
        s.step is OpenInterface ==> s.replied(Reply::OpenInterface(kr)).result == Some(
            Err::<(), ErrorView>(pipe_failure(kr)),
        ),
        s.step is CountEndpoints ==> s.replied(Reply::CountEndpoints { kr, count: a }).result
            == Some(Err::<(), ErrorView>(pipe_failure(kr))),
        s.step is PipeProperties ==> s.replied(
            Reply::PipeProperties { kr, direction: a, number: b },
        ).result == Some(Err::<(), ErrorView>(pipe_failure(kr))),
        s.step is InterfaceNumber ==> s.replied(Reply::InterfaceNumber { kr, number: a }).result
            == Some(Err::<(), ErrorView>(pipe_failure(kr))),
        s.replied(Reply::CountEndpoints { kr, count: a }).learned == s.learned,
        s.replied(Reply::PipeProperties { kr, direction: a, number: b }).learned == s.learned,
        s.replied(Reply::InterfaceNumber { kr, number: a }).learned == s.learned,
{
}

/// The view of a search has all that the search has.
pub proof fn law_view_keeps_every_field(s: InterfaceSearch)
    ensures
        s@.target == s.target && s@.step == s.step,
        s@.iterator == s.iterator && s@.interface == s.interface && s@.count == s.count,
        s@.current == s.current@ && s@.learned == s.learned@,
        s.result is None <==> s@.result is None,
        s.result matches Some(r) ==> s@.result == Some(outcome(r)),
{
}

/// A call that gives nothing though it succeeds fails too: without an iterator or an interface
/// there is no handle. A missing plug-in is an unexpected success where the interface is looked
/// for by its number.
pub proof fn law_missing_object_ends_the_search(s: SearchView)
    ensures
        s.step is CreateIterator ==> s.replied(
            Reply::CreateIterator { kr: 0, present: false },
        ).result == Some(Err::<(), ErrorView>(ErrorView::InvalidHandle)),
        s.step is CreatePlugin && s.target is Endpoint ==> s.replied(
            Reply::CreatePlugin { kr: 0, present: false },
        ).result == Some(Err::<(), ErrorView>(ErrorView::InvalidHandle)),
        s.step is CreatePlugin && s.target is Number ==> s.replied(
            Reply::CreatePlugin { kr: 0, present: false },
        ).result == Some(
            Err::<(), ErrorView>(ErrorView::Other("unexpected success code in error mapper"@)),
        ),
        s.step is QueryInterface ==> s.replied(
            Reply::QueryInterface { kr: 0, present: false },
        ).result == Some(
            Err::<(), ErrorView>(
                ErrorView::Other(
                    code_text("QueryInterface for IOUSBInterfaceInterface failed: "@, 0),
                ),
            ),
        ),
        s.step is NextService ==> s.replied(Reply::NextService(false)).result == Some(
            Err::<(), ErrorView>(
                ErrorView::Other(
                    match s.target {
                        Target::Endpoint(e) => "endpoint 0x"@ + hex_fixed(e as int, 2)
                            + " not found on any interface"@,
                        Target::Number(n) => "interface "@ + numeral(n as int, 10) + " not found"@,
                    },
                ),
            ),
        ),
{
}

/// An interface that tells its number is kept open exactly where that is the number that is
/// looked for, and nothing is learned of its pipes.
pub proof fn law_number_decides(s: SearchView, number: u8)
    requires
        s.step is InterfaceNumber,
    ensures
        ({
            let t = s.replied(Reply::InterfaceNumber { kr: 0, number });
            &&& t.learned == s.learned && t.iterator == s.iterator && t.interface == s.interface
            &&& s.target == Target::Number(number) ==> t.step is ReleaseIterator && t.result == Some(
                Ok::<(), ErrorView>(()),
            )
            &&& s.target != Target::Number(number) ==> t.step is CloseInterface && t.result
                == s.result
        }),
{
}

/// A search that has its result keeps it while it gives back what it holds, and a finished one
/// does not change.
pub proof fn law_result_stays(s: SearchView, reply: Reply)
    requires
        s.step is CloseInterface || s.step is ReleaseIterator || s.step is Finished,
    ensures
        s.replied(reply).result == s.result,
        s.replied(reply).learned == s.learned,
        s.step is Finished ==> s.replied(reply) == s,
        s.step is ReleaseIterator ==> s.replied(Reply::ReleaseIterator).step is Finished,
        s.step is CloseInterface && s.result is None ==> s.replied(
            Reply::CloseInterface,
        ).step is NextService,
        s.step is CloseInterface && s.result is Some ==> s.replied(
            Reply::CloseInterface,
        ).step is ReleaseIterator,
{
}

} // verus!
