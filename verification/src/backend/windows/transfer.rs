//! Overlapped and isochronous transfers.
//!
//! Both kinds are submitted with an event, which the system signals on completion. The buffer
//! of an isochronous transfer is registered before. [`Transfer`] says what is to be done next,
//! and takes care that whatever was obtained is given back, however the transfer ends.

use vstd::prelude::*;
use std::time::Duration;

use crate::error::{hresult_meaning, HresultError, UsbError};
use crate::protocol::control::{clamped_millis, duration_millis, timeout_millis};

verus! {

/// The `HRESULT` of a submission that has not completed yet.
pub const IO_PENDING: u32 = 0x8007_03E5;

/// The waiting time that never ends.
pub const INFINITE: u32 = 0xFFFF_FFFF;

/// How long to wait for an overlapped transfer: as long as its timeout. The largest timeout is
/// the number that stands for a wait without end, so one millisecond less is waited for it.
pub open spec fn wait_of(timeout_ms: u32) -> u32 {
    if timeout_ms == INFINITE {
        (INFINITE - 1) as u32
    } else {
        timeout_ms
    }
}

/// The wait for an overlapped transfer ends, and is never longer than its timeout.
pub proof fn law_wait_is_within_the_timeout(timeout_ms: u32)
    ensures
        wait_of(timeout_ms) != 0xFFFF_FFFF,
        wait_of(timeout_ms) <= timeout_ms,
        timeout_ms < 0xFFFF_FFFF ==> wait_of(timeout_ms) == timeout_ms,
        timeout_ms == 0xFFFF_FFFF ==> wait_of(timeout_ms) == 0xFFFF_FFFE,
{
}

/// What a transfer takes next.
#[derive(Debug, Clone, Copy, PartialEq, Eq, Structural)]
pub enum Action {
    /// Register the buffer.
    Register,
    /// Create the event.
    CreateEvent,
    /// Submit the transfer.
    Submit,
    /// Wait for the event for so many milliseconds.
    Wait(u32),
    /// Ask for the number of bytes.
    Collect,
    /// Give the registration of the buffer back.
    Unregister,
    /// Close the event.
    CloseEvent,
    /// Nothing: the transfer has ended.
    Finished,
}

/// How an action ended.
#[derive(Debug)]
pub enum Reply {
    Register(Result<(), HresultError>),
    CreateEvent(Result<(), HresultError>),
    /// The number of bytes where the transfer completed at once. That of an isochronous one is
    /// not known yet.
    Submit(Result<u32, HresultError>),
    /// Whether the event was signaled.
    Wait(bool),
    Collect(Result<u32, HresultError>),
    Unregister,
    CloseEvent,
}

/// A transfer in progress.
#[derive(Debug)]
pub struct Transfer {
    pub isochronous: bool,
    pub wait_ms: u32,
    pub action: Action,
    /// Whether the registration of the buffer and the event are held.
    pub registered: bool,
    pub event: bool,
    pub result: Option<Result<usize, UsbError>>,
}

/// A number of bytes, or the error of a failed call.
pub open spec fn transferred(r: Result<u32, HresultError>) -> Result<usize, UsbError> {
    match r {
        Ok(n) => Ok(n as usize),
        Err(e) => Err(hresult_meaning(e)),
    }
}

impl Transfer {
    /// A transfer of the given kind at its begin.
    pub open spec fn begun(isochronous: bool, empty: bool, wait_ms: u32) -> Transfer {
        Transfer {
            isochronous,
            wait_ms,
            action: if isochronous && empty {
                Action::Finished
            } else if isochronous {
                Action::Register
            } else {
                Action::CreateEvent
            },
            registered: false,
            event: false,
            result: if isochronous && empty {
                Some(Ok(0))
            } else {
                None
            },
        }
    }

    /// The transfer with its result, on its way to give back what it holds.
    pub open spec fn ending(self, result: Result<usize, UsbError>) -> Transfer {
        Transfer { result: Some(result), ..self }.giving_back()
    }

    /// The transfer on its way to give back what it holds: the registration, then the event.
    pub open spec fn giving_back(self) -> Transfer {
        Transfer {
            action: if self.registered {
                Action::Unregister
            } else if self.event {
                Action::CloseEvent
            } else {
                Action::Finished
            },
            ..self
        }
    }

    /// The transfer after an action has ended. A reply to another action changes nothing.
    pub open spec fn replied(self, reply: Reply) -> Transfer {
        match (self.action, reply) {
            (Action::Register, Reply::Register(r)) => match r {
                Ok(_) => Transfer { registered: true, action: Action::CreateEvent, ..self },
                Err(e) => self.ending(Err(hresult_meaning(e))),
            },
            (Action::CreateEvent, Reply::CreateEvent(r)) => match r {
                Ok(_) => Transfer { event: true, action: Action::Submit, ..self },
                Err(e) => self.ending(Err(hresult_meaning(e))),
            },
            (Action::Submit, Reply::Submit(r)) => match r {
                Ok(n) => if self.isochronous {
                    Transfer { action: Action::Collect, ..self }
                } else {
                    self.ending(Ok(n as usize))
                },
                Err(e) => if e.code == IO_PENDING {
                    Transfer { action: Action::Wait(self.wait_ms), ..self }
                } else {
                    self.ending(Err(hresult_meaning(e)))
                },
            },
            (Action::Wait(_), Reply::Wait(signaled)) => if signaled {
                Transfer { action: Action::Collect, ..self }
            } else {
                self.ending(Err(UsbError::Timeout))
            },
            (Action::Collect, Reply::Collect(r)) => self.ending(transferred(r)),
            (Action::Unregister, Reply::Unregister) => Transfer {
                registered: false,
                ..self
            }.giving_back(),
            (Action::CloseEvent, Reply::CloseEvent) => Transfer {
                event: false,
                ..self
            }.giving_back(),
            _ => self,
        }
    }

    /// Begins an overlapped transfer, which is waited for up to `timeout`.
    pub fn overlapped(timeout: Duration) -> (t: Transfer)
        ensures
            t == Transfer::begun(false, false, wait_of(clamped_millis(duration_millis(timeout)))),
            t.wait_ms != INFINITE,
            t.wait_ms <= duration_millis(timeout),
    {
        let timeout_ms: u32 = timeout_millis(timeout);
        let wait_ms: u32 = if timeout_ms == INFINITE {
            INFINITE - 1
        } else {
            timeout_ms
        };
        Transfer {
            isochronous: false,
            wait_ms,
            action: Action::CreateEvent,
            registered: false,
            event: false,
            result: None,
        }
    }

    /// Begins an isochronous transfer of a buffer of the given length. An empty buffer needs no
    /// transfer.
    pub fn isochronous(buf_len: usize) -> (t: Transfer)
        ensures
            t == Transfer::begun(true, buf_len == 0, INFINITE),
    {
        Transfer {
            isochronous: true,
            wait_ms: INFINITE,
            action: if buf_len == 0 {
                Action::Finished
            } else {
                Action::Register
            },
            registered: false,
            event: false,
            result: if buf_len == 0 {
                Some(Ok(0))
            } else {
                None
            },
        }
    }

    /// What the transfer takes next.
    pub fn action(&self) -> (a: Action)
        ensures
            a == self.action,
    {
        self.action
    }

    /// Sets the result, and goes on to give back what is held.
    fn end(self, result: Result<usize, UsbError>) -> (t: Transfer)
        ensures
            t == self.ending(result),
    {
        let mut t: Transfer = self;
        t.result = Some(result);
        t.give_back()
    }

    /// Goes on to give back what is held.
    fn give_back(self) -> (t: Transfer)
        ensures
            t == self.giving_back(),
    {
        let mut t: Transfer = self;
        t.action = if t.registered {
            Action::Unregister
        } else if t.event {
            Action::CloseEvent
        } else {
            Action::Finished
        };
        t
    }

    /// Goes on after an action has ended.
    pub fn reply(self, reply: Reply) -> (t: Transfer)
        ensures
            t == self.replied(reply),
    {
        let mut t: Transfer = self;
        match (t.action, reply) {
            (Action::Register, Reply::Register(r)) => match r {
                Ok(_) => {
                    t.registered = true;
                    t.action = Action::CreateEvent;
                    t
                },
                Err(e) => t.end(Err(UsbError::from(e))),
            },
            (Action::CreateEvent, Reply::CreateEvent(r)) => match r {
                Ok(_) => {
                    t.event = true;
                    t.action = Action::Submit;
                    t
                },
                Err(e) => t.end(Err(UsbError::from(e))),
            },
            (Action::Submit, Reply::Submit(r)) => match r {
                Ok(n) => if t.isochronous {
                    t.action = Action::Collect;
                    t
                } else {
                    t.end(Ok(n as usize))
                },
                Err(e) => if e.code == IO_PENDING {
                    t.action = Action::Wait(t.wait_ms);
                    t
                } else {
                    t.end(Err(UsbError::from(e)))
                },
            },
            (Action::Wait(_), Reply::Wait(signaled)) => if signaled {
                t.action = Action::Collect;
                t
            } else {
                t.end(Err(UsbError::Timeout))
            },
            (Action::Collect, Reply::Collect(r)) => match r {
                Ok(n) => t.end(Ok(n as usize)),
                Err(e) => t.end(Err(UsbError::from(e))),
            },
            (Action::Unregister, Reply::Unregister) => {
                t.registered = false;
                t.give_back()
            },
            (Action::CloseEvent, Reply::CloseEvent) => {
                t.event = false;
                t.give_back()
            },
            _ => t,
        }
    }

    /// The result of a transfer that has ended.
    pub fn into_result(self) -> (r: Option<Result<usize, UsbError>>)
        ensures
            r == self.result,
    {
        self.result
    }
}

// ---------------------------------------------------------------------------
// Whole transfers
// ---------------------------------------------------------------------------

/// How each action of a transfer would end.
pub struct System {
    pub register: Result<(), HresultError>,
    pub create_event: Result<(), HresultError>,
    pub submit: Result<u32, HresultError>,
    pub signaled: bool,
    pub collect: Result<u32, HresultError>,
}

/// How an action ends.
pub open spec fn system_reply(s: System, action: Action) -> Reply {
    match action {
        Action::Register => Reply::Register(s.register),
        Action::CreateEvent => Reply::CreateEvent(s.create_event),
        Action::Submit => Reply::Submit(s.submit),
        Action::Wait(_) => Reply::Wait(s.signaled),
        Action::Collect => Reply::Collect(s.collect),
        Action::Unregister => Reply::Unregister,
        Action::CloseEvent => Reply::CloseEvent,
        Action::Finished => Reply::CloseEvent,
    }
}

/// A transfer after `steps` actions.
pub open spec fn performed(s: System, t: Transfer, steps: nat) -> Transfer
    decreases steps,
{
    if steps == 0 {
        t
    } else {
        performed(s, t.replied(system_reply(s, t.action)), (steps - 1) as nat)
    }
}

/// The result of a submission.
pub open spec fn submission_result(s: System, isochronous: bool) -> Result<usize, UsbError> {
    match s.submit {
        Ok(n) => if isochronous {
            transferred(s.collect)
        } else {
            Ok(n as usize)
        },
        Err(e) => if e.code != IO_PENDING {
            Err(hresult_meaning(e))
        } else if s.signaled {
            transferred(s.collect)
        } else {
            Err(UsbError::Timeout)
        },
    }
}

/// The result of a transfer.
pub open spec fn transfer_result(s: System, isochronous: bool, empty: bool) -> Result<
    usize,
    UsbError,
> {
    if isochronous && empty {
        Ok(0)
    } else if isochronous && s.register is Err {
        Err(hresult_meaning(s.register->Err_0))
    } else if s.create_event is Err {
        Err(hresult_meaning(s.create_event->Err_0))
    } else {
        submission_result(s, isochronous)
    }
}

/// A transfer ends after at most seven actions, with the result that its calls make.
pub proof fn law_transfer_ends_with_its_result(
    s: System,
    isochronous: bool,
    empty: bool,
    wait_ms: u32,
)
    ensures
        ({
            let t = performed(s, Transfer::begun(isochronous, empty, wait_ms), 7);
            &&& t.action == Action::Finished
            &&& t.result == Some(transfer_result(s, isochronous, empty))
        }),
{
    reveal_with_fuel(performed, 8);
}

/// Whether an action that ended so has obtained the registration of the buffer (1), given it
/// back (-1), or neither.
pub open spec fn registrations(action: Action, reply: Reply) -> int {
    match (action, reply) {
        (Action::Register, Reply::Register(Ok(_))) => 1,
        (Action::Unregister, Reply::Unregister) => -1,
        _ => 0,
    }
}

/// Whether an action that ended so has created the event (1), closed it (-1), or neither.
pub open spec fn events(action: Action, reply: Reply) -> int {
    match (action, reply) {
        (Action::CreateEvent, Reply::CreateEvent(Ok(_))) => 1,
        (Action::CloseEvent, Reply::CloseEvent) => -1,
        _ => 0,
    }
}

/// A transfer after a sequence of replies.
pub open spec fn after_replies(t: Transfer, replies: Seq<Reply>) -> Transfer
    decreases replies.len(),
{
    if replies.len() == 0 {
        t
    } else {
        let before = after_replies(t, replies.drop_last());
        before.replied(replies.last())
    }
}

/// How many registrations have been obtained and not given back.
pub open spec fn registrations_held(t: Transfer, replies: Seq<Reply>) -> int
    decreases replies.len(),
{
    if replies.len() == 0 {
        0
    } else {
        let before = after_replies(t, replies.drop_last());
        registrations_held(t, replies.drop_last()) + registrations(before.action, replies.last())
    }
}

/// How many events have been created and not closed.
pub open spec fn events_held(t: Transfer, replies: Seq<Reply>) -> int
    decreases replies.len(),
{
    if replies.len() == 0 {
        0
    } else {
        let before = after_replies(t, replies.drop_last());
        events_held(t, replies.drop_last()) + events(before.action, replies.last())
    }
}

/// What holds of a transfer at any time.
spec fn transfer_inv(t: Transfer) -> bool {
    match t.action {
        Action::Register => !t.registered && !t.event,
        Action::CreateEvent => !t.event,
        Action::Unregister => t.registered && t.result is Some,
        Action::CloseEvent => !t.registered && t.event && t.result is Some,
        Action::Finished => !t.registered && !t.event && t.result is Some,
        _ => true,
    }
}

/// The transfer knows what it holds.
proof fn lemma_transfer_knows_what_it_holds(t: Transfer, replies: Seq<Reply>)
    requires
        transfer_inv(t),
        !t.registered,
        !t.event,
    ensures
        transfer_inv(after_replies(t, replies)),
        registrations_held(t, replies) == if after_replies(t, replies).registered {
            1int
        } else {
            0int
        },
        events_held(t, replies) == if after_replies(t, replies).event {
            1int
        } else {
            0int
        },
    decreases replies.len(),
{
    if replies.len() > 0 {
        lemma_transfer_knows_what_it_holds(t, replies.drop_last());
    }
}

/// However its actions end, a transfer holds at most one registration and one event at any
/// time, and none of them when it has ended with its result.
pub proof fn law_transfer_gives_back_what_it_obtained(
    isochronous: bool,
    empty: bool,
    wait_ms: u32,
    replies: Seq<Reply>,
)
    ensures
        ({
            let start = Transfer::begun(isochronous, empty, wait_ms);
            let t = after_replies(start, replies);
            &&& 0 <= registrations_held(start, replies) <= 1
            &&& 0 <= events_held(start, replies) <= 1
            &&& t.action == Action::Finished ==> {
                &&& registrations_held(start, replies) == 0
                &&& events_held(start, replies) == 0
                &&& t.result is Some
            }
        }),
{
    lemma_transfer_knows_what_it_holds(Transfer::begun(isochronous, empty, wait_ms), replies);
}

// ---------------------------------------------------------------------------
// Single steps
// ---------------------------------------------------------------------------

/// A transfer tells the very number of bytes that the system has told, whatever the number. An
/// overlapped transfer that completes at once has it from its submission, and any other from
/// its completion.
pub proof fn law_transfer_tells_the_number_of_bytes(t: Transfer, n: u32)
    ensures
        t.action == Action::Collect ==> {
            let r = t.replied(Reply::Collect(Ok(n))).result;
            r is Some && r->0 is Ok && r->0->Ok_0 == n
        },
        t.action == Action::Submit && !t.isochronous ==> {
            let r = t.replied(Reply::Submit(Ok(n))).result;
            r is Some && r->0 is Ok && r->0->Ok_0 == n
        },
        ({
            let r = transferred(Ok(n));
            r is Ok && r->Ok_0 == n
        }),
{
}

/// A call that fails ends the transfer with the meaning of its error, whichever call it is. A
/// submission that is merely pending has not failed.
pub proof fn law_failed_call_ends_the_transfer(t: Transfer, e: HresultError)
    ensures
        t.action == Action::Register ==> t.replied(Reply::Register(Err(e))).result == Some(
            Err::<usize, UsbError>(hresult_meaning(e)),
        ),
        t.action == Action::CreateEvent ==> t.replied(Reply::CreateEvent(Err(e))).result == Some(
            Err::<usize, UsbError>(hresult_meaning(e)),
        ),
        t.action == Action::Submit && e.code != 0x8007_03E5u32 ==> t.replied(
            Reply::Submit(Err(e)),
        ).result == Some(Err::<usize, UsbError>(hresult_meaning(e))),
        t.action == Action::Collect ==> t.replied(Reply::Collect(Err(e))).result == Some(
            Err::<usize, UsbError>(hresult_meaning(e)),
        ),
        t.action is Wait ==> t.replied(Reply::Wait(false)).result == Some(
            Err::<usize, UsbError>(UsbError::Timeout),
        ),
        transferred(Err(e)) == Err::<usize, UsbError>(hresult_meaning(e)),
{
}

/// A call that succeeds leads to the next one: the buffer is registered, the event created, the
/// transfer submitted, waited for if it is pending, and its result collected.
pub proof fn law_calls_follow_one_another(t: Transfer, n: u32, e: HresultError)
    ensures
        t.action == Action::Register ==> t.replied(Reply::Register(Ok(()))) == (Transfer {
            action: Action::CreateEvent,
            registered: true,
            ..t
        }),
        t.action == Action::CreateEvent ==> t.replied(Reply::CreateEvent(Ok(()))) == (Transfer {
            action: Action::Submit,
            event: true,
            ..t
        }),
        t.action == Action::Submit && t.isochronous ==> t.replied(Reply::Submit(Ok(n))) == (
        Transfer { action: Action::Collect, ..t }),
        t.action == Action::Submit && e.code == 0x8007_03E5u32 ==> t.replied(
            Reply::Submit(Err(e)),
        ) == (Transfer { action: Action::Wait(t.wait_ms), ..t }),
        t.action is Wait ==> t.replied(Reply::Wait(true)) == (Transfer {
            action: Action::Collect,
            ..t
        }),
{
}

/// Once a transfer has its result, nothing changes the result, and only what is held is left to
/// be given back.
pub proof fn law_result_stays(t: Transfer, reply: Reply)
    requires
        t.action is Unregister || t.action is CloseEvent || t.action is Finished,
    ensures
        t.replied(reply).result == t.result,
        t.replied(reply).action is Unregister || t.replied(reply).action is CloseEvent || t.replied(
            reply,
        ).action is Finished,
        t.action is Finished ==> t.replied(reply) == t,
{
}

/// A whole transfer that succeeds tells the number of bytes that the system told: an overlapped
/// one at once or after a wait, an isochronous one always by its completion.
pub proof fn law_whole_transfer_tells_the_number_of_bytes(s: System, wait_ms: u32, n: u32)
    requires
        s.register is Ok,
        s.create_event is Ok,
    ensures
        ({
            let t = performed(s, Transfer::begun(false, false, wait_ms), 7);
            let u = performed(s, Transfer::begun(true, false, wait_ms), 7);
            let pending = s.submit is Err && s.submit->Err_0.code == 0x8007_03E5u32 && s.signaled;
            &&& s.submit == Ok::<u32, HresultError>(n) ==> t.result is Some && t.result->0 is Ok
                && t.result->0->Ok_0 == n
            &&& pending && s.collect == Ok::<u32, HresultError>(n) ==> t.result is Some
                && t.result->0 is Ok && t.result->0->Ok_0 == n
            &&& (pending || s.submit is Ok) && s.collect == Ok::<u32, HresultError>(n)
                ==> u.result is Some && u.result->0 is Ok && u.result->0->Ok_0 == n
        }),
{
    reveal_with_fuel(performed, 8);
}

/// A transfer begins without anything held. Only an empty isochronous one has its result at
/// once, and that is that no byte was moved.
pub proof fn law_transfer_begins(isochronous: bool, empty: bool, wait_ms: u32)
    ensures
        ({
            let t = Transfer::begun(isochronous, empty, wait_ms);
            &&& t.isochronous == isochronous && t.wait_ms == wait_ms
            &&& !t.registered && !t.event
            &&& !isochronous ==> t.action == Action::CreateEvent && t.result is None
            &&& isochronous && !empty ==> t.action == Action::Register && t.result is None
            &&& isochronous && empty ==> t.action == Action::Finished && t.result == Some(
                Ok::<usize, UsbError>(0),
            )
        }),
{
}

/// A transfer that ends keeps what it holds until it has given it back: the registration first,
/// the event next, and nothing where nothing is held.
pub proof fn law_ending_transfer_gives_back_in_order(t: Transfer, result: Result<usize, UsbError>)
    ensures
        ({
            let e = t.ending(result);
            &&& e.result == Some(result)
            &&& e.registered == t.registered && e.event == t.event
            &&& t.registered ==> e.action == Action::Unregister
            &&& !t.registered && t.event ==> e.action == Action::CloseEvent
            &&& !t.registered && !t.event ==> e.action == Action::Finished
        }),
        t.action == Action::Unregister ==> {
            let u = t.replied(Reply::Unregister);
            &&& !u.registered && u.event == t.event
            &&& t.event ==> u.action == Action::CloseEvent
            &&& !t.event ==> u.action == Action::Finished
        },
        t.action == Action::CloseEvent && !t.registered ==> {
            let u = t.replied(Reply::CloseEvent);
            !u.event && u.action == Action::Finished
        },
{
}

/// The completion of a transfer sets its result to the number of bytes that the system told,
/// and so does the submission of an overlapped one that completes at once.
pub proof fn law_reply_sets_the_number_of_bytes(t: Transfer, n: u32, u: Transfer)
    requires
        (t.action is Collect && call_ensures(
            Transfer::reply,
            (t, Reply::Collect(Ok::<u32, HresultError>(n))),
            u,
        )) || (t.action is Submit && !t.isochronous && call_ensures(
            Transfer::reply,
            (t, Reply::Submit(Ok::<u32, HresultError>(n))),
            u,
        )),
    ensures
        u.result is Some && u.result->0 is Ok && u.result->0->Ok_0 == n,
{
}

} // verus!
