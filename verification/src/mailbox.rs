//! The per-handle mailbox actor.
//!
//! One sequential worker owns a handle's connect lifecycle and is the only
//! entity that ever touches the handle's native state.  Callers never lock
//! anything; they only append requests to the worker's queue, and the
//! worker drains that queue strictly in submission order, so no two
//! operations on one handle ever interleave or run out of order.
//!
//! The module states the actor as a transition system over
//! [`MailboxModel`]: `spec_submit` and `spec_step` say exactly what one
//! enqueue and one worker step do, the executable methods are proved to
//! follow them, and [`lemma_strict_ordering`] derives the ordering law from
//! the transitions alone.

use vstd::prelude::*;

use crate::status::ERR_CLOSED;
use crate::status::Status;
use crate::tag::RawTag;
use crate::tag::TagModel;
use crate::tag::tag_after_connect;
use crate::tag::tag_after_write;
use crate::tag::tag_read_result;
use crate::tag::tag_status;
use crate::tag::tag_write_err;
use crate::tag::tag_write_ok;

verus! {

/// Lifecycle of one handle as its mailbox worker drives it.
///
/// `Created` is the state at birth; connect attempts move the handle
/// through `Connecting` to `Connected`; a fatal native failure drops it to
/// `Error`, from which an internal reconnect attempt moves it back through
/// `Connecting`; `Closed` is terminal and entered only on explicit removal.
/// The simulated handle of this build has no fatal failures, so the edge
/// into `Error` is never taken here; the way back out of it is modeled and
/// proved all the same.
#[derive(Clone, Copy, Debug, PartialEq, Eq, Structural)]
pub enum LifecycleState {
    Created,
    Connecting,
    Connected,
    Error,
    Closed,
}

/// One caller instruction, queued for the worker.
#[derive(Clone, Copy, Debug, PartialEq, Eq, Structural)]
pub enum Request {
    ConnectWait,
    Read(usize),
    Write(usize, i32),
    QueryStatus,
}

/// The worker's answer to one request, delivered in queue order.
#[derive(Clone, Copy, Debug, PartialEq, Eq, Structural)]
pub enum Response {
    ConnectedNow(bool),
    Value(i32),
    Written,
    StatusIs(Status),
    Rejected(Status),
}

/// Mathematical model of one mailbox: the handle it owns, the lifecycle
/// state the worker tracks, and the pending queue in submission order.
#[verifier::ext_equal]
pub struct MailboxModel {
    pub tag: TagModel,
    pub state: LifecycleState,
    pub queue: Seq<Request>,
}

impl MailboxModel {
    /// Coherence between the worker's lifecycle state and the handle: a
    /// well-formed handle, connected exactly when the worker believes so
    /// for the states that claim it.
    pub open spec fn wf(self) -> bool {
        &&& self.tag.wf()
        &&& (self.state is Connected ==> self.tag.connected)
        &&& ((self.state is Created || self.state is Connecting) ==> !self.tag.connected)
    }
}

/// The model of a freshly created mailbox around a fresh handle.
pub open spec fn mailbox_created(tag: TagModel) -> MailboxModel {
    MailboxModel { tag, state: LifecycleState::Created, queue: Seq::empty() }
}

/// What one enqueue does: the request joins the back of the queue and
/// nothing else moves.
pub open spec fn spec_submit(m: MailboxModel, r: Request) -> MailboxModel {
    MailboxModel { queue: m.queue.push(r), ..m }
}

/// The lifecycle state after one connect attempt on handle state `t`.
pub open spec fn state_after_connect(t: TagModel) -> LifecycleState {
    if tag_after_connect(t).connected {
        LifecycleState::Connected
    } else {
        LifecycleState::Connecting
    }
}

/// What processing one request does to the handle and lifecycle, and what
/// answer it produces.  A closed mailbox rejects everything; otherwise the
/// request acts on the handle exactly as the handle's own contract says.
pub open spec fn spec_process(t: TagModel, state: LifecycleState, r: Request) -> (
    TagModel,
    LifecycleState,
    Response,
) {
    if state is Closed {
        (t, state, Response::Rejected(Status { code: ERR_CLOSED }))
    } else {
        match r {
            Request::ConnectWait => (
                tag_after_connect(t),
                state_after_connect(t),
                Response::ConnectedNow(tag_after_connect(t).connected),
            ),
            Request::Read(offset) => (
                t,
                state,
                match tag_read_result(t, offset as int) {
                    Result::Ok(v) => Response::Value(v),
                    Result::Err(s) => Response::Rejected(s),
                },
            ),
            Request::Write(offset, value) => (
                tag_after_write(t, offset as int, value),
                state,
                if tag_write_ok(t, offset as int) {
                    Response::Written
                } else {
                    Response::Rejected(tag_write_err(t, offset as int))
                },
            ),
            Request::QueryStatus => (t, state, Response::StatusIs(tag_status(t))),
        }
    }
}

/// What one worker step does: nothing on an empty queue, otherwise the
/// front request is consumed and processed while every later request keeps
/// its place.
pub open spec fn spec_step(m: MailboxModel) -> (MailboxModel, Option<Response>) {
    if m.queue.len() == 0 {
        (m, None)
    } else {
        let (t, state, resp) = spec_process(m.tag, m.state, m.queue[0]);
        (MailboxModel { tag: t, state, queue: m.queue.drop_first() }, Some(resp))
    }
}

/// Strict ordering: from any connected, coherent mailbox whose queue holds
/// a write of `value` followed by a read of the same in-range offset, the
/// worker answers the write first and the read then yields exactly the
/// value just written — never a stale one — and the queue is drained.
pub proof fn lemma_strict_ordering(m: MailboxModel, offset: usize, value: i32)
    requires
        m.wf(),
        m.state is Connected,
        (offset as int) < m.tag.cells.len(),
        m.queue == seq![Request::Write(offset, value), Request::Read(offset)],
    ensures
        spec_step(m).1 == Some(Response::Written),
        spec_step(spec_step(m).0).1 == Some(Response::Value(value)),
        spec_step(spec_step(m).0).0.queue.len() == 0,
{
    let m1 = spec_step(m).0;
    assert(m1.queue == seq![Request::Read(offset)]) by {
        assert(m.queue.drop_first() =~= seq![Request::Read(offset)]);
    }
    assert(m1.tag.cells[offset as int] == value);
}

/// A per-handle mailbox: the owned handle, the worker's lifecycle state and
/// the pending requests in submission order.  The model is the view.
pub struct Mailbox {
    tag: RawTag,
    state: LifecycleState,
    queue: Vec<Request>,
}

impl View for Mailbox {
    type V = MailboxModel;

    closed spec fn view(&self) -> MailboxModel {
        MailboxModel { tag: self.tag@, state: self.state, queue: self.queue@ }
    }
}

impl Mailbox {
    /// Wraps a freshly created handle; the worker starts in `Created` with
    /// an empty queue and will drive connecting from the first step on.
    pub fn new(tag: RawTag) -> (m: Mailbox)
        requires
            tag@.wf(),
            !tag@.connected,
        ensures
            m@ == mailbox_created(tag@),
            m@.wf(),
    {
        let m = Mailbox { tag, state: LifecycleState::Created, queue: Vec::new() };
        proof {
            assert(m@ =~= mailbox_created(m.tag@));
        }
        m
    }

    /// Appends one request to the back of the queue.  Requests are
    /// consumed strictly in this order.
    pub fn submit(&mut self, r: Request)
        requires
            old(self)@.wf(),
        ensures
            final(self)@ == spec_submit(old(self)@, r),
            final(self)@.wf(),
    {
        self.queue.push(r);
        proof {
            assert(final(self)@ =~= spec_submit(old(self)@, r));
        }
    }

    /// One worker step: consumes and answers the front request, if any.
    pub fn step(&mut self) -> (resp: Option<Response>)
        requires
            old(self)@.wf(),
        ensures
            final(self)@ == spec_step(old(self)@).0,
            resp == spec_step(old(self)@).1,
            final(self)@.wf(),
    {
        if self.queue.len() == 0 {
            return None;
        }
        let req = self.queue.remove(0);
        proof {
            assert(self@.queue =~= old(self)@.queue.drop_first());
        }
        let resp = match req {
            Request::ConnectWait => {
                if matches!(self.state, LifecycleState::Closed) {
                    Response::Rejected(Status::from_code(ERR_CLOSED))
                } else {
                    let now = self.tag.connect_attempt();
                    self.state = if now {
                        LifecycleState::Connected
                    } else {
                        LifecycleState::Connecting
                    };
                    Response::ConnectedNow(now)
                }
            },
            Request::Read(offset) => {
                if matches!(self.state, LifecycleState::Closed) {
                    Response::Rejected(Status::from_code(ERR_CLOSED))
                } else {
                    match self.tag.read(offset) {
                        Result::Ok(v) => Response::Value(v),
                        Result::Err(s) => Response::Rejected(s),
                    }
                }
            },
            Request::Write(offset, value) => {
                if matches!(self.state, LifecycleState::Closed) {
                    Response::Rejected(Status::from_code(ERR_CLOSED))
                } else {
                    match self.tag.write(offset, value) {
                        Result::Ok(_) => Response::Written,
                        Result::Err(s) => Response::Rejected(s),
                    }
                }
            },
            Request::QueryStatus => {
                if matches!(self.state, LifecycleState::Closed) {
                    Response::Rejected(Status::from_code(ERR_CLOSED))
                } else {
                    Response::StatusIs(self.tag.status())
                }
            },
        };
        proof {
            assert(final(self)@ =~= spec_step(old(self)@).0);
        }
        Some(resp)
    }

    /// One background connect attempt, taken by the worker on its own
    /// pacing whether or not any caller is waiting.  It never rejects and
    /// never reports failure as fatal: an unreachable target just leaves
    /// the worker connecting.
    pub fn poll_connect(&mut self)
        requires
            old(self)@.wf(),
            !(old(self)@.state is Closed),
        ensures
            final(self)@.tag == tag_after_connect(old(self)@.tag),
            final(self)@.state == state_after_connect(old(self)@.tag),
            final(self)@.queue == old(self)@.queue,
            final(self)@.wf(),
    {
        let now = self.tag.connect_attempt();
        self.state = if now {
            LifecycleState::Connected
        } else {
            LifecycleState::Connecting
        };
    }

    /// Closes the mailbox on explicit removal; `Closed` is terminal and
    /// every later request is rejected.
    pub fn close(&mut self)
        requires
            old(self)@.wf(),
        ensures
            final(self)@ == (MailboxModel { state: LifecycleState::Closed, ..old(self)@ }),
            final(self)@.wf(),
    {
        self.state = LifecycleState::Closed;
        proof {
            assert(final(self)@ =~= (MailboxModel {
                state: LifecycleState::Closed,
                ..old(self)@
            }));
        }
    }

    /// The lifecycle state the worker currently tracks.
    pub fn lifecycle(&self) -> (s: LifecycleState)
        ensures
            s == self@.state,
    {
        self.state
    }

    /// How many requests are still queued.
    pub fn pending(&self) -> (n: usize)
        ensures
            n == self@.queue.len(),
    {
        self.queue.len()
    }
}

} // verus!
