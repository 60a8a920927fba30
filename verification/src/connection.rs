//! The life of one connection, as a state machine that does no I/O.
//!
//! A connection goes through five states in a fixed order:
//! `Accepted`, `Reading`, `Classified`, `Responding`, `Closed`. The machine decides; the
//! caller does the work on the socket. Each call of [`step`] takes what the caller has to
//! report and returns the state that follows together with what the caller is to do next.
//! Nothing is ever tried twice, and nothing waits on a clock: a failed read, a line that was
//! cut short, a failed write and a report that the state was not waiting for all end in
//! [`Action::Abort`].

use vstd::prelude::*;
use vstd::utf8::*;
use crate::response::{classify, response_text, status_for, wire_text, Response, Status};
use crate::text::{ends_line, ends_with_line_feed};

verus! {

/// Where a connection stands.
#[derive(Clone, Copy, Debug, PartialEq, Eq, Structural)]
pub enum State {
    /// The listener has handed the connection over; nothing was read yet.
    Accepted,
    /// The request line is being read.
    Reading,
    /// The request line was read and got this status.
    Classified(Status),
    /// The response is being written.
    Responding,
    /// The response went out and the connection was released.
    Closed,
}

/// What the caller reports to the machine.
#[derive(Clone, Copy, Debug, PartialEq, Eq)]
pub enum Event<'a> {
    /// No work was due, so there is nothing to report.
    Continue,
    /// The read returned this text: everything up to and including the first line feed, or
    /// less where the peer closed the stream before one came.
    Line(&'a str),
    /// The read failed.
    ReadFailed,
    /// All bytes of the response were written.
    Written,
    /// The write failed.
    WriteFailed,
}

/// What the machine asks the caller to do.
#[derive(Debug, PartialEq, Eq)]
pub enum Action {
    /// Nothing on the socket: report [`Event::Continue`].
    Continue,
    /// Read one line and report [`Event::Line`] or [`Event::ReadFailed`].
    ReadLine,
    /// Write these bytes in one piece and report [`Event::Written`] or
    /// [`Event::WriteFailed`].
    Write(Vec<u8>),
    /// Release the connection: it has been served.
    Close,
    /// Give up for good: the failure is fatal.
    Abort,
}

/// An [`Action`] with the bytes to write as a sequence.
pub enum ActionView {
    Continue,
    ReadLine,
    Write(Seq<u8>),
    Close,
    Abort,
}

impl View for Action {
    type V = ActionView;

    open spec fn view(&self) -> ActionView {
        match self {
            Action::Continue => ActionView::Continue,
            Action::ReadLine => ActionView::ReadLine,
            Action::Write(bytes) => ActionView::Write(bytes@),
            Action::Close => ActionView::Close,
            Action::Abort => ActionView::Abort,
        }
    }
}

impl State {
    /// The place of the state in the life of a connection, counted from `Accepted`.
    pub open spec fn rank(self) -> nat {
        match self {
            State::Accepted => 0,
            State::Reading => 1,
            State::Classified(_) => 2,
            State::Responding => 3,
            State::Closed => 4,
        }
    }
}

/// The transitions of the machine: the state and the action that follow when `event` is
/// reported in `state`.
///
/// - `Accepted`, on `Continue`: `Reading`, and a line is to be read.
/// - `Reading`, on a line that ends with a line feed: `Classified` with the status of that
///   line, and nothing is to be done on the socket.
/// - `Classified`, on `Continue`: `Responding`, and the whole response for that status is to
///   be written.
/// - `Responding`, on `Written`: `Closed`, and the connection is to be released.
/// - Everything else leaves the state as it is and aborts.
pub open spec fn transition(state: State, event: Event) -> (State, ActionView) {
    match (state, event) {
        (State::Accepted, Event::Continue) => (State::Reading, ActionView::ReadLine),
        (State::Reading, Event::Line(line)) => if ends_line(line@) {
            (State::Classified(status_for(line@)), ActionView::Continue)
        } else {
            (state, ActionView::Abort)
        },
        (State::Classified(status), Event::Continue) => (
            State::Responding,
            ActionView::Write(encode_utf8(wire_text(status, status.page_text()))),
        ),
        (State::Responding, Event::Written) => (State::Closed, ActionView::Close),
        _ => (state, ActionView::Abort),
    }
}

/// A connection is served in four steps: from `Accepted`, a line that ends with a line feed
/// leads through `Reading`, `Classified` and `Responding` to `Closed`, and what is written on
/// the way is the complete response for that line.
pub proof fn lemma_served(line: &str)
    requires
        ends_line(line@),
    ensures
        transition(State::Accepted, Event::Continue) == (State::Reading, ActionView::ReadLine),
        transition(State::Reading, Event::Line(line)) == (
            State::Classified(status_for(line@)),
            ActionView::Continue,
        ),
        transition(State::Classified(status_for(line@)), Event::Continue) == (
            State::Responding,
            ActionView::Write(encode_utf8(response_text(line@))),
        ),
        transition(State::Responding, Event::Written) == (State::Closed, ActionView::Close),
{
}

/// Nothing is tried twice: a step either aborts and leaves the state as it is, or takes the
/// connection to the state that comes next in its life. `Closed` is left by no step.
pub proof fn lemma_forward_or_abort(state: State, event: Event)
    ensures
        ({
            let (next, action) = transition(state, event);
            if action is Abort {
                next == state
            } else {
                next.rank() == state.rank() + 1
            }
        }),
        state is Closed ==> transition(state, event).1 is Abort,
{
}

/// Failure is fatal: a failed read, a failed write and a line that no line feed ends abort,
/// whatever the state.
pub proof fn lemma_failure_aborts(state: State, event: Event)
    requires
        event is ReadFailed || event is WriteFailed || (event matches Event::Line(line)
            && !ends_line(line@)),
    ensures
        transition(state, event) == (state, ActionView::Abort),
{
}

/// Takes one step: from `state`, on `event`, to the next state and the action that is due.
pub fn step(state: State, event: Event) -> (next: (State, Action))
    ensures
        next.0 == transition(state, event).0,
        next.1@ == transition(state, event).1,
{
    match (state, event) {
        (State::Accepted, Event::Continue) => (State::Reading, Action::ReadLine),
        (State::Reading, Event::Line(line)) => {
            if ends_with_line_feed(line) {
                (State::Classified(classify(line)), Action::Continue)
            } else {
                (state, Action::Abort)
            }
        },
        (State::Classified(status), Event::Continue) => {
            let response = Response { status, body: status.page() };
            (State::Responding, Action::Write(response.to_bytes()))
        },
        (State::Responding, Event::Written) => (State::Closed, Action::Close),
        _ => (state, Action::Abort),
    }
}

} // verus!
