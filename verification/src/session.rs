//! The per-connection state machine.  The caller (the transport loop) feeds
//! one input at a time — an inbound line, an end of stream, a framing or
//! transport failure, or the next bus event — and performs the returned
//! actions in order: write a line, publish an event, subscribe, or close.
//! All registry work happens inside `step`, so one call under one lock is one
//! atomic admission or departure.

use vstd::prelude::*;
use crate::events::{
    RoomEvent, event_for, event_user, prompt_line, prompt_spec, rejection_line, rejection_spec,
    render_spec, roster_line, roster_spec,
};
use crate::framer::FrameError;
use crate::registry::{Registry, join_ok};

verus! {

/// Where a session stands: before a name, chatting, or done.
pub enum SessionState {
    AwaitingName,
    Active { name: String },
    Terminated,
}

/// One thing the transport loop reports to the session.
pub enum Input {
    /// The connection was just accepted.
    Connected,
    /// A complete inbound line.
    Line(String),
    /// The inbound stream closed cleanly.
    EndOfStream,
    /// The inbound bytes could not be framed; fatal.
    Framing(FrameError),
    /// A transport read or write failed; fatal.
    Io,
    /// The next event from this session's bus subscription.
    Event(RoomEvent),
    /// The subscription overflowed; the session is unrecoverable.
    Lagged,
    /// The bus itself is gone.
    BusClosed,
}

/// One thing the transport loop must do for the session.
pub enum Action {
    /// Write this line to the client.
    Send(String),
    /// Publish this event on the bus.
    Publish(RoomEvent),
    /// Create this session's bus subscription.
    Subscribe,
    /// Close the connection; the session is over.
    Close,
}

/// `a` writes `line` to the client.
pub open spec fn is_send(a: Action, line: Seq<char>) -> bool {
    a matches Action::Send(s) && s@ == line
}

/// `a` publishes `Joined` for `user`.
pub open spec fn is_publish_joined(a: Action, user: Seq<char>) -> bool {
    a matches Action::Publish(ev) && (ev matches RoomEvent::Joined { user: u } && u@ == user)
}

/// `a` publishes `Left` for `user`.
pub open spec fn is_publish_left(a: Action, user: Seq<char>) -> bool {
    a matches Action::Publish(ev) && (ev matches RoomEvent::Left { user: u } && u@ == user)
}

/// `a` publishes `Said` by `user` with `text`.
pub open spec fn is_publish_said(a: Action, user: Seq<char>, text: Seq<char>) -> bool {
    a matches Action::Publish(ev) && (ev matches RoomEvent::Said { user: u, text: t }
        && u@ == user && t@ == text)
}

/// The registry after `name` left: gone, and nothing else moved.
pub open spec fn reg_left(pre: Seq<Seq<char>>, post: Seq<Seq<char>>, name: Seq<char>) -> bool {
    &&& !post.contains(name)
    &&& pre.contains(name) ==> post == pre.remove(pre.index_of(name))
    &&& !pre.contains(name) ==> post == pre
}

/// What one `step` does, over the state and registry before and after, the
/// input, and the actions handed back.
pub open spec fn step_post(
    pre: SessionState,
    post: SessionState,
    reg_pre: Seq<Seq<char>>,
    reg_post: Seq<Seq<char>>,
    input: Input,
    acts: Seq<Action>,
) -> bool {
    match pre {
        SessionState::AwaitingName => match input {
            Input::Connected => {
                &&& post is AwaitingName
                &&& reg_post == reg_pre
                &&& acts.len() == 1
                &&& is_send(acts[0], prompt_spec())
            },
            Input::Line(l) => {
                if join_ok(reg_pre, l@) {
                    &&& post matches SessionState::Active { name } && name@ == l@
                    &&& reg_post == reg_pre.push(l@)
                    &&& acts.len() == 3
                    &&& is_send(acts[0], roster_spec(reg_pre.filter(|m: Seq<char>| m != l@)))
                    &&& is_publish_joined(acts[1], l@)
                    &&& acts[2] is Subscribe
                } else {
                    &&& post is Terminated
                    &&& reg_post == reg_pre
                    &&& acts.len() == 2
                    &&& is_send(acts[0], rejection_spec())
                    &&& acts[1] is Close
                }
            },
            // Nothing was admitted yet: no cleanup, no explanation owed.
            _ => {
                &&& post is Terminated
                &&& reg_post == reg_pre
                &&& acts.len() == 1
                &&& acts[0] is Close
            },
        },
        SessionState::Active { name } => match input {
            Input::Event(ev) => {
                &&& post == pre
                &&& reg_post == reg_pre
                &&& if event_user(ev) == name@ {
                    acts.len() == 0
                } else {
                    acts.len() == 1 && is_send(acts[0], render_spec(ev))
                }
            },
            Input::Line(l) => {
                &&& post == pre
                &&& reg_post == reg_pre
                &&& acts.len() == 1
                &&& is_publish_said(acts[0], name@, l@)
            },
            Input::Connected => {
                &&& post == pre
                &&& reg_post == reg_pre
                &&& acts.len() == 0
            },
            // Every fatal end while active leaves the room and tells it.
            _ => {
                &&& post is Terminated
                &&& reg_left(reg_pre, reg_post, name@)
                &&& acts.len() == 2
                &&& is_publish_left(acts[0], name@)
                &&& acts[1] is Close
            },
        },
        SessionState::Terminated => {
            &&& post is Terminated
            &&& reg_post == reg_pre
            &&& acts.len() == 0
        },
    }
}

/// Law: a `Said` event reaches every other active session as `[user] text`,
/// and never its origin: a session whose own name equals the event's user —
/// in particular the publisher itself — writes nothing for it.
pub proof fn lemma_said_fanout(
    pre: SessionState,
    post: SessionState,
    reg_pre: Seq<Seq<char>>,
    reg_post: Seq<Seq<char>>,
    user: String,
    text: String,
    acts: Seq<Action>,
)
    requires
        pre is Active,
        step_post(pre, post, reg_pre, reg_post, Input::Event(RoomEvent::Said { user, text }), acts),
    ensures
        (pre matches SessionState::Active { name } && name@ != user@) ==> acts.len() == 1
            && is_send(acts[0], "["@ + user@ + "] "@ + text@),
        (pre matches SessionState::Active { name } && name@ == user@) ==> acts.len() == 0,
{
}

/// One client connection's session, from accept to close.
pub struct Session {
    pub state: SessionState,
}

impl Session {
    /// A session is coherent when an active one carries a valid name.
    pub open spec fn wf(&self) -> bool {
        match self.state {
            SessionState::Active { name } => crate::names::valid_name_spec(name@),
            _ => true,
        }
    }

    /// A fresh session for a newly accepted connection.
    pub fn new() -> (s: Session)
        ensures
            s.state is AwaitingName,
            s.wf(),
    {
        Session { state: SessionState::AwaitingName }
    }

    /// Drive the session by one input; the caller performs the returned
    /// actions in order.  Called under the registry's critical section, this
    /// makes the admission check-and-insert and the departure atomic.
    pub fn step(&mut self, reg: &mut Registry, input: Input) -> (acts: Vec<Action>)
        requires
            old(self).wf(),
            old(reg).wf(),
        ensures
            final(self).wf(),
            final(reg).wf(),
            step_post(old(self).state, final(self).state, old(reg)@, final(reg)@, input, acts@),
    {
        let mut acts: Vec<Action> = Vec::new();
        match &self.state {
            SessionState::AwaitingName => {
                match input {
                    Input::Connected => {
                        acts.push(Action::Send(prompt_line()));
                    },
                    Input::Line(l) => {
                        let ghost reg_pre = reg@;
                        if reg.try_join(&l) {
                            let others = reg.snapshot(&l);
                            proof {
                                broadcast use vstd::prelude::Seq::lemma_filter_push;
                                assert(reg@.filter(|m: Seq<char>| m != l@)
                                    == reg_pre.filter(|m: Seq<char>| m != l@));
                            }
                            acts.push(Action::Send(roster_line(&others)));
                            acts.push(Action::Publish(RoomEvent::Joined { user: l.clone() }));
                            acts.push(Action::Subscribe);
                            self.state = SessionState::Active { name: l };
                        } else {
                            acts.push(Action::Send(rejection_line()));
                            acts.push(Action::Close);
                            self.state = SessionState::Terminated;
                        }
                    },
                    _ => {
                        acts.push(Action::Close);
                        self.state = SessionState::Terminated;
                    },
                }
            },
            SessionState::Active { name } => {
                match input {
                    Input::Event(ev) => {
                        match event_for(name, &ev) {
                            Some(line) => {
                                acts.push(Action::Send(line));
                            },
                            None => {
                            },
                        }
                    },
                    Input::Line(l) => {
                        acts.push(Action::Publish(RoomEvent::Said { user: name.clone(), text: l }));
                    },
                    Input::Connected => {
                    },
                    _ => {
                        let name = name.clone();
                        reg.leave(&name);
                        acts.push(Action::Publish(RoomEvent::Left { user: name }));
                        acts.push(Action::Close);
                        self.state = SessionState::Terminated;
                    },
                }
            },
            SessionState::Terminated => {
            },
        }
        acts
    }
}

} // verus!
