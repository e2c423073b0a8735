//! Room events and how a session renders them into protocol lines.

use vstd::prelude::*;
use vstd::string::StringExecFns;

verus! {

/// An event on the room's bus.  Events are immutable once published; every
/// subscriber sees them in publication order.
#[derive(Clone, Debug)]
pub enum RoomEvent {
    Joined { user: String },
    Left { user: String },
    Said { user: String, text: String },
}

/// The user an event originates from.
pub open spec fn event_user(ev: RoomEvent) -> Seq<char> {
    match ev {
        RoomEvent::Joined { user } => user@,
        RoomEvent::Left { user } => user@,
        RoomEvent::Said { user, text } => user@,
    }
}

/// The line shown to a subscriber for an event of another user.
pub open spec fn render_spec(ev: RoomEvent) -> Seq<char> {
    match ev {
        RoomEvent::Joined { user } => "* "@ + user@ + " has entered the room"@,
        RoomEvent::Left { user } => "* "@ + user@ + " has left the room"@,
        RoomEvent::Said { user, text } => "["@ + user@ + "] "@ + text@,
    }
}

/// Render `ev` to the line shown to sessions other than its origin.
pub fn render_event(ev: &RoomEvent) -> (r: String)
    ensures
        r@ == render_spec(*ev),
{
    match ev {
        RoomEvent::Joined { user } => {
            let mut s = String::from_str("* ");
            s.append(user.as_str());
            s.append(" has entered the room");
            s
        },
        RoomEvent::Left { user } => {
            let mut s = String::from_str("* ");
            s.append(user.as_str());
            s.append(" has left the room");
            s
        },
        RoomEvent::Said { user, text } => {
            let mut s = String::from_str("[");
            s.append(user.as_str());
            s.append("] ");
            s.append(text.as_str());
            s
        },
    }
}

/// The line session `me` must write for `ev`: none when the event is `me`'s
/// own, the rendering otherwise.
pub fn event_for(me: &String, ev: &RoomEvent) -> (r: Option<String>)
    ensures
        event_user(*ev) == me@ ==> r is None,
        event_user(*ev) != me@ ==> (r matches Some(l) && l@ == render_spec(*ev)),
{
    let user = match ev {
        RoomEvent::Joined { user } => user,
        RoomEvent::Left { user } => user,
        RoomEvent::Said { user, text } => user,
    };
    if user.eq(me) {
        None
    } else {
        Some(render_event(ev))
    }
}

/// The names of a roster, comma-and-space joined, in roster order.
pub open spec fn join_names(names: Seq<Seq<char>>) -> Seq<char>
    decreases names.len(),
{
    if names.len() == 0 {
        Seq::<char>::empty()
    } else if names.len() == 1 {
        names[0]
    } else {
        join_names(names.drop_last()) + ", "@ + names.last()
    }
}

/// The roster line a newly admitted user is shown.
pub open spec fn roster_spec(names: Seq<Seq<char>>) -> Seq<char> {
    "* The room contains: "@ + join_names(names)
}

/// Build the roster line for the members in `names`.
pub fn roster_line(names: &Vec<String>) -> (r: String)
    ensures
        r@ == roster_spec(names@.map_values(|m: String| m@)),
{
    let ghost m = names@.map_values(|n: String| n@);
    let mut s = String::from_str("* The room contains: ");
    let mut i: usize = 0;
    let len = names.len();
    proof {
        assert(m.subrange(0, 0) =~= Seq::<Seq<char>>::empty());
        assert(s@ =~= "* The room contains: "@ + join_names(m.subrange(0, 0)));
    }
    while i < len
        invariant
            0 <= i <= len == m.len(),
            len == names@.len(),
            m == names@.map_values(|n: String| n@),
            s@ == "* The room contains: "@ + join_names(m.subrange(0, i as int)),
        decreases len - i,
    {
        let ghost prefix = m.subrange(0, i as int);
        if i > 0 {
            s.append(", ");
        }
        s.append(names[i].as_str());
        proof {
            let step = m.subrange(0, i + 1 as int);
            assert(step.drop_last() =~= prefix);
            assert(step.last() == m[i as int]);
            if i == 0 {
                assert(join_names(step) == m[0]);
                assert(s@ =~= "* The room contains: "@ + join_names(step));
            } else {
                assert(join_names(step) == join_names(prefix) + ", "@ + m[i as int]);
                assert(s@ =~= "* The room contains: "@ + join_names(step));
            }
        }
        i = i + 1;
    }
    proof {
        assert(m.subrange(0, len as int) =~= m);
    }
    s
}

/// The prompt sent to a fresh connection.
pub open spec fn prompt_spec() -> Seq<char> {
    "Welcome to budgetchat! What shall I call you?"@
}

/// The line sent when a candidate name is refused.
pub open spec fn rejection_spec() -> Seq<char> {
    "Illegal username"@
}

/// Build the prompt line.
pub fn prompt_line() -> (r: String)
    ensures
        r@ == prompt_spec(),
{
    String::from_str("Welcome to budgetchat! What shall I call you?")
}

/// Build the rejection line.
pub fn rejection_line() -> (r: String)
    ensures
        r@ == rejection_spec(),
{
    String::from_str("Illegal username")
}

} // verus!
