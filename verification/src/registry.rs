//! The membership registry: the single source of truth for who is in the
//! room.  A name enters only through `try_join`, which checks validity and
//! uniqueness and inserts in one step; the caller serialises access, so the
//! check and the insert can never be split by another joiner.

use vstd::prelude::*;
use crate::names::{valid_name, valid_name_spec};

verus! {

/// Law: a valid, unregistered name is admitted, and a roster taken after the
/// admission shows it to every other member.  `try_join` admits exactly when
/// `join_ok` holds and leaves the room extended by the name; `snapshot`
/// excluding any other member then contains it.
pub proof fn lemma_join_then_snapshot(r: Seq<Seq<char>>, name: Seq<char>, excluding: Seq<char>)
    requires
        join_ok(r, name),
        excluding != name,
    ensures
        r.push(name).contains(name),
        r.push(name).filter(|m: Seq<char>| m != excluding).contains(name),
{
    let joined = r.push(name);
    assert(joined[r.len() as int] == name);
    broadcast use vstd::prelude::Seq::lemma_filter_contains;
    assert(joined.filter(|m: Seq<char>| m != excluding).contains(joined[r.len() as int]));
}

/// Law: two joins racing for one name cannot both be admitted: once the name
/// stands in the room, a second join of it is refused.
pub proof fn lemma_join_exclusive(r: Seq<Seq<char>>, name: Seq<char>)
    requires
        join_ok(r, name),
    ensures
        !join_ok(r.push(name), name),
{
    assert(r.push(name)[r.len() as int] == name);
}

/// Law: a name is free again the moment its departure completes: after any
/// room state in which the name no longer stands, a join of it is admitted.
pub proof fn lemma_leave_then_rejoin(r: Seq<Seq<char>>, name: Seq<char>)
    requires
        valid_name_spec(name),
        !r.contains(name),
    ensures
        join_ok(r, name),
{
}

/// The set of display names currently in the room, in join order.
pub struct Registry {
    members: Vec<String>,
}

impl View for Registry {
    type V = Seq<Seq<char>>;

    closed spec fn view(&self) -> Seq<Seq<char>> {
        self.members@.map_values(|m: String| m@)
    }
}

/// `try_join` admits `name` into a room with members `r` iff this holds.
pub open spec fn join_ok(r: Seq<Seq<char>>, name: Seq<char>) -> bool {
    valid_name_spec(name) && !r.contains(name)
}

impl Registry {
    /// Invariant: every member is a valid name and no name is held twice.
    pub open spec fn wf(&self) -> bool {
        &&& forall|i: int| 0 <= i < self@.len() ==> valid_name_spec(#[trigger] self@[i])
        &&& forall|i: int, j: int| 0 <= i < j < self@.len() ==> self@[i] != self@[j]
    }

    /// An empty room.
    pub fn new() -> (r: Registry)
        ensures
            r.wf(),
            r@ == Seq::<Seq<char>>::empty(),
    {
        let r = Registry { members: Vec::new() };
        proof {
            assert(r@ =~= Seq::<Seq<char>>::empty());
        }
        r
    }

    fn find(&self, name: &String) -> (r: Option<usize>)
        ensures
            r matches Some(i) ==> 0 <= i < self@.len() && self@[i as int] == name@,
            r is None ==> !self@.contains(name@),
    {
        let mut i: usize = 0;
        let len = self.members.len();
        while i < len
            invariant
                0 <= i <= len == self@.len(),
                len == self.members@.len(),
                self@ == self.members@.map_values(|m: String| m@),
                forall|j: int| 0 <= j < i ==> self@[j] != name@,
            decreases len - i,
        {
            if self.members[i].eq(name) {
                return Some(i);
            }
            i = i + 1;
        }
        proof {
            if self@.contains(name@) {
                let k = choose|k: int| 0 <= k < self@.len() && self@[k] == name@;
                assert(self@[k] != name@);
            }
        }
        None
    }

    /// Atomic check-and-insert: admits `name` iff it is valid and not yet a
    /// member; the room is unchanged on refusal.
    pub fn try_join(&mut self, name: &String) -> (r: bool)
        requires
            old(self).wf(),
        ensures
            final(self).wf(),
            r == join_ok(old(self)@, name@),
            r ==> final(self)@ == old(self)@.push(name@),
            !r ==> final(self)@ == old(self)@,
    {
        let is_member = match self.find(name) {
            Some(_) => true,
            None => false,
        };
        if valid_name(name.as_str()) && !is_member {
            let ghost pre = self@;
            self.members.push(name.clone());
            proof {
                assert(self@ =~= pre.push(name@));
            }
            true
        } else {
            proof {
                if self@.contains(name@) {
                    let k = choose|k: int| 0 <= k < self@.len() && self@[k] == name@;
                    assert(self@[k] == name@);
                }
            }
            false
        }
    }

    /// Remove `name` if present; a name not in the room is left alone and is
    /// no error.
    pub fn leave(&mut self, name: &String)
        requires
            old(self).wf(),
        ensures
            final(self).wf(),
            !final(self)@.contains(name@),
            old(self)@.contains(name@) ==> final(self)@ == old(self)@.remove(old(self)@.index_of(name@)),
            !old(self)@.contains(name@) ==> final(self)@ == old(self)@,
    {
        match self.find(name) {
            None => {
            },
            Some(i) => {
                let ghost pre = self@;
                self.members.remove(i);
                proof {
                    assert(pre.contains(name@));
                    let k = pre.index_of(name@);
                    assert(pre[k] == name@);
                    if k != i {
                        assert(pre[i as int] == pre[k]);  // two members with one name
                        assert(false);
                    }
                    assert(self@ =~= pre.remove(i as int));
                    assert forall|j: int| 0 <= j < self@.len() implies self@[j] != name@ by {
                        if j < i {
                            assert(self@[j] == pre[j]);
                        } else {
                            assert(self@[j] == pre[j + 1]);
                        }
                    }
                }
            },
        }
    }

    /// A point-in-time roster: every member but `excluding`, in room order.
    pub fn snapshot(&self, excluding: &String) -> (r: Vec<String>)
        ensures
            r@.map_values(|m: String| m@) == self@.filter(|m: Seq<char>| m != excluding@),
    {
        let ghost pred = |m: Seq<char>| m != excluding@;
        let mut r: Vec<String> = Vec::new();
        let mut i: usize = 0;
        let len = self.members.len();
        proof {
            assert(self@.subrange(0, 0) =~= Seq::<Seq<char>>::empty());
            reveal(Seq::filter);
            assert(r@.map_values(|m: String| m@) =~= Seq::<Seq<char>>::empty());
        }
        while i < len
            invariant
                0 <= i <= len == self@.len(),
                len == self.members@.len(),
                self@ == self.members@.map_values(|m: String| m@),
                r@.map_values(|m: String| m@) == self@.subrange(0, i as int).filter(pred),
                pred == (|m: Seq<char>| m != excluding@),
            decreases len - i,
        {
            let ghost prefix = self@.subrange(0, i as int);
            let ghost acc_pre = r@.map_values(|m: String| m@);
            if !self.members[i].eq(excluding) {
                r.push(self.members[i].clone());
                proof {
                    assert(r@.map_values(|m: String| m@) =~= acc_pre.push(self@[i as int]));
                }
            }
            proof {
                broadcast use vstd::prelude::Seq::lemma_filter_push;
                assert(self@.subrange(0, i + 1 as int) =~= prefix.push(self@[i as int]));
                assert(prefix.push(self@[i as int]).filter(pred) == if pred(self@[i as int]) {
                    prefix.filter(pred).push(self@[i as int])
                } else {
                    prefix.filter(pred)
                });
            }
            i = i + 1;
        }
        proof {
            assert(self@.subrange(0, len as int) =~= self@);
        }
        r
    }

    /// How many names are in the room.
    pub fn len(&self) -> (r: usize)
        ensures
            r == self@.len(),
    {
        self.members.len()
    }
}

} // verus!
