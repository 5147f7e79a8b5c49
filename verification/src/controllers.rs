use vstd::prelude::*;
use crate::protocol::{Color, MatchControl, spec_controls};

verus! {

/// Identifies one websocket connection to the server.
pub type ConnectionID = u64;

/// The id that marks an empty controller slot; real connections count up from 1.
pub const NO_CONNECTION_ID: ConnectionID = 0;

/// The (up to two) connections that control the colors of a match.
///
/// With no controller both slots are empty. A single controller sits in the
/// first slot and controls both colors. With two controllers the first plays
/// White and the second plays Black.
#[derive(Debug)]
pub struct MatchControllers {
    first: ConnectionID,
    second: ConnectionID,
}

/// The slot layout every `MatchControllers` keeps: the second slot is only
/// taken while the first is, and two controllers are different connections.
pub open spec fn controllers_valid(c: (u64, u64)) -> bool {
    &&& (c.0 == NO_CONNECTION_ID ==> c.1 == NO_CONNECTION_ID)
    &&& (c.1 != NO_CONNECTION_ID ==> c.0 != c.1)
}

/// The slots after `add(id)`, and whether a slot was taken. A connection
/// that already holds a slot gets no second one. The empty-slot id "takes"
/// a free slot, which leaves it empty.
pub open spec fn spec_add(c: (u64, u64), id: u64) -> ((u64, u64), bool) {
    if id != NO_CONNECTION_ID && (id == c.0 || id == c.1) {
        (c, false)
    } else if c.0 == NO_CONNECTION_ID {
        ((id, c.1), true)
    } else if c.1 == NO_CONNECTION_ID {
        ((c.0, id), true)
    } else {
        (c, false)
    }
}

/// The slots after `remove(id)`, and whether they changed.
pub open spec fn spec_remove(c: (u64, u64), id: u64) -> ((u64, u64), bool) {
    if c.0 == id {
        ((c.1, NO_CONNECTION_ID), true)
    } else if c.1 == id {
        ((c.0, NO_CONNECTION_ID), true)
    } else {
        (c, false)
    }
}

/// The slots after `swap()`, and whether they changed.
pub open spec fn spec_swap(c: (u64, u64)) -> ((u64, u64), bool) {
    if c.0 != NO_CONNECTION_ID && c.1 != NO_CONNECTION_ID {
        ((c.1, c.0), true)
    } else {
        (c, false)
    }
}

/// What the connection `id` may move for, given the slots `c`.
pub open spec fn spec_control_for(c: (u64, u64), id: u64) -> MatchControl {
    if id == c.0 && c.1 == NO_CONNECTION_ID {
        MatchControl::Both
    } else if id == c.0 {
        MatchControl::Single(Color::White)
    } else if id == c.1 {
        MatchControl::Single(Color::Black)
    } else {
        MatchControl::Neither
    }
}

/// The controlling connections, first slot first.
pub open spec fn spec_controller_ids(c: (u64, u64)) -> Seq<u64> {
    if c.0 == NO_CONNECTION_ID {
        seq![]
    } else if c.1 == NO_CONNECTION_ID {
        seq![c.0]
    } else {
        seq![c.0, c.1]
    }
}

impl View for MatchControllers {
    type V = (u64, u64);

    closed spec fn view(&self) -> (u64, u64) {
        (self.first, self.second)
    }
}

impl MatchControllers {
    #[verifier::type_invariant]
    closed spec fn slots_ordered(self) -> bool {
        controllers_valid((self.first, self.second))
    }

    /// Controllers with both slots empty.
    pub fn new() -> (r: Self)
        ensures
            r@ == (NO_CONNECTION_ID, NO_CONNECTION_ID),
            controllers_valid(r@),
    {
        MatchControllers { first: NO_CONNECTION_ID, second: NO_CONNECTION_ID }
    }

    /// Gives `id` the first empty slot, unless it already holds a slot;
    /// returns whether a slot was free for it.
    pub fn add(&mut self, id: ConnectionID) -> (r: bool)
        ensures
            (final(self)@, r) == spec_add(old(self)@, id),
            controllers_valid(final(self)@),
        no_unwind
    {
        proof {
            use_type_invariant(&*self);
        }
        if id != NO_CONNECTION_ID && (id == self.first || id == self.second) {
            false
        } else if self.first == NO_CONNECTION_ID {
            self.first = id;
            true
        } else if self.second == NO_CONNECTION_ID {
            self.second = id;
            true
        } else {
            false
        }
    }

    /// Takes `id` out of its slot; a remaining controller moves to the first
    /// slot. Returns whether `id` held a slot.
    pub fn remove(&mut self, id: ConnectionID) -> (r: bool)
        ensures
            (final(self)@, r) == spec_remove(old(self)@, id),
            controllers_valid(final(self)@),
        no_unwind
    {
        proof {
            use_type_invariant(&*self);
        }
        if self.first == id {
            *self = MatchControllers { first: self.second, second: NO_CONNECTION_ID };
            true
        } else if self.second == id {
            self.second = NO_CONNECTION_ID;
            true
        } else {
            false
        }
    }

    /// Exchanges the colors of two controllers; with fewer than two nothing
    /// changes. Returns whether the slots changed.
    pub fn swap(&mut self) -> (r: bool)
        ensures
            (final(self)@, r) == spec_swap(old(self)@),
            controllers_valid(final(self)@),
        no_unwind
    {
        proof {
            use_type_invariant(&*self);
        }
        if self.first != NO_CONNECTION_ID && self.second != NO_CONNECTION_ID {
            *self = MatchControllers { first: self.second, second: self.first };
            true
        } else {
            false
        }
    }

    /// What the connection `id` may move for.
    pub fn control_for(&self, id: ConnectionID) -> (r: MatchControl)
        ensures
            r == spec_control_for(self@, id),
    {
        if id == self.first && self.second == NO_CONNECTION_ID {
            MatchControl::Both
        } else if id == self.first {
            MatchControl::Single(Color::White)
        } else if id == self.second {
            MatchControl::Single(Color::Black)
        } else {
            MatchControl::Neither
        }
    }

    /// The controlling connections, in slot order.
    pub fn ids(&self) -> (r: Vec<ConnectionID>)
        ensures
            r@ == spec_controller_ids(self@),
            controllers_valid(self@),
    {
        proof {
            use_type_invariant(self);
        }
        let mut out: Vec<ConnectionID> = Vec::new();
        if self.first != NO_CONNECTION_ID {
            out.push(self.first);
            if self.second != NO_CONNECTION_ID {
                out.push(self.second);
            }
        }
        assert(out@ =~= spec_controller_ids(self@));
        out
    }
}

impl Default for MatchControllers {
    fn default() -> (r: Self)
        ensures
            r@ == (NO_CONNECTION_ID, NO_CONNECTION_ID),
    {
        MatchControllers::new()
    }
}

/// Adding a connection that holds no slot and then removing it again leaves
/// the controllers as they were.
pub proof fn lemma_add_then_remove(c: (u64, u64), id: u64)
    requires
        controllers_valid(c),
        id != NO_CONNECTION_ID,
        id != c.0,
        id != c.1,
    ensures
        spec_remove(spec_add(c, id).0, id).0 == c,
{
}

/// Swapping twice gives back the slots it started from.
pub proof fn lemma_swap_involution(c: (u64, u64))
    requires
        controllers_valid(c),
    ensures
        spec_swap(spec_swap(c).0).0 == c,
{
}

/// A swap of two controllers gives each the other's color.
pub proof fn lemma_swap_exchanges_colors(c: (u64, u64))
    requires
        c.0 != NO_CONNECTION_ID,
        c.1 != NO_CONNECTION_ID,
        c.0 != c.1,
    ensures
        spec_control_for(c, c.0) == MatchControl::Single(Color::White),
        spec_control_for(c, c.1) == MatchControl::Single(Color::Black),
        spec_control_for(spec_swap(c).0, c.0) == MatchControl::Single(Color::Black),
        spec_control_for(spec_swap(c).0, c.1) == MatchControl::Single(Color::White),
{
}

/// No color is controlled by two different connections.
pub proof fn lemma_control_exclusive(c: (u64, u64), a: u64, b: u64, color: Color)
    requires
        controllers_valid(c),
        a != b,
        a != NO_CONNECTION_ID,
        b != NO_CONNECTION_ID,
    ensures
        !(spec_controls(spec_control_for(c, a), color) && spec_controls(
            spec_control_for(c, b),
            color,
        )),
{
}

/// While a match has a controller, every color is controlled by one of the
/// listed controllers.
pub proof fn lemma_every_color_controlled(c: (u64, u64), color: Color)
    requires
        controllers_valid(c),
        c.0 != NO_CONNECTION_ID,
    ensures
        exists|i: int|
            0 <= i < spec_controller_ids(c).len() && spec_controls(
                spec_control_for(c, #[trigger] spec_controller_ids(c)[i]),
                color,
            ),
{
    if c.1 == NO_CONNECTION_ID {
        assert(spec_controls(spec_control_for(c, spec_controller_ids(c)[0]), color));
    } else {
        match color {
            Color::White => {
                assert(spec_controls(spec_control_for(c, spec_controller_ids(c)[0]), color));
            },
            Color::Black => {
                assert(spec_controls(spec_control_for(c, spec_controller_ids(c)[1]), color));
            },
        }
    }
}

/// The listed controllers are exactly the connections that control a color.
pub proof fn lemma_ids_are_controllers(c: (u64, u64), id: u64)
    requires
        controllers_valid(c),
        id != NO_CONNECTION_ID,
    ensures
        spec_controller_ids(c).contains(id) <==> spec_control_for(c, id)
            != MatchControl::Neither,
{
    if spec_control_for(c, id) != MatchControl::Neither {
        if id == c.0 {
            assert(spec_controller_ids(c)[0] == id);
        } else {
            assert(spec_controller_ids(c)[1] == id);
        }
    }
}

} // verus!
