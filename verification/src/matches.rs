use vstd::prelude::*;
use vstd::string::StringExecFns;
use crate::protocol::{BoardSize, ClientMessage, Color, MatchControl, ServerMessage, spec_controls};
use crate::controllers::{
    ConnectionID, MatchControllers, NO_CONNECTION_ID, controllers_valid, spec_add, spec_remove,
    spec_swap, spec_control_for, spec_controller_ids,
};
use crate::hasher::{hashid_decode, MatchIDHasher, MAX_DECODED_HASH_BYTES, ROUND_TRIP_ID_LIMIT};
use std::collections::{HashMap, HashSet};
use std::collections::hash_map::Entry;
use vstd::pervasive::unreached;
use vstd::std_specs::hash::spec_hash_keys_iter;
use vstd::std_specs::iter::IteratorSpec;

verus! {

broadcast use vstd::std_specs::hash::group_hash_axioms;

/// Identifies one match on the server; the first match has id 1.
pub type MatchID = u64;

/// The board size of a match that a client creates by joining without a hash.
pub const NEW_MATCH_BOARD_SIZE: usize = 5;

/// A message to one connection telling it what it now controls.
pub type ControlNotice = (ConnectionID, MatchControl);

/// The notices that tell every controller of `c` what it controls.
pub open spec fn spec_control_notices(c: (u64, u64)) -> Seq<ControlNotice> {
    spec_controller_ids(c).map_values(|id: u64| (id, spec_control_for(c, id)))
}

/// The notices sent after a change of the controllers to `c`; none when
/// nothing changed.
pub open spec fn notices_if(changed: bool, c: (u64, u64)) -> Seq<ControlNotice> {
    if changed {
        spec_control_notices(c)
    } else {
        seq![]
    }
}

/// The board size of every newly created match.
pub fn new_match_board_size() -> (r: BoardSize)
    ensures
        r@ == NEW_MATCH_BOARD_SIZE,
{
    BoardSize::new(NEW_MATCH_BOARD_SIZE).unwrap()
}

/// Whether the connections `conns` and the controller slots `c` fit
/// together: the slots are valid, and every controller is connected.
pub open spec fn roster_valid(c: (u64, u64), conns: Set<u64>) -> bool {
    &&& controllers_valid(c)
    &&& (c.0 != NO_CONNECTION_ID ==> conns.contains(c.0))
    &&& (c.1 != NO_CONNECTION_ID ==> conns.contains(c.1))
}

/// The connections and controllers of a match, kept consistent.
#[derive(Debug)]
struct Roster {
    controllers: MatchControllers,
    connections: HashSet<ConnectionID>,
}

impl Roster {
    #[verifier::type_invariant]
    closed spec fn consistent(self) -> bool {
        roster_valid(self.controllers@, self.connections@)
    }

    fn new() -> (r: Self)
        ensures
            r.controllers@ == (NO_CONNECTION_ID, NO_CONNECTION_ID),
            r.connections@ == Set::<u64>::empty(),
    {
        Roster { controllers: MatchControllers::new(), connections: HashSet::new() }
    }

    fn is_connected(&self, id: ConnectionID) -> (r: bool)
        ensures
            r == self.connections@.contains(id),
    {
        self.connections.contains(&id)
    }

    fn add(&mut self, id: ConnectionID) -> (r: bool)
        ensures
            final(self).connections@ == old(self).connections@.insert(id),
            (final(self).controllers@, r) == spec_add(old(self).controllers@, id),
            roster_valid(final(self).controllers@, final(self).connections@),
    {
        proof {
            use_type_invariant(&*self);
        }
        let Roster { mut controllers, mut connections } = self.take();
        connections.insert(id);
        let r = controllers.add(id);
        *self = Roster { controllers, connections };
        r
    }

    fn remove(&mut self, id: ConnectionID) -> (r: bool)
        ensures
            final(self).connections@ == old(self).connections@.remove(id),
            (final(self).controllers@, r) == spec_remove(old(self).controllers@, id),
            roster_valid(final(self).controllers@, final(self).connections@),
    {
        proof {
            use_type_invariant(&*self);
        }
        let Roster { mut controllers, mut connections } = self.take();
        let changed = controllers.remove(id);
        connections.remove(&id);
        *self = Roster { controllers, connections };
        changed
    }

    /// Moves the roster out, leaving an empty one in its place.
    fn take(&mut self) -> (r: Self)
        ensures
            r == *old(self),
            final(self).controllers@ == (NO_CONNECTION_ID, NO_CONNECTION_ID),
            final(self).connections@ == Set::<u64>::empty(),
    {
        let mut taken = Roster::new();
        std::mem::swap(self, &mut taken);
        taken
    }

    fn swap(&mut self) -> (r: bool)
        ensures
            final(self).connections@ == old(self).connections@,
            (final(self).controllers@, r) == spec_swap(old(self).controllers@),
            roster_valid(final(self).controllers@, final(self).connections@),
    {
        proof {
            use_type_invariant(&*self);
        }
        let r = self.controllers.swap();
        proof {
            use_type_invariant(&*self);
        }
        r
    }
}

/// One match: its public hash, its move history (of the game engine's type
/// `H`), the connections that watch it and the ones that control its colors.
#[derive(Debug)]
pub struct Match<H> {
    id_hash: String,
    history: H,
    roster: Roster,
}

impl<H> Match<H> {
    /// The public hash of the match id.
    pub closed spec fn id_hash_view(&self) -> Seq<char> {
        self.id_hash@
    }

    /// The move history.
    pub closed spec fn history_view(&self) -> H {
        self.history
    }

    /// The controller slots.
    pub closed spec fn controllers_view(&self) -> (u64, u64) {
        self.roster.controllers@
    }

    /// The connected connections.
    pub closed spec fn connections_view(&self) -> Set<u64> {
        self.roster.connections@
    }

    /// The relation between connections and controllers that every match
    /// keeps: the controller slots are valid, and every controller is
    /// connected.
    pub open spec fn roster_consistent(&self) -> bool {
        roster_valid(self.controllers_view(), self.connections_view())
    }

    /// A match with no connections yet.
    pub fn new(id_hash: String, history: H) -> (r: Self)
        ensures
            r.id_hash_view() == id_hash@,
            r.history_view() == history,
            r.controllers_view() == (NO_CONNECTION_ID, NO_CONNECTION_ID),
            r.connections_view() == Set::<u64>::empty(),
            r.roster_consistent(),
    {
        Match { id_hash, history, roster: Roster::new() }
    }

    /// Whether the connection `id` is connected to this match.
    pub fn is_connected(&self, id: ConnectionID) -> (r: bool)
        ensures
            r == self.connections_view().contains(id),
    {
        self.roster.is_connected(id)
    }

    /// Connects `id`; if it holds no controller slot and one is free, it
    /// takes it, and every controller is told what it now controls.
    pub fn add_connection(&mut self, id: ConnectionID) -> (r: Vec<ControlNotice>)
        ensures
            join_effect(*old(self), *final(self), id, r@),
            final(self).roster_consistent(),
    {
        if self.roster.add(id) {
            self.control_notices()
        } else {
            Vec::new()
        }
    }

    /// Disconnects `id`; if it held a controller slot, the other controller
    /// (if any) moves to the first slot and every controller is told what it
    /// now controls.
    pub fn remove_connection(&mut self, id: ConnectionID) -> (r: Vec<ControlNotice>)
        ensures
            final(self).connections_view() == old(self).connections_view().remove(id),
            final(self).controllers_view() == spec_remove(old(self).controllers_view(), id).0,
            r@ == notices_if(
                spec_remove(old(self).controllers_view(), id).1,
                final(self).controllers_view(),
            ),
            final(self).id_hash_view() == old(self).id_hash_view(),
            final(self).history_view() == old(self).history_view(),
            final(self).roster_consistent(),
    {
        if self.roster.remove(id) {
            self.control_notices()
        } else {
            Vec::new()
        }
    }

    /// Exchanges the colors of the two controllers, if there are two; then
    /// every controller is told what it now controls.
    pub fn swap_controllers(&mut self) -> (r: Vec<ControlNotice>)
        ensures
            final(self).controllers_view() == spec_swap(old(self).controllers_view()).0,
            r@ == notices_if(spec_swap(old(self).controllers_view()).1, final(self).controllers_view()),
            final(self).connections_view() == old(self).connections_view(),
            final(self).id_hash_view() == old(self).id_hash_view(),
            final(self).history_view() == old(self).history_view(),
            final(self).roster_consistent(),
    {
        if self.roster.swap() {
            self.control_notices()
        } else {
            Vec::new()
        }
    }

    /// One notice per controller, saying what it controls.
    pub fn control_notices(&self) -> (r: Vec<ControlNotice>)
        ensures
            r@ == spec_control_notices(self.controllers_view()),
    {
        let ids = self.roster.controllers.ids();
        let mut out: Vec<ControlNotice> = Vec::new();
        let mut i: usize = 0;
        while i < ids.len()
            invariant
                0 <= i <= ids@.len(),
                ids@ == spec_controller_ids(self.controllers_view()),
                out@ == spec_control_notices(self.controllers_view()).take(i as int),
            decreases ids@.len() - i,
        {
            let id = ids[i];
            out.push((id, self.roster.controllers.control_for(id)));
            proof {
                assert(out@ =~= spec_control_notices(self.controllers_view()).take(i + 1));
            }
            i = i + 1;
        }
        proof {
            assert(out@ =~= spec_control_notices(self.controllers_view()));
        }
        out
    }

    /// The move history.
    pub fn history(&self) -> (r: &H)
        ensures
            *r == self.history_view(),
    {
        &self.history
    }

    /// The move history, for changing it.
    pub fn history_mut(&mut self) -> (r: &mut H)
        ensures
            *r == old(self).history_view(),
            final(self).history_view() == *final(r),
            final(self).id_hash_view() == old(self).id_hash_view(),
            final(self).controllers_view() == old(self).controllers_view(),
            final(self).connections_view() == old(self).connections_view(),
    {
        &mut self.history
    }

    /// The controllers of the match.
    pub fn controllers(&self) -> (r: &MatchControllers)
        ensures
            r@ == self.controllers_view(),
    {
        &self.roster.controllers
    }

    /// The public hash of the match id.
    pub fn id_hash(&self) -> (r: &str)
        ensures
            r@ == self.id_hash_view(),
    {
        self.id_hash.as_str()
    }

    /// Every connected connection, each once: the recipients of a change of
    /// the game state.
    pub fn connection_ids(&self) -> (r: Vec<ConnectionID>)
        ensures
            r@.to_set() == self.connections_view(),
            r@.no_duplicates(),
    {
        let mut out: Vec<ConnectionID> = Vec::new();
        let ghost keys = spec_hash_keys_iter(&self.roster.connections).remaining().unref();
        for id in it: self.roster.connections.iter()
            invariant
                it.seq().unref() == keys,
                out@ == keys.take(it.index() as int),
        {
            out.push(*id);
            proof {
                assert(out@ =~= keys.take(it.index() + 1));
            }
        }
        proof {
            assert(out@ =~= keys);
        }
        out
    }

    /// The game-state message of this match, for the given moves and size
    /// of its history.
    pub fn state_message<M>(&self, moves: Vec<M>, size: BoardSize) -> (r: ServerMessage<M>)
        ensures
            r matches ServerMessage::GameState(hash, ms, s) && hash@ == self.id_hash_view()
                && ms == moves && s == size,
    {
        ServerMessage::GameState(self.id_hash.clone(), moves, size)
    }

    /// Whether the connection `id` may make the next move, `active` being
    /// the color to move.
    pub fn may_move(&self, id: ConnectionID, active: Color) -> (r: bool)
        ensures
            r == spec_controls(spec_control_for(self.controllers_view(), id), active),
    {
        self.roster.controllers.control_for(id).controls(active)
    }
}

/// All matches of the server, and the hasher that names them publicly.
/// Matches are keyed by id; ids are handed out 1, 2, 3, ... and matches
/// are never dropped.
#[derive(Debug)]
pub struct Matches<H> {
    hasher: MatchIDHasher,
    next_id: MatchID,
    matches: HashMap<MatchID, Match<H>>,
}

impl<H> Matches<H> {
    /// The hasher of the match ids.
    pub closed spec fn hasher_view(&self) -> MatchIDHasher {
        self.hasher
    }

    /// The matches by id.
    pub closed spec fn matches_view(&self) -> Map<MatchID, Match<H>> {
        self.matches@
    }

    /// The id the next match will get.
    pub closed spec fn next_id_view(&self) -> int {
        self.next_id as int
    }

    /// Whether a match with this id exists.
    pub open spec fn has(&self, id: MatchID) -> bool {
        self.matches_view().contains_key(id)
    }

    /// The match with this id.
    pub open spec fn match_at(&self, id: MatchID) -> Match<H> {
        self.matches_view()[id]
    }

    /// The id of the existing match that `hash` names, if any.
    pub open spec fn get_spec(&self, hash: Seq<char>) -> Option<MatchID> {
        match self.hasher_view().spec_decode(hash) {
            Some(id) => if self.has(id) {
                Some(id)
            } else {
                None
            },
            None => None,
        }
    }

    /// What the server keeps of its matches: the ids in use are exactly
    /// 1 up to the next id, the minimum hash length is short enough to
    /// decode, and every match's hash names it (see `hash_names`).
    pub open spec fn well_kept(&self) -> bool {
        &&& 1 <= self.next_id_view()
        &&& forall|k: MatchID| #[trigger] self.has(k) <==> 1 <= k < self.next_id_view()
        &&& self.hasher_view().length_view() <= MAX_DECODED_HASH_BYTES
        &&& forall|k: MatchID| #[trigger] self.has(k) ==> self.hash_names(k)
    }

    /// The hash of the match `k` is the hasher's encoding of `k`; `harsh`
    /// decodes it to `k`, and below `ROUND_TRIP_ID_LIMIT` it finds the match.
    pub open spec fn hash_names(&self, k: MatchID) -> bool {
        &&& self.match_at(k).id_hash_view() == self.hasher_view().spec_encode(k)
        &&& hashid_decode(
            self.hasher_view().salt_view(),
            self.hasher_view().length_view(),
            self.match_at(k).id_hash_view(),
        ) == Some(seq![k])
        &&& k < ROUND_TRIP_ID_LIMIT ==> self.get_spec(self.match_at(k).id_hash_view()) == Some(k)
    }

    /// Whether the connection `conn` is connected to no match other than
    /// `id`.
    pub open spec fn connected_at_most(&self, conn: ConnectionID, id: Option<MatchID>) -> bool {
        forall|k: MatchID| self.has(k) && #[trigger] self.match_at(k).connections_view().contains(conn)
            ==> id == Some(k)
    }

    /// Whether `after` differs from `self` only in the match `id`, and in
    /// that match not in its hash.
    pub open spec fn only_changed(&self, after: &Self, id: MatchID) -> bool {
        &&& after.hasher_view() == self.hasher_view()
        &&& after.next_id_view() == self.next_id_view()
        &&& after.matches_view().dom() == self.matches_view().dom()
        &&& after.match_at(id).id_hash_view() == self.match_at(id).id_hash_view()
        &&& forall|k: MatchID| k != id && #[trigger] self.has(k) ==> after.match_at(k) == self.match_at(k)
    }

    /// Every value keeps its records (see `well_kept`).
    #[verifier::type_invariant]
    closed spec fn records_kept(self) -> bool {
        self.well_kept()
    }

    /// No matches yet, with the hasher the server names matches with.
    pub fn new() -> (r: Self)
        ensures
            forall|conn: ConnectionID| r.connected_at_most(conn, None),
            r.matches_view() == Map::<MatchID, Match<H>>::empty(),
            r.next_id_view() == 1,
            r.hasher_view().salt_view() == "tak.garden"@,
            r.hasher_view().length_view() == 6,
            r.well_kept(),
    {
        Matches { hasher: MatchIDHasher::default(), next_id: 1, matches: HashMap::new() }
    }

    /// Moves the matches out, leaving none in their place.
    fn take(&mut self) -> (r: Self)
        ensures
            r == *old(self),
    {
        let mut taken = Matches::new();
        std::mem::swap(self, &mut taken);
        taken
    }

    /// The id the next match will get.
    pub fn next_id(&self) -> (r: u64)
        ensures
            r == self.next_id_view(),
    {
        self.next_id
    }

    /// Whether a match with this id exists.
    pub fn contains(&self, id: MatchID) -> (r: bool)
        ensures
            r == self.has(id),
    {
        self.matches.contains_key(&id)
    }

    /// Creates a match with a fresh id and the given history, and returns
    /// the id. No earlier match is replaced. The match's public hash is the
    /// hasher's encoding of its id and differs from the hash of every
    /// earlier match; below `ROUND_TRIP_ID_LIMIT` it finds the new match
    /// again.
    pub fn new_match(&mut self, history: H) -> (id: MatchID)
        requires
            old(self).next_id_view() < u64::MAX,
        ensures
            id == old(self).next_id_view(),
            !old(self).has(id),
            final(self).next_id_view() == old(self).next_id_view() + 1,
            final(self).matches_view() == old(self).matches_view().insert(id, final(self).match_at(id)),
            final(self).hasher_view() == old(self).hasher_view(),
            final(self).match_at(id).id_hash_view() == old(self).hasher_view().spec_encode(id),
            final(self).match_at(id).history_view() == history,
            final(self).match_at(id).controllers_view() == (NO_CONNECTION_ID, NO_CONNECTION_ID),
            final(self).match_at(id).connections_view() == Set::<u64>::empty(),
            id < ROUND_TRIP_ID_LIMIT ==> final(self).get_spec(final(self).match_at(id).id_hash_view()) == Some(id),
            forall|k: MatchID| #[trigger] old(self).has(k)
                ==> old(self).match_at(k).id_hash_view() != final(self).match_at(id).id_hash_view(),
    {
        proof {
            use_type_invariant(&*self);
        }
        let Matches { hasher, next_id, mut matches } = self.take();
        let id = next_id;
        let id_hash = hasher.encode(id);
        matches.insert(id, Match::new(id_hash, history));
        proof {
            let o = *old(self);
            let f = Matches { hasher, next_id: (id + 1) as u64, matches };
            assert forall|k: MatchID| #[trigger] f.has(k) <==> 1 <= k < f.next_id_view() by {
                if k != id {
                    assert(f.has(k) == o.has(k));
                }
            }
            assert forall|k: MatchID| #[trigger] f.has(k) implies f.hash_names(k) by {
                if k != id {
                    assert(o.has(k));
                    assert(o.hash_names(k));
                    assert(f.match_at(k) == o.match_at(k));
                }
            }
            assert forall|k: MatchID| #[trigger] o.has(k)
                implies o.match_at(k).id_hash_view() != f.match_at(id).id_hash_view() by {
                assert(o.hash_names(k));
                assert(f.hash_names(id));
                assert(seq![k][0] == k && seq![id][0] == id);
            }
            assert(f.well_kept());
        }
        *self = Matches { hasher, next_id: id + 1, matches };
        id
    }

    /// The id of the existing match that `hash` names, if any. Each match
    /// is found by its own hash (see `get_match`).
    pub fn get(&self, hash: &str) -> (r: Option<MatchID>)
        ensures
            r == self.get_spec(hash@),
            r matches Some(id) ==> self.has(id) && self.hasher_view().spec_encode(id) == hash@,
    {
        match self.hasher.decode(hash) {
            Some(id) => if self.contains(id) {
                Some(id)
            } else {
                None
            },
            None => None,
        }
    }

    /// The match with this id. No other match has the same hash, and below
    /// `ROUND_TRIP_ID_LIMIT` its hash finds it again.
    pub fn get_match(&self, id: MatchID) -> (r: &Match<H>)
        requires
            self.has(id),
        ensures
            *r == self.match_at(id),
            id < ROUND_TRIP_ID_LIMIT ==> self.get_spec(r.id_hash_view()) == Some(id),
            forall|k: MatchID| k != id && #[trigger] self.has(k) ==> self.match_at(k).id_hash_view() != r.id_hash_view(),
    {
        proof {
            use_type_invariant(self);
            assert forall|k: MatchID| k != id && #[trigger] self.has(k)
                implies self.match_at(k).id_hash_view() != self.match_at(id).id_hash_view() by {
                lemma_hashes_distinct(*self, k, id);
            }
        }
        match self.matches.get(&id) {
            Some(m) => m,
            None => unreached(),
        }
    }

    /// Replaces the move history of the match `id` by `history`; returns
    /// the history it had.
    pub fn replace_history(&mut self, id: MatchID, history: H) -> (r: H)
        requires
            old(self).has(id),
        ensures
            r == old(self).match_at(id).history_view(),
            final(self).match_at(id).history_view() == history,
            old(self).only_changed(&*final(self), id),
            final(self).match_at(id).controllers_view() == old(self).match_at(id).controllers_view(),
            final(self).match_at(id).connections_view() == old(self).match_at(id).connections_view(),
    {
        proof {
            use_type_invariant(&*self);
        }
        let Matches { hasher, next_id, mut matches } = self.take();
        let mut r = history;
        std::mem::swap(match_in(&mut matches, id).history_mut(), &mut r);
        proof {
            let f = Matches { hasher, next_id, matches };
            lemma_replace_only_changed(*old(self), f, id);
            lemma_well_kept_kept(*old(self), f, id);
        }
        *self = Matches { hasher, next_id, matches };
        r
    }

    /// Exchanges the colors of the two controllers of the match `id`;
    /// returns the control notices to send.
    pub fn swap_controllers(&mut self, id: MatchID) -> (r: Vec<ControlNotice>)
        requires
            old(self).has(id),
        ensures
            old(self).only_changed(&*final(self), id),
            final(self).match_at(id).controllers_view() == spec_swap(old(self).match_at(id).controllers_view()).0,
            r@ == notices_if(spec_swap(old(self).match_at(id).controllers_view()).1, final(self).match_at(id).controllers_view()),
            final(self).match_at(id).connections_view() == old(self).match_at(id).connections_view(),
            final(self).match_at(id).history_view() == old(self).match_at(id).history_view(),
    {
        proof {
            use_type_invariant(&*self);
        }
        let Matches { hasher, next_id, mut matches } = self.take();
        let r = match_in(&mut matches, id).swap_controllers();
        proof {
            let f = Matches { hasher, next_id, matches };
            lemma_replace_only_changed(*old(self), f, id);
            lemma_well_kept_kept(*old(self), f, id);
        }
        *self = Matches { hasher, next_id, matches };
        r
    }

    /// Joins the connection `conn` to the match that `hash` names, or to a
    /// new match with the history `fresh` when `hash` is `None`. Returns the
    /// match id and the control notices to send; `None` when `hash` names
    /// no existing match (nothing changes then).
    pub fn join(&mut self, conn: ConnectionID, hash: Option<&str>, fresh: H) -> (r: Option<
        (MatchID, Vec<ControlNotice>),
    >)
        requires
            hash is None ==> old(self).next_id_view() < u64::MAX,
        ensures
            spec_join(*old(self), *final(self), conn, hash_view(hash), fresh, joined_view(r)),
    {
        let id = match hash {
            Some(h) => match self.get(h) {
                Some(id) => id,
                None => return None,
            },
            None => self.new_match(fresh),
        };
        proof {
            use_type_invariant(&*self);
        }
        let ghost mid = *self;
        let Matches { hasher, next_id, mut matches } = self.take();
        let notices = match_in(&mut matches, id).add_connection(conn);
        proof {
            let f = Matches { hasher, next_id, matches };
            assert(mid.has(id));
            lemma_replace_only_changed(mid, f, id);
            lemma_well_kept_kept(mid, f, id);
            if hash is None {
                assert(mid.match_at(id).connections_view() == Set::<u64>::empty());
                assert(Set::<u64>::empty().insert(conn) =~= set![conn]);
                assert(f.matches_view() =~= old(self).matches_view().insert(id, f.match_at(id)));
            } else {
                assert forall|k: MatchID| k != id && #[trigger] old(self).has(k) implies f.match_at(k) == old(self).match_at(k) by {
                    assert(mid.has(k));
                }
            }
        }
        *self = Matches { hasher, next_id, matches };
        Some((id, notices))
    }

    /// Moves the connection `conn` out of the match `current` (if any) and
    /// into the match that `hash` names, or into a new match with the
    /// history `fresh` when `hash` is `None`. Returns the control notices of
    /// leaving, and the id and notices of joining; the latter is `None` when
    /// `hash` names no existing match. A connection that was in at most the
    /// match `current` is afterwards in at most the match it joined.
    pub fn rejoin(
        &mut self,
        conn: ConnectionID,
        current: Option<MatchID>,
        hash: Option<&str>,
        fresh: H,
    ) -> (r: (Vec<ControlNotice>, Option<(MatchID, Vec<ControlNotice>)>))
        requires
            current matches Some(id) ==> old(self).has(id),
            hash is None ==> old(self).next_id_view() < u64::MAX,
        ensures
            match current {
                Some(id) => exists|mid: Matches<H>|
                    #[trigger] spec_leave(*old(self), mid, id, conn, r.0@)
                        && spec_join(mid, *final(self), conn, hash_view(hash), fresh, joined_view(r.1)),
                None => r.0@ == Seq::<ControlNotice>::empty()
                    && spec_join(*old(self), *final(self), conn, hash_view(hash), fresh, joined_view(r.1)),
            },
            r.1 matches Some((rid, _)) ==> final(self).has(rid) && final(self).match_at(
                rid,
            ).connections_view().contains(conn),
            old(self).connected_at_most(conn, current) ==> final(self).connected_at_most(
                conn,
                match r.1 {
                    Some((rid, _)) => Some(rid),
                    None => None,
                },
            ),
    {
        let left = match current {
            Some(id) => self.leave(id, conn),
            None => Vec::new(),
        };
        let ghost mid = *self;
        let ghost fresh_view = fresh;
        let joined = self.join(conn, hash, fresh);
        proof {
            if let Some((rid, _)) = joined {
                assert(self.match_at(rid).connections_view().contains(conn));
                if mid.connected_at_most(conn, None) {
                    assert forall|k: MatchID| self.has(k) && #[trigger] self.match_at(k).connections_view().contains(conn)
                        implies Some(rid) == Some(k) by {
                        if k != rid {
                            assert(mid.has(k));
                            assert(self.match_at(k) == mid.match_at(k));
                        }
                    }
                    assert(self.connected_at_most(conn, Some(rid)));
                }
            } else {
                assert(self.matches_view() == mid.matches_view());
                if mid.connected_at_most(conn, None) {
                    assert forall|k: MatchID| self.has(k) && #[trigger] self.match_at(k).connections_view().contains(conn)
                        implies None::<MatchID> == Some(k) by {
                        assert(mid.has(k) && mid.match_at(k) == self.match_at(k));
                    }
                }
            }
        }
        let r = (left, joined);
        proof {
            if let Some(a) = current {
                assert(spec_leave(*old(self), mid, a, conn, r.0@)
                    && spec_join(mid, *self, conn, hash_view(hash), fresh_view, joined_view(r.1)));
            }
        }
        r
    }

    /// Disconnects `conn` from the match `id`; returns the control notices
    /// to send.
    pub fn leave(&mut self, id: MatchID, conn: ConnectionID) -> (r: Vec<ControlNotice>)
        requires
            old(self).has(id),
        ensures
            spec_leave(*old(self), *final(self), id, conn, r@),
            old(self).connected_at_most(conn, Some(id)) ==> final(self).connected_at_most(conn, None),
    {
        proof {
            use_type_invariant(&*self);
        }
        let Matches { hasher, next_id, mut matches } = self.take();
        let r = match_in(&mut matches, id).remove_connection(conn);
        proof {
            let f = Matches { hasher, next_id, matches };
            lemma_replace_only_changed(*old(self), f, id);
            lemma_well_kept_kept(*old(self), f, id);
            if old(self).connected_at_most(conn, Some(id)) {
                assert forall|k: MatchID| f.has(k) && #[trigger] f.match_at(k).connections_view().contains(conn)
                    implies None::<MatchID> == Some(k) by {
                    assert(old(self).has(k));
                    if k != id {
                        assert(f.match_at(k) == old(self).match_at(k));
                    }
                }
            }
        }
        *self = Matches { hasher, next_id, matches };
        r
    }
}

/// The match with this id in `matches`, for changing it.
fn match_in<H>(matches: &mut HashMap<MatchID, Match<H>>, id: MatchID) -> (r: &mut Match<H>)
    requires
        old(matches)@.contains_key(id),
    ensures
        *r == old(matches)@[id],
        final(matches)@ == old(matches)@.insert(id, *final(r)),
{
    match matches.entry(id) {
        Entry::Occupied(o) => o.into_mut(),
        Entry::Vacant(_) => unreached(),
    }
}

/// Replacing the match `id` by one with the same hash changes only it.
proof fn lemma_replace_only_changed<H>(before: Matches<H>, after: Matches<H>, id: MatchID)
    requires
        before.has(id),
        after.matches_view() == before.matches_view().insert(id, after.match_at(id)),
        after.hasher_view() == before.hasher_view(),
        after.next_id_view() == before.next_id_view(),
        after.match_at(id).id_hash_view() == before.match_at(id).id_hash_view(),
    ensures
        before.only_changed(&after, id),
{
    assert(after.matches_view().dom() =~= before.matches_view().dom());
}

/// A change that keeps the hasher, the ids and every hash keeps every
/// match found by its hash (so does changing a history).
pub proof fn lemma_well_kept_kept<H>(before: Matches<H>, after: Matches<H>, id: MatchID)
    requires
        before.only_changed(&after, id),
    ensures
        before.well_kept() ==> after.well_kept(),
{
    if before.well_kept() {
        assert forall|k: MatchID| #[trigger] after.has(k) <==> 1 <= k < after.next_id_view() by {
            assert(after.has(k) == before.has(k));
        }
        assert forall|k: MatchID| #[trigger] after.has(k) implies after.hash_names(k) by {
            assert(before.has(k));
            assert(before.hash_names(k));
            if k != id {
                assert(after.match_at(k) == before.match_at(k));
            }
            if k < ROUND_TRIP_ID_LIMIT {
                assert(before.get_spec(before.match_at(k).id_hash_view()) == Some(k));
            }
        }
    }
}

/// In a well-kept registry two different matches never share a hash, and
/// below `ROUND_TRIP_ID_LIMIT` each is found again by its own.
pub proof fn lemma_hashes_distinct<H>(m: Matches<H>, a: MatchID, b: MatchID)
    requires
        m.well_kept(),
        m.has(a),
        m.has(b),
        a != b,
    ensures
        m.match_at(a).id_hash_view() != m.match_at(b).id_hash_view(),
        a < ROUND_TRIP_ID_LIMIT ==> m.get_spec(m.match_at(a).id_hash_view()) == Some(a),
{
    assert(m.hash_names(a));
    assert(m.hash_names(b));
    assert(seq![a][0] == a && seq![b][0] == b);
}

/// The hash a join names, as characters.
pub open spec fn hash_view(hash: Option<&str>) -> Option<Seq<char>> {
    match hash {
        Some(h) => Some(h@),
        None => None,
    }
}

/// The id and control notices of a join, the notices as a sequence.
pub open spec fn joined_view(r: Option<(MatchID, Vec<ControlNotice>)>) -> Option<(MatchID, Seq<ControlNotice>)> {
    match r {
        Some((id, notices)) => Some((id, notices@)),
        None => None,
    }
}

/// What `Matches::leave(id, conn)` does, from `before` to `after`: the
/// connection leaves the match `id` and its controller slot, the other
/// controller (if any) moves to the first slot, and `notices` tell the
/// controllers what they now control if the slots changed. Nothing else
/// changes.
pub open spec fn spec_leave<H>(
    before: Matches<H>,
    after: Matches<H>,
    id: MatchID,
    conn: ConnectionID,
    notices: Seq<ControlNotice>,
) -> bool {
    let removed = spec_remove(before.match_at(id).controllers_view(), conn);
    &&& before.only_changed(&after, id)
    &&& after.match_at(id).connections_view() == before.match_at(id).connections_view().remove(conn)
    &&& after.match_at(id).controllers_view() == removed.0
    &&& notices == notices_if(removed.1, removed.0)
    &&& after.match_at(id).history_view() == before.match_at(id).history_view()
}

/// What `Matches::join(conn, hash, fresh)` does, from `before` to `after`,
/// with the result `r`. A hash that names an existing match connects `conn`
/// to it (see `join_effect`) and changes nothing else; one that names no
/// match changes nothing and gives `None`. No hash creates the match with
/// the next id, the hash of that id, the history `fresh` and `conn` as its
/// only connection and controller, who is told it controls both colors.
pub open spec fn spec_join<H>(
    before: Matches<H>,
    after: Matches<H>,
    conn: ConnectionID,
    hash: Option<Seq<char>>,
    fresh: H,
    r: Option<(MatchID, Seq<ControlNotice>)>,
) -> bool {
    &&& after.hasher_view() == before.hasher_view()
    &&& match hash {
        Some(h) => match before.get_spec(h) {
            Some(id) => r matches Some((rid, notices)) && rid == id
                && before.only_changed(&after, id)
                && join_effect(before.match_at(id), after.match_at(id), conn, notices),
            None => r is None && after.matches_view() == before.matches_view()
                && after.next_id_view() == before.next_id_view(),
        },
        None => r matches Some((rid, notices)) && rid == before.next_id_view()
            && after.next_id_view() == before.next_id_view() + 1
            && after.matches_view() == before.matches_view().insert(rid, after.match_at(rid))
            && after.match_at(rid).id_hash_view() == before.hasher_view().spec_encode(rid)
            && after.match_at(rid).history_view() == fresh
            && after.match_at(rid).connections_view() == set![conn]
            && after.match_at(rid).controllers_view() == spec_add((NO_CONNECTION_ID, NO_CONNECTION_ID), conn).0
            && notices == spec_control_notices(after.match_at(rid).controllers_view()),
    }
}

/// What joining `conn` does to a match: it is connected, takes a free
/// controller slot if there is one, and the controllers are told what they
/// control if the slots changed.
pub open spec fn join_effect<H>(before: Match<H>, after: Match<H>, conn: ConnectionID, notices: Seq<ControlNotice>) -> bool {
    let added = spec_add(before.controllers_view(), conn);
    &&& after.connections_view() == before.connections_view().insert(conn)
    &&& after.controllers_view() == added.0
    &&& notices == notices_if(added.1, added.0)
    &&& after.history_view() == before.history_view()
    &&& after.id_hash_view() == before.id_hash_view()
}

impl<H> Default for Matches<H> {
    fn default() -> (r: Self)
        ensures
            r.matches_view() == Map::<MatchID, Match<H>>::empty(),
            r.next_id_view() == 1,
            r.well_kept(),
    {
        Matches::new()
    }
}

/// Hands out connection ids: 1, 2, 3, ... and never `NO_CONNECTION_ID`.
#[derive(Debug)]
pub struct ConnectionCounter {
    next: u64,
}

impl View for ConnectionCounter {
    type V = u64;

    closed spec fn view(&self) -> u64 {
        self.next
    }
}

impl ConnectionCounter {
    #[verifier::type_invariant]
    closed spec fn never_empty_id(self) -> bool {
        self.next > NO_CONNECTION_ID
    }

    /// A counter whose first id is `NO_CONNECTION_ID + 1`.
    pub fn new() -> (r: Self)
        ensures
            r@ == NO_CONNECTION_ID + 1,
    {
        ConnectionCounter { next: NO_CONNECTION_ID + 1 }
    }

    /// The id the next connection will get.
    pub fn peek(&self) -> (r: u64)
        ensures
            r == self@,
            r != NO_CONNECTION_ID,
    {
        proof {
            use_type_invariant(self);
        }
        self.next
    }

    /// A fresh connection id; ids strictly increase.
    pub fn allocate(&mut self) -> (r: ConnectionID)
        requires
            old(self)@ < u64::MAX,
        ensures
            r == old(self)@,
            final(self)@ == old(self)@ + 1,
            r != NO_CONNECTION_ID,
    {
        proof {
            use_type_invariant(&*self);
        }
        let id = self.next;
        self.next = self.next + 1;
        id
    }
}

/// The first connection of a match controls both colors.
pub proof fn lemma_first_joiner_controls_both(conn: ConnectionID)
    requires
        conn != NO_CONNECTION_ID,
    ensures
        spec_control_for(spec_add((NO_CONNECTION_ID, NO_CONNECTION_ID), conn).0, conn)
            == MatchControl::Both,
        spec_control_notices(spec_add((NO_CONNECTION_ID, NO_CONNECTION_ID), conn).0) == seq![
            (conn, MatchControl::Both),
        ],
{
    let c = spec_add((NO_CONNECTION_ID, NO_CONNECTION_ID), conn).0;
    assert(spec_control_notices(c) =~= seq![(conn, MatchControl::Both)]);
}

/// When a second connection joins, the first plays White, the newcomer
/// plays Black, and both are told so.
pub proof fn lemma_second_joiner_plays_black(first: ConnectionID, conn: ConnectionID)
    requires
        first != NO_CONNECTION_ID,
        conn != NO_CONNECTION_ID,
        conn != first,
    ensures
        spec_add((first, NO_CONNECTION_ID), conn).1,
        spec_control_notices(spec_add((first, NO_CONNECTION_ID), conn).0) == seq![
            (first, MatchControl::Single(Color::White)),
            (conn, MatchControl::Single(Color::Black)),
        ],
{
    let c = spec_add((first, NO_CONNECTION_ID), conn).0;
    assert(spec_control_notices(c) =~= seq![
        (first, MatchControl::Single(Color::White)),
        (conn, MatchControl::Single(Color::Black)),
    ]);
}

/// What a connection's session does with a message from its client.
#[derive(Debug)]
pub enum SessionStep<M> {
    /// Leave the given match, if any, and join the match the hash names (a
    /// new one for `None`).
    Join(Option<MatchID>, Option<String>),
    /// Try the move in the given match.
    Move(MatchID, M),
    /// Start the given match again on a board of this size.
    Reset(MatchID, BoardSize),
    /// Take back the last move of the given match.
    Undo(MatchID),
    /// Exchange the colors of the given match's controllers.
    Swap(MatchID),
    /// Nothing: the message needs a match and the connection is in none.
    Ignore,
}

/// What a session in the match `current` (none before the first join) does
/// with `msg`: a join always leaves the current match first; every other
/// message acts on the current match, and is ignored before any join.
pub fn session_step<M>(current: Option<MatchID>, msg: ClientMessage<M>) -> (r: SessionStep<M>)
    ensures
        match msg {
            ClientMessage::JoinMatch(h) => r == SessionStep::<M>::Join(current, h),
            ClientMessage::Move(m) => match current {
                Some(id) => r == SessionStep::Move(id, m),
                None => r == SessionStep::<M>::Ignore,
            },
            ClientMessage::ResetGame(size) => match current {
                Some(id) => r == SessionStep::<M>::Reset(id, size),
                None => r == SessionStep::<M>::Ignore,
            },
            ClientMessage::UndoMove => match current {
                Some(id) => r == SessionStep::<M>::Undo(id),
                None => r == SessionStep::<M>::Ignore,
            },
            ClientMessage::SwapPlayers => match current {
                Some(id) => r == SessionStep::<M>::Swap(id),
                None => r == SessionStep::<M>::Ignore,
            },
        },
{
    match msg {
        ClientMessage::JoinMatch(h) => SessionStep::Join(current, h),
        ClientMessage::Move(m) => match current {
            Some(id) => SessionStep::Move(id, m),
            None => SessionStep::Ignore,
        },
        ClientMessage::ResetGame(size) => match current {
            Some(id) => SessionStep::Reset(id, size),
            None => SessionStep::Ignore,
        },
        ClientMessage::UndoMove => match current {
            Some(id) => SessionStep::Undo(id),
            None => SessionStep::Ignore,
        },
        ClientMessage::SwapPlayers => match current {
            Some(id) => SessionStep::Swap(id),
            None => SessionStep::Ignore,
        },
    }
}

/// What the server does about a move: answer the mover alone, or send the
/// new game state to every connection of the match.
#[derive(Debug)]
pub enum MoveOutcome<M> {
    Reply(ServerMessage<M>),
    BroadcastState,
}

/// The answer to a move attempt: a connection that may not move is told it
/// is not its turn; a move the rules refuse is answered with the reason;
/// an accepted move is broadcast. `rejection` is what the game engine said
/// of the move, asked only when `allowed`.
pub fn move_outcome<M>(allowed: bool, rejection: Option<String>) -> (r: MoveOutcome<M>)
    ensures
        !allowed ==> (r matches MoveOutcome::Reply(ServerMessage::ActionInvalid(t)) && t@
            == "It's not your turn."@),
        allowed && rejection is Some ==> (r matches MoveOutcome::Reply(ServerMessage::ActionInvalid(t))
            && t@ == rejection->0@),
        allowed && rejection is None ==> r matches MoveOutcome::BroadcastState,
{
    if !allowed {
        MoveOutcome::Reply(ServerMessage::ActionInvalid(String::from_str("It's not your turn.")))
    } else {
        match rejection {
            Some(reason) => MoveOutcome::Reply(ServerMessage::ActionInvalid(reason)),
            None => MoveOutcome::BroadcastState,
        }
    }
}

/// When one of two controllers leaves, the other controls both colors and
/// is told so.
pub proof fn lemma_remaining_controller_controls_both(c: (u64, u64), leaving: ConnectionID)
    requires
        c.0 != NO_CONNECTION_ID,
        c.1 != NO_CONNECTION_ID,
        c.0 != c.1,
        leaving == c.0 || leaving == c.1,
    ensures
        spec_remove(c, leaving).1,
        ({
            let stay = if leaving == c.0 { c.1 } else { c.0 };
            spec_control_notices(spec_remove(c, leaving).0) == seq![(stay, MatchControl::Both)]
        }),
{
    let stay = if leaving == c.0 { c.1 } else { c.0 };
    assert(spec_control_notices(spec_remove(c, leaving).0) =~= seq![(stay, MatchControl::Both)]);
}

/// A connection that joins and then leaves a match it was not in leaves
/// the match's connections and controllers as they were.
pub proof fn lemma_join_then_leave<H>(before: Match<H>, joined: Match<H>, conn: ConnectionID, notices: Seq<ControlNotice>)
    requires
        before.roster_consistent(),
        !before.connections_view().contains(conn),
        conn != NO_CONNECTION_ID,
        join_effect(before, joined, conn, notices),
    ensures
        joined.connections_view().remove(conn) == before.connections_view(),
        spec_remove(joined.controllers_view(), conn).0 == before.controllers_view(),
{
    assert(before.connections_view().insert(conn).remove(conn) =~= before.connections_view());
}

} // verus!
