//! The state of one search: the node counter with its budget, and the
//! transposition table.
use vstd::prelude::*;
use crate::types::Move;

verus! {

/// The number of slots of the transposition table.
pub const TT_SIZE: usize = 1024;

/// How a stored score relates to the true one.
#[derive(Clone, Copy, Debug, PartialEq, Eq, Structural)]
pub enum Bound {
    /// The score is the value of the position.
    Exact,
    /// The value is at least the score.
    Lower,
    /// The value is at most the score.
    Upper,
}

/// One slot of the transposition table.
#[derive(Clone, Copy, Debug)]
pub struct TtEntry {
    pub key: u64,
    pub depth: u8,
    pub value: i32,
    pub flag: Bound,
    pub best_move: Option<Move>,
}

/// What a slot holds before anything is stored in it.
pub open spec fn empty_entry() -> TtEntry {
    TtEntry { key: 0, depth: 0, value: 0, flag: Bound::Exact, best_move: None }
}

/// The slot in which a key is kept: its low ten bits.
pub open spec fn slot(key: u64) -> int {
    key as int % 1024
}

/// What one search owns while it runs.
pub struct SearchCtx {
    pub nodes: u32,
    pub node_limit: Option<u32>,
    pub tt: [TtEntry; 1024],
}

/// The mathematical value of a search context.
pub struct SearchState {
    pub nodes: u32,
    pub node_limit: Option<u32>,
    pub table: Seq<TtEntry>,
}

impl View for SearchCtx {
    type V = SearchState;

    open spec fn view(&self) -> SearchState {
        SearchState { nodes: self.nodes, node_limit: self.node_limit, table: self.tt@ }
    }
}

/// The score below every score of a position: where a maximum starts.
pub const NEG_INF: i32 = -2_147_483_647;

/// The score above every score of a position: where a minimum starts.
pub const POS_INF: i32 = 2_147_483_646;

impl SearchState {
    /// Whether every score in the table is a score of some position, above
    /// `NEG_INF`.
    pub open spec fn sound(self) -> bool {
        &&& self.table.len() == TT_SIZE
        &&& forall|i: int| 0 <= i < TT_SIZE ==> (#[trigger] self.table[i]).value > NEG_INF
    }

    /// The state at the start of a search: no node counted, every slot empty.
    pub open spec fn fresh(node_limit: Option<u32>) -> SearchState {
        SearchState {
            nodes: 0,
            node_limit,
            table: Seq::new(TT_SIZE as nat, |i: int| empty_entry()),
        }
    }

    /// The state with one more node counted; the counter stops at its
    /// largest value.
    pub open spec fn bumped(self) -> SearchState {
        SearchState {
            nodes: if self.nodes == u32::MAX {
                self.nodes
            } else {
                (self.nodes + 1) as u32
            },
            ..self
        }
    }

    /// Whether the node budget is used up. Without a budget it never is.
    pub open spec fn limit_hit(self) -> bool {
        match self.node_limit {
            Some(limit) => self.nodes >= limit,
            None => false,
        }
    }

    /// The entry stored for `key`, if the slot of `key` holds that key.
    pub open spec fn probe(self, key: u64) -> Option<TtEntry> {
        if self.table[slot(key)].key == key {
            Some(self.table[slot(key)])
        } else {
            None
        }
    }

    /// The move that the table suggests for `key`.
    pub open spec fn hint(self, key: u64) -> Option<Move> {
        match self.probe(key) {
            Some(entry) => entry.best_move,
            None => None,
        }
    }

    /// The state after a result for `key` is offered to the table. It takes
    /// the place of what the slot holds if that belongs to another key, or was
    /// searched no deeper than `depth`.
    pub open spec fn stored(
        self,
        key: u64,
        depth: u8,
        value: i32,
        flag: Bound,
        best_move: Option<Move>,
    ) -> SearchState {
        let held = self.table[slot(key)];
        if held.key != key || depth >= held.depth {
            SearchState {
                table: self.table.update(
                    slot(key),
                    TtEntry { key, depth, value, flag, best_move },
                ),
                ..self
            }
        } else {
            self
        }
    }
}

impl SearchCtx {
    /// A context for a new search with the given node budget.
    pub fn new(node_limit: Option<u32>) -> (ctx: SearchCtx)
        ensures
            ctx@ == SearchState::fresh(node_limit),
    {
        let ctx = SearchCtx {
            nodes: 0,
            node_limit,
            tt: [TtEntry { key: 0, depth: 0, value: 0, flag: Bound::Exact, best_move: None };1024],
        };
        assert(ctx@.table =~= SearchState::fresh(node_limit).table);
        ctx
    }

    /// Counts one node.
    pub fn bump(&mut self)
        ensures
            final(self)@ == old(self)@.bumped(),
    {
        self.nodes = self.nodes.saturating_add(1);
    }

    /// Whether the node budget is used up.
    pub fn hit_limit(&self) -> (r: bool)
        ensures
            r == self@.limit_hit(),
    {
        match self.node_limit {
            Some(limit) => self.nodes >= limit,
            None => false,
        }
    }

    /// Looks `key` up.
    pub fn tt_probe(&self, key: u64) -> (r: Option<TtEntry>)
        ensures
            r == self@.probe(key),
    {
        let idx = (key % 1024) as usize;
        let entry = self.tt[idx];
        if entry.key == key {
            Some(entry)
        } else {
            None
        }
    }

    /// Offers a result for `key` to the table.
    pub fn tt_store(&mut self, key: u64, depth: u8, value: i32, flag: Bound, best_move: Option<Move>)
        ensures
            final(self)@ == old(self)@.stored(key, depth, value, flag, best_move),
    {
        let idx = (key % 1024) as usize;
        let held = self.tt[idx];
        if held.key != key || depth >= held.depth {
            self.tt[idx] = TtEntry { key, depth, value, flag, best_move };
        }
    }
}

} // verus!
