//! How the clip grid orders its clips.
use vstd::prelude::*;
use std::cmp::Ordering;
use crate::schema::ObjectId;

verus! {

/// The order of the clip grid.
#[derive(Debug, Clone, Copy, PartialEq, Eq, Structural)]
pub enum SortOrder {
    /// by search score, best first
    Relevance,
    /// by id, highest (latest saved) first
    NewestFirst,
    /// by id, lowest first
    OldestFirst,
}

impl Default for SortOrder {
    fn default() -> (s: SortOrder)
        ensures
            s == SortOrder::NewestFirst,
    {
        SortOrder::NewestFirst
    }
}

impl SortOrder {
    /// The order at position `i` of the order dropdown.
    pub fn from_repr(i: usize) -> (r: Option<SortOrder>)
        ensures
            i == 0 ==> r == Some(SortOrder::Relevance),
            i == 1 ==> r == Some(SortOrder::NewestFirst),
            i == 2 ==> r == Some(SortOrder::OldestFirst),
            i > 2 ==> r is None,
    {
        if i == 0 {
            Some(SortOrder::Relevance)
        } else if i == 1 {
            Some(SortOrder::NewestFirst)
        } else if i == 2 {
            Some(SortOrder::OldestFirst)
        } else {
            None
        }
    }

    /// Position of the order in the order dropdown.
    pub fn index(&self) -> (i: u32)
        ensures
            i == match self {
                SortOrder::Relevance => 0u32,
                SortOrder::NewestFirst => 1u32,
                SortOrder::OldestFirst => 2u32,
            },
    {
        match self {
            SortOrder::Relevance => 0,
            SortOrder::NewestFirst => 1,
            SortOrder::OldestFirst => 2,
        }
    }
}

/// The order of two ids.
pub open spec fn compare_ids(a: u64, b: u64) -> Ordering {
    if a < b {
        Ordering::Less
    } else if a == b {
        Ordering::Equal
    } else {
        Ordering::Greater
    }
}

/// The order of two scores.
pub open spec fn compare_scores(a: u32, b: u32) -> Ordering {
    if a < b {
        Ordering::Less
    } else if a == b {
        Ordering::Equal
    } else {
        Ordering::Greater
    }
}

/// The reverse of an order.
pub open spec fn reversed(o: Ordering) -> Ordering {
    match o {
        Ordering::Less => Ordering::Greater,
        Ordering::Equal => Ordering::Equal,
        Ordering::Greater => Ordering::Less,
    }
}

/// Where clip `a` goes relative to clip `b`: by id for the newest and oldest
/// orders, by search score (best first) for relevance.
pub open spec fn clip_order(sort: SortOrder, a_id: u64, b_id: u64, a_score: u32, b_score: u32) -> Ordering {
    match sort {
        SortOrder::NewestFirst => compare_ids(b_id, a_id),
        SortOrder::OldestFirst => compare_ids(a_id, b_id),
        SortOrder::Relevance => compare_scores(b_score, a_score),
    }
}

fn compare_u64(a: u64, b: u64) -> (o: Ordering)
    ensures
        o == compare_ids(a, b),
{
    if a < b {
        Ordering::Less
    } else if a == b {
        Ordering::Equal
    } else {
        Ordering::Greater
    }
}

fn compare_u32(a: u32, b: u32) -> (o: Ordering)
    ensures
        o == compare_scores(a, b),
{
    if a < b {
        Ordering::Less
    } else if a == b {
        Ordering::Equal
    } else {
        Ordering::Greater
    }
}

/// Orders two clips of the grid (see [`clip_order`]); a clip without a
/// score counts as scoring 0.
pub fn order_clips(sort: SortOrder, a_id: ObjectId, b_id: ObjectId, a_score: u32, b_score: u32) -> (o: Ordering)
    ensures
        o == clip_order(sort, a_id, b_id, a_score, b_score),
{
    match sort {
        SortOrder::NewestFirst => compare_u64(b_id, a_id),
        SortOrder::OldestFirst => compare_u64(a_id, b_id),
        SortOrder::Relevance => compare_u32(b_score, a_score),
    }
}

/// The grid's orders follow what they are named after: by relevance a clip
/// that scores higher goes before one that scores lower, and equal scores tie;
/// newest first, the clip saved later (higher id) goes first; oldest first,
/// the clip saved earlier goes first.
pub proof fn law_clip_order_follows_score_and_id(a_id: u64, b_id: u64, a_score: u32, b_score: u32)
    ensures
        a_score > b_score ==> clip_order(SortOrder::Relevance, a_id, b_id, a_score, b_score) == Ordering::Less,
        a_score < b_score ==> clip_order(SortOrder::Relevance, a_id, b_id, a_score, b_score) == Ordering::Greater,
        a_score == b_score ==> clip_order(SortOrder::Relevance, a_id, b_id, a_score, b_score) == Ordering::Equal,
        a_id > b_id ==> clip_order(SortOrder::NewestFirst, a_id, b_id, a_score, b_score) == Ordering::Less,
        a_id < b_id ==> clip_order(SortOrder::NewestFirst, a_id, b_id, a_score, b_score) == Ordering::Greater,
        a_id < b_id ==> clip_order(SortOrder::OldestFirst, a_id, b_id, a_score, b_score) == Ordering::Less,
        a_id > b_id ==> clip_order(SortOrder::OldestFirst, a_id, b_id, a_score, b_score) == Ordering::Greater,
        a_id == b_id ==> clip_order(SortOrder::NewestFirst, a_id, b_id, a_score, b_score) == Ordering::Equal,
        a_id == b_id ==> clip_order(SortOrder::OldestFirst, a_id, b_id, a_score, b_score) == Ordering::Equal,
{
}

/// The grid's order is a consistent comparison: swapping two clips reverses
/// it, and newest-first is oldest-first reversed.
pub proof fn law_clip_order_antisymmetric(sort: SortOrder, a_id: u64, b_id: u64, a_score: u32, b_score: u32)
    ensures
        clip_order(sort, a_id, b_id, a_score, b_score) == reversed(
            clip_order(sort, b_id, a_id, b_score, a_score),
        ),
        clip_order(SortOrder::NewestFirst, a_id, b_id, a_score, b_score) == clip_order(
            SortOrder::OldestFirst,
            b_id,
            a_id,
            b_score,
            a_score,
        ),
{
}

/// The grid's order is transitive.
pub proof fn law_clip_order_transitive(
    sort: SortOrder,
    a: (u64, u32),
    b: (u64, u32),
    c: (u64, u32),
)
    ensures
        clip_order(sort, a.0, b.0, a.1, b.1) == Ordering::Less && clip_order(sort, b.0, c.0, b.1, c.1)
            == Ordering::Less ==> clip_order(sort, a.0, c.0, a.1, c.1) == Ordering::Less,
{
}

/// What sorting the grid is in, and whether the user chose it.
#[derive(Debug, Clone, Copy, PartialEq, Eq, Structural)]
pub struct SortState {
    pub sort_order: SortOrder,
    pub user_overrode_sort: bool,
}

impl SortState {
    /// The state at start-up: newest first, not chosen by the user.
    pub fn new() -> (s: SortState)
        ensures
            s == (SortState { sort_order: SortOrder::NewestFirst, user_overrode_sort: false }),
    {
        SortState { sort_order: SortOrder::default(), user_overrode_sort: false }
    }

    /// The user (or the application) picks an order.
    pub fn set_sort_order(&mut self, sort: SortOrder, is_user: bool)
        ensures
            final(self).sort_order == sort,
            final(self).user_overrode_sort == (old(self).user_overrode_sort || is_user),
    {
        if is_user {
            self.user_overrode_sort = true;
        }
        self.sort_order = sort;
    }

    /// A search runs: clearing it forgets the user's choice and leaves
    /// relevance order; a search switches to relevance order unless the user
    /// chose an order.
    pub fn on_search(&mut self, query_is_empty: bool)
        ensures
            query_is_empty ==> *final(self) == (SortState {
                sort_order: if old(self).sort_order == SortOrder::Relevance {
                    SortOrder::NewestFirst
                } else {
                    old(self).sort_order
                },
                user_overrode_sort: false,
            }),
            !query_is_empty && !old(self).user_overrode_sort ==> *final(self) == (SortState {
                sort_order: SortOrder::Relevance,
                user_overrode_sort: false,
            }),
            !query_is_empty && old(self).user_overrode_sort ==> *final(self) == *old(self),
    {
        if query_is_empty {
            self.user_overrode_sort = false;
            if self.sort_order == SortOrder::Relevance {
                self.sort_order = SortOrder::default();
            }
        } else if !self.user_overrode_sort {
            self.sort_order = SortOrder::Relevance;
        }
    }
}

} // verus!
