//! The catalog entities: levels, the association side tables, and the
//! friendship relation, as plain values the search core reads.

use vstd::prelude::*;

verus! {

/// A catalog level. Timestamps are epoch seconds; `rated_at` is set exactly
/// when the level has been curated (`rated`).
pub struct Level {
    pub id: i32,
    pub user_id: i32,
    pub username: String,
    pub level_name: String,
    pub objects: i32,
    pub difficulty: i16,
    pub demon_difficulty: i16,
    pub length: i16,
    pub coins: bool,
    pub epic_rating: i16,
    pub featured: bool,
    pub two_player: bool,
    pub original: bool,
    pub rated: bool,
    pub verified_coins: bool,
    pub downloads: i32,
    pub likes: i32,
    pub stars: i16,
    pub created_at: i64,
    pub rated_at: Option<i64>,
}

impl Level {
    /// The curation invariant: a rated level carries its curation time, an
    /// unrated one none.
    pub open spec fn wf(self) -> bool {
        self.rated <==> self.rated_at is Some
    }
}

pub open spec fn unique_level_ids(s: Seq<Level>) -> bool {
    forall|i: int, j: int| 0 <= i < j < s.len() ==> (#[trigger] s[i]).id != (#[trigger] s[j]).id
}

/// The read-only state the dispatcher consults: the level relation, the
/// daily/weekly/event association tables (level ids in assignment order, so
/// the most recently assigned is last), the suggestion set, the symmetric
/// friendship relation, and the stored lists (id, comma-separated level ids).
pub struct Catalog {
    pub levels: Vec<Level>,
    pub daily: Vec<i32>,
    pub weekly: Vec<i32>,
    pub event: Vec<i32>,
    pub suggested: Vec<i32>,
    pub friendships: Vec<(i32, i32)>,
    pub lists: Vec<(i32, String)>,
}

impl Catalog {
    pub open spec fn wf(self) -> bool {
        &&& unique_level_ids(self.levels@)
        &&& forall|i: int| 0 <= i < self.levels@.len() ==> (#[trigger] self.levels@[i]).wf()
    }
}

} // verus!
