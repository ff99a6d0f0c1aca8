//! Boards and the specifiers that address them.
use vstd::prelude::*;

use super::specifier::{
    id_i32, id_i32_spec, id_text, lemma_id_i32_round_trip, value_count, Id, PathPart,
    SpecfierParseError, Specifier,
};


use std::collections::HashMap;

verus! {

/// The list of boards, at `/boards`.
#[derive(Debug, Clone, Copy)]
pub struct BoardListSpecifier;

impl Specifier for BoardListSpecifier {
    open spec fn spec_parts() -> Seq<PathPart> {
        seq![PathPart::Path("boards")]
    }

    open spec fn spec_ids(&self) -> Seq<Id> {
        seq![]
    }

    open spec fn spec_from_ids(ids: Seq<Seq<char>>) -> Result<Self, SpecfierParseError> {
        Ok(BoardListSpecifier)
    }

    fn parts() -> (r: Vec<PathPart>) {
        vec![PathPart::Path("boards")]
    }

    fn from_ids(ids: &[Vec<char>]) -> (r: Result<Self, SpecfierParseError>) {
        Ok(Self)
    }

    fn to_ids(&self) -> (r: Vec<Id>) {
        proof {
            reveal_with_fuel(value_count, 2);
        }
        vec![]
    }

    proof fn lemma_parts_plain() {
        reveal_strlit("boards");
    }

    proof fn lemma_ids_round_trip(&self) {
        reveal_with_fuel(value_count, 2);
    }
}

/// A board, at `/boards/{board}`.
#[derive(Debug, PartialEq, Eq, Structural, Clone, Copy, Hash)]
pub struct BoardSpecifier(pub i32);

impl Specifier for BoardSpecifier {
    open spec fn spec_parts() -> Seq<PathPart> {
        seq![PathPart::Path("boards"), PathPart::Value]
    }

    open spec fn spec_ids(&self) -> Seq<Id> {
        seq![Id::I32(self.0)]
    }

    open spec fn spec_from_ids(ids: Seq<Seq<char>>) -> Result<Self, SpecfierParseError> {
        match id_i32_spec(ids[0]) {
            Ok(board) => Ok(BoardSpecifier(board)),
            Err(e) => Err(e),
        }
    }

    fn parts() -> (r: Vec<PathPart>) {
        vec![PathPart::Path("boards"), PathPart::Value]
    }

    fn from_ids(ids: &[Vec<char>]) -> (r: Result<Self, SpecfierParseError>) {
        proof {
            reveal_with_fuel(value_count, 3);
        }
        let board = id_i32(ids[0].as_slice())?;
        Ok(Self(board))
    }

    fn to_ids(&self) -> (r: Vec<Id>) {
        proof {
            reveal_with_fuel(value_count, 3);
        }
        vec![Id::I32(self.0)]
    }

    proof fn lemma_parts_plain() {
        reveal_strlit("boards");
    }

    proof fn lemma_ids_round_trip(&self) {
        reveal_with_fuel(value_count, 3);
        let texts = self.spec_ids().map_values(|id: Id| id_text(id));
        lemma_id_i32_round_trip(self.0);
        assert(texts[0] == id_text(self.spec_ids()[0]));
    }
}

/// How many placements of a color a user made on a board.
#[derive(Debug, Clone, Copy)]
pub struct UserStats {
    pub user_id: i32,
    pub color: i16,
    pub count: i64,
}

/// Seconds without a placement after which a user no longer counts as active.
pub const IDLE_TIMEOUT: u32 = 300;

/// The times from which a board's caches are rebuilt, in seconds since the
/// board was created.
#[derive(Debug, Clone, Copy, PartialEq, Eq, Structural)]
pub struct CacheWindow {
    /// The board's age now (at least one second).
    pub timestamp: u32,
    /// Placements after this count toward the users active now.
    pub idle_begin: u32,
    /// Placements after this may still keep a user from a full stack.
    pub cooldown_begin: u32,
}

/// The age of a board created at `created_at` at time `now`: at least one
/// second.
pub open spec fn board_age(now: u64, created_at: u64) -> int {
    if now > created_at && now - created_at > 1 {
        now - created_at
    } else {
        1
    }
}

/// The window from which a board's caches are rebuilt, for a
/// board created at `created_at` whose users stack up to
/// `max_pixels_available` pixels, one every `cooldown` seconds.
pub fn cache_window(
    now: u64,
    created_at: u64,
    max_pixels_available: u32,
    cooldown: u32,
) -> (r: CacheWindow)
    requires
        board_age(now, created_at) <= u32::MAX,
        max_pixels_available * cooldown <= u32::MAX,
        max_pixels_available * cooldown <= board_age(now, created_at),
    ensures
        r.timestamp == board_age(now, created_at),
        r.idle_begin == (if r.timestamp > IDLE_TIMEOUT {
            r.timestamp - IDLE_TIMEOUT
        } else {
            0
        }),
        r.cooldown_begin == r.timestamp - max_pixels_available * cooldown,
{
    let age = now.saturating_sub(created_at);
    let age = if age > 1 {
        age
    } else {
        1
    };
    let timestamp = age as u32;
    let idle_begin = timestamp.saturating_sub(IDLE_TIMEOUT);
    let max_stack_cooldown = max_pixels_available * cooldown;
    let cooldown_begin = timestamp - max_stack_cooldown;
    CacheWindow { timestamp, idle_begin, cooldown_begin }
}

/// The placements by color of each user, from the per-user, per-color counts
/// of a board's placements: each count is added to the user's running total
/// for that color (the color reinterpreted as `u8`, the count as `usize`, as
/// `as` does).
pub open spec fn statistics_of(rows: Seq<UserStats>) -> Map<i32, Map<u8, usize>>
    decreases rows.len(),
{
    if rows.len() == 0 {
        Map::empty()
    } else {
        let before = statistics_of(rows.drop_last());
        let row = rows.last();
        let colors = if before.contains_key(row.user_id) {
            before[row.user_id]
        } else {
            Map::empty()
        };
        let placed = if colors.contains_key(row.color as u8) {
            colors[row.color as u8]
        } else {
            0usize
        };
        before.insert(row.user_id, colors.insert(row.color as u8, (placed + row.count as usize) as usize))
    }
}

/// Whether no running total of `statistics_of` passes `usize::MAX`.
pub open spec fn statistics_fit(rows: Seq<UserStats>) -> bool
    decreases rows.len(),
{
    if rows.len() == 0 {
        true
    } else {
        let before = statistics_of(rows.drop_last());
        let row = rows.last();
        let colors = if before.contains_key(row.user_id) {
            before[row.user_id]
        } else {
            Map::empty()
        };
        let placed = if colors.contains_key(row.color as u8) {
            colors[row.color as u8]
        } else {
            0usize
        };
        statistics_fit(rows.drop_last()) && placed + row.count as usize <= usize::MAX
    }
}

/// The nested maps of statistics, by their views.
pub open spec fn statistics_view(m: Map<i32, HashMap<u8, usize>>) -> Map<i32, Map<u8, usize>> {
    Map::new(|k: i32| m.contains_key(k), |k: i32| m[k]@)
}

/// How many placements of each color each user made on a board.
pub fn placement_statistics(rows: &[UserStats]) -> (r: HashMap<i32, HashMap<u8, usize>>)
    requires
        statistics_fit(rows@),
    ensures
        statistics_view(r@) == statistics_of(rows@),
{
    broadcast use vstd::std_specs::hash::group_hash_axioms;

    let mut stats: HashMap<i32, HashMap<u8, usize>> = HashMap::new();
    let mut i: usize = 0;
    assert(statistics_view(stats@) =~= statistics_of(rows@.take(0)));
    while i < rows.len()
        invariant
            i <= rows.len(),
            statistics_fit(rows@),
            statistics_view(stats@) == statistics_of(rows@.take(i as int)),
        decreases rows.len() - i,
    {
        let ghost prefix = rows@.take(i + 1);
        proof {
            assert(prefix.drop_last() =~= rows@.take(i as int));
            assert(prefix.last() == rows@[i as int]);
            lemma_statistics_fit_prefix(rows@, i + 1);
        }
        let user = rows[i].user_id;
        let color = rows[i].color as u8;
        let count = rows[i].count as usize;
        let ghost before = stats@;
        let mut colors = match stats.remove(&user) {
            Some(m) => m,
            None => HashMap::new(),
        };
        let placed = match colors.get(&color) {
            Some(v) => *v,
            None => 0,
        };
        colors.insert(color, placed + count);
        stats.insert(user, colors);
        proof {
            assert(statistics_view(stats@) =~= statistics_of(prefix));
        }
        i = i + 1;
    }
    assert(rows@.take(rows.len() as int) =~= rows@);
    stats
}

proof fn lemma_statistics_fit_prefix(rows: Seq<UserStats>, k: int)
    requires
        0 <= k <= rows.len(),
        statistics_fit(rows),
    ensures
        statistics_fit(rows.take(k)),
    decreases rows.len(),
{
    if k < rows.len() {
        assert(rows.drop_last().take(k) =~= rows.take(k));
        lemma_statistics_fit_prefix(rows.drop_last(), k);
    } else {
        assert(rows.take(k) =~= rows);
    }
}

} // verus!
