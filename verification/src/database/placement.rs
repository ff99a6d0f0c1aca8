//! Placements and the specifiers that address them.
use vstd::prelude::*;

use super::specifier::{
    id_i32, id_i32_spec, id_text, id_u64, id_u64_spec, lemma_id_i32_round_trip,
    lemma_id_u64_round_trip, value_count, Id, PathPart, SpecfierParseError, Specifier,
};
use super::board::BoardSpecifier;

use super::sector::PlacementModel;
use super::user::{User, UserModel, UserSpecifier};
use crate::decimal::{
    format_u64, int_to_dec, lemma_nat_to_dec_lacks, lemma_parse_int_to_dec, parse_u32,
    parse_u32_spec, parse_usize, parse_usize_spec,
};
use super::filter::FilterRange;
use super::specifier::build_path;
use crate::filter::response::paginated_list::{
    param_text, has_next, next_anchor, page_end, page_len, Page, page_link, page_link_text, push_range_param, push_text_param, range_param_text,
    text_param_text, form_first_piece, PageToken,
};
use super::filter::filter_text;
use crate::text::{
    lemma_contains_middle, occurs_text,
    chars_of, lemma_split_once_at, push_char, push_chars, split_once, split_once_spec, string_of,
};

verus! {

/// The placements of a board, at `/boards/{board}/pixels`.
#[derive(Debug, Clone, Copy)]
pub struct PlacementListSpecifier {
    pub board: i32,
}

impl PlacementListSpecifier {
    /// The board the placements belong to.
    pub fn board(&self) -> (r: BoardSpecifier)
        ensures
            r == BoardSpecifier(self.board),
    {
        BoardSpecifier(self.board)
    }
}

impl Specifier for PlacementListSpecifier {
    open spec fn spec_parts() -> Seq<PathPart> {
        seq![PathPart::Path("boards"), PathPart::Value, PathPart::Path("pixels")]
    }

    open spec fn spec_ids(&self) -> Seq<Id> {
        seq![Id::I32(self.board)]
    }

    open spec fn spec_from_ids(ids: Seq<Seq<char>>) -> Result<Self, SpecfierParseError> {
        match id_i32_spec(ids[0]) {
            Ok(board) => Ok(PlacementListSpecifier { board: board }),
            Err(e) => Err(e),
        }
    }

    fn parts() -> (r: Vec<PathPart>) {
        vec![PathPart::Path("boards"), PathPart::Value, PathPart::Path("pixels")]
    }

    fn from_ids(ids: &[Vec<char>]) -> (r: Result<Self, SpecfierParseError>) {
        proof {
            reveal_with_fuel(value_count, 4);
        }
        let board = id_i32(ids[0].as_slice())?;
        Ok(Self { board })
    }

    fn to_ids(&self) -> (r: Vec<Id>) {
        proof {
            reveal_with_fuel(value_count, 4);
        }
        vec![Id::I32(self.board)]
    }

    proof fn lemma_parts_plain() {
        reveal_strlit("boards");
        reveal_strlit("pixels");
    }

    proof fn lemma_ids_round_trip(&self) {
        reveal_with_fuel(value_count, 4);
        let texts = self.spec_ids().map_values(|id: Id| id_text(id));
        lemma_id_i32_round_trip(self.board);
        assert(texts[0] == id_text(self.spec_ids()[0]));
    }
}

impl From<BoardSpecifier> for PlacementListSpecifier {
    fn from(value: BoardSpecifier) -> (r: Self) {
        Self { board: value.0 }
    }
}

impl vstd::std_specs::convert::FromSpecImpl<BoardSpecifier> for PlacementListSpecifier {
    open spec fn obeys_from_spec() -> bool {
        true
    }

    open spec fn from_spec(value: BoardSpecifier) -> Self {
        PlacementListSpecifier { board: value.0 }
    }
}

/// The placements at one position of a board, at `/boards/{board}/pixels/{position}`.
#[derive(Debug, Clone, Copy)]
pub struct PlacementSpecifier {
    pub board: i32,
    pub position: u64,
}

impl PlacementSpecifier {
    /// The board.
    pub fn board(&self) -> (r: BoardSpecifier)
        ensures
            r == BoardSpecifier(self.board),
    {
        BoardSpecifier(self.board)
    }

    /// The position on the board.
    pub fn position(&self) -> (r: u64)
        ensures
            r == self.position,
    {
        self.position
    }
}

impl Specifier for PlacementSpecifier {
    open spec fn spec_parts() -> Seq<PathPart> {
        seq![PathPart::Path("boards"), PathPart::Value, PathPart::Path("pixels"), PathPart::Value]
    }

    open spec fn spec_ids(&self) -> Seq<Id> {
        seq![Id::I32(self.board), Id::U64(self.position)]
    }

    open spec fn spec_from_ids(ids: Seq<Seq<char>>) -> Result<Self, SpecfierParseError> {
        match id_i32_spec(ids[0]) {
            Ok(board) => match id_u64_spec(ids[1]) {
            Ok(position) => Ok(PlacementSpecifier { board: board, position: position }),
            Err(e) => Err(e),
        },
            Err(e) => Err(e),
        }
    }

    fn parts() -> (r: Vec<PathPart>) {
        vec![PathPart::Path("boards"), PathPart::Value, PathPart::Path("pixels"), PathPart::Value]
    }

    fn from_ids(ids: &[Vec<char>]) -> (r: Result<Self, SpecfierParseError>) {
        proof {
            reveal_with_fuel(value_count, 5);
        }
        let board = id_i32(ids[0].as_slice())?;
        let position = id_u64(ids[1].as_slice())?;
        Ok(Self { board, position })
    }

    fn to_ids(&self) -> (r: Vec<Id>) {
        proof {
            reveal_with_fuel(value_count, 5);
        }
        vec![Id::I32(self.board), Id::U64(self.position)]
    }

    proof fn lemma_parts_plain() {
        reveal_strlit("boards");
        reveal_strlit("pixels");
    }

    proof fn lemma_ids_round_trip(&self) {
        reveal_with_fuel(value_count, 5);
        let texts = self.spec_ids().map_values(|id: Id| id_text(id));
        lemma_id_i32_round_trip(self.board);
        assert(texts[0] == id_text(self.spec_ids()[0]));
        lemma_id_u64_round_trip(self.position);
        assert(texts[1] == id_text(self.spec_ids()[1]));
    }
}

/// Where a page of placements starts: after the placement with this timestamp
/// and id, in the order of the listing.
#[derive(Debug, Clone, Copy)]
pub struct PlacementPageToken {
    pub id: usize,
    pub timestamp: u32,
}

impl PageToken for PlacementPageToken {
    open spec fn is_start(&self) -> bool {
        self.id == 0 && self.timestamp == 0
    }

    fn start() -> (r: Self) {
        PlacementPageToken { id: 0, timestamp: 0 }
    }
}

impl Default for PlacementPageToken {
    fn default() -> (r: Self)
        ensures
            r.is_start(),
    {
        Self::start()
    }
}

/// Why a placement page token was refused.
#[derive(Debug, Clone, Copy, PartialEq, Eq, Structural)]
pub enum PlacementTokenError {
    MissingUnderscore,
    IdInvalid,
    TimestampInvalid,
}

/// The text of a placement page token: `{timestamp}_{id}`.
pub open spec fn placement_token_text(timestamp: u32, id: usize) -> Seq<char> {
    int_to_dec(timestamp as int) + seq!['_'] + int_to_dec(id as int)
}

/// What a placement page token reads as, `(timestamp, id)`: the text before the
/// first underscore is the timestamp, the rest the id, and the id is checked
/// first.
pub open spec fn placement_token_spec(s: Seq<char>) -> Result<(u32, usize), PlacementTokenError> {
    match split_once_spec(s, '_') {
        None => Err(PlacementTokenError::MissingUnderscore),
        Some((t, i)) => match parse_usize_spec(i) {
            Err(_) => Err(PlacementTokenError::IdInvalid),
            Ok(id) => match parse_u32_spec(t) {
                Err(_) => Err(PlacementTokenError::TimestampInvalid),
                Ok(timestamp) => Ok((timestamp, id)),
            },
        },
    }
}

impl PlacementPageToken {
    /// The token as it stands in a page link.
    pub fn to_string(&self) -> (r: String)
        ensures
            r@ == placement_token_text(self.timestamp, self.id),
    {
        let mut s = string_of(format_u64(self.timestamp as u64).as_slice());
        push_char(&mut s, '_');
        let d = format_u64(self.id as u64);
        push_chars(&mut s, d.as_slice());
        s
    }

    /// Reads a token from a page link.
    pub fn parse(value: &str) -> (r: Result<Self, PlacementTokenError>)
        ensures
            match (r, placement_token_spec(value@)) {
                (Ok(t), Ok((timestamp, id))) => t.timestamp == timestamp && t.id == id,
                (Err(e), Err(f)) => e == f,
                _ => false,
            },
    {
        let cs = chars_of(value);
        match split_once(cs.as_slice(), '_') {
            None => Err(PlacementTokenError::MissingUnderscore),
            Some((t, i)) => {
                let id = match parse_usize(i.as_slice()) {
                    Ok(v) => v,
                    Err(_) => { return Err(PlacementTokenError::IdInvalid); },
                };
                let timestamp = match parse_u32(t.as_slice()) {
                    Ok(v) => v,
                    Err(_) => { return Err(PlacementTokenError::TimestampInvalid); },
                };
                Ok(PlacementPageToken { id, timestamp })
            },
        }
    }
}

/// Law: a placement page token written into a page link reads back as the same
/// token.
pub proof fn lemma_placement_token_round_trip(timestamp: u32, id: usize)
    ensures
        placement_token_spec(placement_token_text(timestamp, id)) == Ok::<
            (u32, usize),
            PlacementTokenError,
        >((timestamp, id)),
{
    let t = int_to_dec(timestamp as int);
    let i = int_to_dec(id as int);
    lemma_nat_to_dec_lacks(timestamp as nat, '_');
    lemma_split_once_at(t, '_', i);
    lemma_parse_int_to_dec(id as int, 0, usize::MAX as int);
    lemma_parse_int_to_dec(timestamp as int, 0, u32::MAX as int);
}

/// The newest placement at a position.
#[derive(Debug, Clone, Copy)]
pub struct LastPlacement {
    pub id: i64,
    pub modified: u32,
    pub color: u8,
    pub user: UserSpecifier,
}

/// What is kept of a placement in memory: when and by whom.
#[derive(Debug, Clone, Copy)]
pub struct CachedPlacement {
    pub modified: u32,
    pub user: UserSpecifier,
}

impl CachedPlacement {
    /// What is kept of a stored placement; the
    /// timestamp is reinterpreted as unsigned, as `as _` does.
    pub fn from_model(value: &PlacementModel) -> (r: Self)
        ensures
            r.modified == value.timestamp as u32,
            r.user == UserSpecifier(value.user_id),
    {
        CachedPlacement { modified: value.timestamp as u32, user: UserSpecifier(value.user_id) }
    }
}

/// The newest placement of a stored row: its timestamp and color reinterpreted
/// as `u32` and `u8`, as `as _` does.
pub open spec fn last_placement_of(p: PlacementModel) -> LastPlacement {
    LastPlacement {
        id: p.id,
        modified: p.timestamp as u32,
        color: p.color as u8,
        user: UserSpecifier(p.user_id),
    }
}

impl LastPlacement {
    /// The placement of a stored row.
    pub fn from_model(p: &PlacementModel) -> (r: Self)
        ensures
            r == last_placement_of(*p),
    {
        LastPlacement {
            id: p.id,
            modified: p.timestamp as u32,
            color: p.color as u8,
            user: UserSpecifier(p.user_id),
        }
    }

    /// The two newest placements at a position, from its rows newest first
    ///.
    pub fn last_two(rows: &Vec<PlacementModel>) -> (r: (Option<LastPlacement>, Option<LastPlacement>))
        ensures
            r.0 == (if rows.len() > 0 {
                Some(last_placement_of(rows@[0]))
            } else {
                None
            }),
            r.1 == (if rows.len() > 1 {
                Some(last_placement_of(rows@[1]))
            } else {
                None
            }),
    {
        let first = if rows.len() > 0 {
            Some(LastPlacement::from_model(&rows[0]))
        } else {
            None
        };
        let second = if rows.len() > 1 {
            Some(LastPlacement::from_model(&rows[1]))
        } else {
            None
        };
        (first, second)
    }
}

/// What a listing of placements is narrowed to.
#[derive(Debug)]
pub struct PlacementFilter {
    pub color: FilterRange<u8>,
    pub user: Option<String>,
    pub position: FilterRange<u64>,
    pub timestamp: FilterRange<u32>,
}

/// The link to the next page of a listing of placements: the list's path, the
/// page and limit, then each filter that narrows the listing.
pub open spec fn placements_link_text(
    path: Seq<char>,
    token: PlacementPageToken,
    limit: usize,
    filter: PlacementFilter,
) -> Seq<char> {
    page_link_text(path, placement_token_text(token.timestamp, token.id), limit) + range_param_text(
        "color"@,
        filter.color,
    ) + text_param_text(
        "user"@,
        match filter.user {
            Some(u) => Some(u@),
            None => None,
        },
    ) + range_param_text("position"@, filter.position) + range_param_text(
        "timestamp"@,
        filter.timestamp,
    )
}

impl PlacementPageToken {
    /// The token of the page that follows a stored placement; id and timestamp
    /// are reinterpreted as unsigned, as `as` does.
    pub fn from_model(p: &PlacementModel) -> (r: Self)
        ensures
            r.id == p.id as usize,
            r.timestamp == p.timestamp as u32,
    {
        PlacementPageToken { id: p.id as usize, timestamp: p.timestamp as u32 }
    }
}

/// The link to the next page of a listing of placements.
pub fn placements_page_link(
    list: &PlacementListSpecifier,
    token: &PlacementPageToken,
    limit: usize,
    filter: &PlacementFilter,
) -> (r: String)
    ensures
        r@ == placements_link_text(
            build_path(PlacementListSpecifier::spec_parts(), list.spec_ids()),
            *token,
            limit,
            *filter,
        ),
{
    let path = list.to_uri();
    let t = token.to_string();
    let mut link = page_link(path.as_str(), t.as_str(), limit);
    push_range_param(&mut link, "color", &filter.color);
    let user = match &filter.user {
        Some(u) => Some(u.as_str()),
        None => None,
    };
    push_text_param(&mut link, "user", user);
    push_range_param(&mut link, "position", &filter.position);
    push_range_param(&mut link, "timestamp", &filter.timestamp);
    link
}


/// A placement as a listing shows it: where, which color, when and by whom.
pub struct Placement {
    pub position: u64,
    pub color: u8,
    pub modified: u32,
    pub user: User,
}

/// The placement a stored row and its user show; the numbers are
/// reinterpreted as `as` does.
pub open spec fn placement_of(p: PlacementModel, u: UserModel) -> Placement {
    Placement {
        position: p.position as u64,
        color: p.color as u8,
        modified: p.timestamp as u32,
        user: User {
            id: UserSpecifier(u.id),
            subject: u.subject,
            name: u.name,
            created_at: u.created_at,
        },
    }
}

/// The token of the page that follows a stored placement.
pub open spec fn token_of(p: PlacementModel) -> PlacementPageToken {
    PlacementPageToken { id: p.id as usize, timestamp: p.timestamp as u32 }
}

/// A page of a listing of placements, from the rows fetched for it (one more
/// than the page shows, where there are so many): the first `limit` rows as
/// placements, and the link to the next page when rows follow the page,
/// anchored at the last row the page shows.
pub fn placements_page(
    rows: &[(PlacementModel, UserModel)],
    list: &PlacementListSpecifier,
    limit: usize,
    filter: &PlacementFilter,
) -> (r: Page<Placement>)
    ensures
        r.items@.len() == page_len(rows@.len() as int, limit),
        forall|i: int|
            0 <= i < r.items@.len() ==> #[trigger] r.items@[i] == placement_of(
                rows@[i].0,
                rows@[i].1,
            ),
        r.next is Some <==> has_next(rows@.len() as int, limit),
        (r.next matches Some(link) ==> link@ == placements_link_text(
            build_path(PlacementListSpecifier::spec_parts(), list.spec_ids()),
            token_of(rows@[page_end(limit)].0),
            limit,
            *filter,
        )),
        r.previous is None,
{
    let next = match next_anchor(rows.len(), limit) {
        Some(i) => {
            let token = PlacementPageToken::from_model(&rows[i].0);
            Some(placements_page_link(list, &token, limit, filter))
        },
        None => None,
    };
    let count = if rows.len() < limit {
        rows.len()
    } else {
        limit
    };
    let mut items: Vec<Placement> = Vec::new();
    let mut i: usize = 0;
    while i < count
        invariant
            count == page_len(rows@.len() as int, limit),
            count <= rows@.len(),
            i <= count,
            items@.len() == i,
            forall|j: int| 0 <= j < i ==> #[trigger] items@[j] == placement_of(rows@[j].0, rows@[j].1),
        decreases count - i,
    {
        let (p, u) = &rows[i];
        let user = User {
            id: UserSpecifier(u.id),
            subject: u.subject.clone(),
            name: u.name.clone(),
            created_at: u.created_at,
        };
        items.push(
            Placement {
                position: p.position as u64,
                color: p.color as u8,
                modified: p.timestamp as u32,
                user,
            },
        );
        i = i + 1;
    }
    Page { items, next, previous: None }
}

/// Law: the link to the next page of a listing of placements starts with the
/// list's path, the page after the token and the limit, and carries every
/// filter that narrows the listing: each bounded range as its text, and the
/// user as the first piece of its form encoding.
pub proof fn lemma_placements_link_keeps_filters(
    path: Seq<char>,
    token: PlacementPageToken,
    limit: usize,
    filter: PlacementFilter,
)
    ensures
        placements_link_text(path, token, limit, filter).take(
            page_link_text(path, placement_token_text(token.timestamp, token.id), limit).len() as int,
        ) == page_link_text(path, placement_token_text(token.timestamp, token.id), limit),
        (filter.color.start is Some || filter.color.end is Some) ==> occurs_text(
            placements_link_text(path, token, limit, filter),
            param_text("color"@, filter_text(filter.color)),
        ),
        (filter.position.start is Some || filter.position.end is Some) ==> occurs_text(
            placements_link_text(path, token, limit, filter),
            param_text("position"@, filter_text(filter.position)),
        ),
        (filter.timestamp.start is Some || filter.timestamp.end is Some) ==> occurs_text(
            placements_link_text(path, token, limit, filter),
            param_text("timestamp"@, filter_text(filter.timestamp)),
        ),
        (filter.user matches Some(u) && form_first_piece(vstd::utf8::encode_utf8(u@)) is Some)
            ==> occurs_text(
            placements_link_text(path, token, limit, filter),
            param_text("user"@, form_first_piece(vstd::utf8::encode_utf8(filter.user->0@))->0),
        ),
{
    let head = page_link_text(path, placement_token_text(token.timestamp, token.id), limit);
    let c = range_param_text("color"@, filter.color);
    let u = text_param_text(
        "user"@,
        match filter.user {
            Some(u) => Some(u@),
            None => None,
        },
    );
    let p = range_param_text("position"@, filter.position);
    let ts = range_param_text("timestamp"@, filter.timestamp);
    let l = placements_link_text(path, token, limit, filter);
    assert(l == head + c + u + p + ts);
    assert(l.take(head.len() as int) =~= head);
    if filter.color.start is Some || filter.color.end is Some {
        lemma_contains_middle(head, c, u + p + ts);
        assert(head + c + (u + p + ts) =~= l);
    }
    if filter.user is Some && form_first_piece(vstd::utf8::encode_utf8(filter.user->0@)) is Some {
        lemma_contains_middle(head + c, u, p + ts);
        assert(head + c + u + (p + ts) =~= l);
    }
    if filter.position.start is Some || filter.position.end is Some {
        lemma_contains_middle(head + c + u, p, ts);
    }
    if filter.timestamp.start is Some || filter.timestamp.end is Some {
        lemma_contains_middle(head + c + u + p, ts, Seq::empty());
        assert(head + c + u + p + ts + Seq::<char>::empty() =~= l);
    }
}

} // verus!
