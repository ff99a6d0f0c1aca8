//! Factions and the specifiers that address them.
use vstd::prelude::*;

use super::specifier::{
    id_i32, id_i32_spec, id_text, lemma_id_i32_round_trip, value_count, Id, PathPart,
    SpecfierParseError, Specifier,
};
use super::faction_member::FactionMemberListSpecifier;
use super::icon::{icon_of, parse_icon, url_parses};
use crate::decimal::{format_u64, int_to_dec};
use crate::text::{chars_of, pieces_view, push_char, push_chars, split_chars, split_spec, string_of};
use sea_query::EscapeBuilder;
use crate::filter::response::paginated_list::{
    has_next, next_anchor, page_end, page_len, page_link, page_link_text, Page, PageToken,
};

verus! {

/// The list of factions, at `/factions`.
#[derive(Debug, Clone, Copy)]
pub struct FactionListSpecifier;

impl Specifier for FactionListSpecifier {
    open spec fn spec_parts() -> Seq<PathPart> {
        seq![PathPart::Path("factions")]
    }

    open spec fn spec_ids(&self) -> Seq<Id> {
        seq![]
    }

    open spec fn spec_from_ids(ids: Seq<Seq<char>>) -> Result<Self, SpecfierParseError> {
        Ok(FactionListSpecifier)
    }

    fn parts() -> (r: Vec<PathPart>) {
        vec![PathPart::Path("factions")]
    }

    fn from_ids(ids: &[Vec<char>]) -> (r: Result<Self, SpecfierParseError>) {
        Ok(Self)
    }

    fn to_ids(&self) -> (r: Vec<Id>) {
        proof {
            reveal_with_fuel(value_count, 2);
        }
        vec![]
    }

    proof fn lemma_parts_plain() {
        reveal_strlit("factions");
    }

    proof fn lemma_ids_round_trip(&self) {
        reveal_with_fuel(value_count, 2);
    }
}

/// A faction, at `/factions/{faction}`.
#[derive(Debug, Clone, Copy)]
pub struct FactionSpecifier(pub i32);

impl FactionSpecifier {
    /// The members of the faction.
    pub fn members(&self) -> (r: FactionMemberListSpecifier)
        ensures
            r == (FactionMemberListSpecifier { faction: self.0 }),
    {
        FactionMemberListSpecifier { faction: self.0 }
    }
}

impl Specifier for FactionSpecifier {
    open spec fn spec_parts() -> Seq<PathPart> {
        seq![PathPart::Path("factions"), PathPart::Value]
    }

    open spec fn spec_ids(&self) -> Seq<Id> {
        seq![Id::I32(self.0)]
    }

    open spec fn spec_from_ids(ids: Seq<Seq<char>>) -> Result<Self, SpecfierParseError> {
        match id_i32_spec(ids[0]) {
            Ok(faction) => Ok(FactionSpecifier(faction)),
            Err(e) => Err(e),
        }
    }

    fn parts() -> (r: Vec<PathPart>) {
        vec![PathPart::Path("factions"), PathPart::Value]
    }

    fn from_ids(ids: &[Vec<char>]) -> (r: Result<Self, SpecfierParseError>) {
        proof {
            reveal_with_fuel(value_count, 3);
        }
        let faction = id_i32(ids[0].as_slice())?;
        Ok(Self(faction))
    }

    fn to_ids(&self) -> (r: Vec<Id>) {
        proof {
            reveal_with_fuel(value_count, 3);
        }
        vec![Id::I32(self.0)]
    }

    proof fn lemma_parts_plain() {
        reveal_strlit("factions");
    }

    proof fn lemma_ids_round_trip(&self) {
        reveal_with_fuel(value_count, 3);
        let texts = self.spec_ids().map_values(|id: Id| id_text(id));
        lemma_id_i32_round_trip(self.0);
        assert(texts[0] == id_text(self.spec_ids()[0]));
    }
}

/// A faction row as stored.
#[derive(Debug, Clone)]
pub struct FactionModel {
    pub id: i32,
    pub name: String,
    pub icon: Option<String>,
    pub created_at: i64,
}

/// A faction row together with its member count, as the listings read it.
#[derive(Debug, Clone)]
pub struct FactionFull {
    pub id: i32,
    pub name: String,
    pub icon: Option<String>,
    pub created_at: i64,
    pub size: i64,
}

impl FactionFull {
    /// A stored faction with the member count found for it.
    pub fn from_model_and_size(model: FactionModel, size: i64) -> (r: Self)
        ensures
            r.id == model.id,
            r.name@ == model.name@,
            r.icon == model.icon,
            r.created_at == model.created_at,
            r.size == size,
    {
        let FactionModel { id, name, icon, created_at } = model;
        FactionFull { id, name, icon, created_at, size }
    }
}

/// A faction as it is shown.
#[derive(Debug, Clone)]
pub struct Faction {
    pub id: FactionSpecifier,
    pub name: String,
    pub icon: Option<url::Url>,
    pub created_at: i64,
    pub size: usize,
}

impl Faction {
    pub fn specifier(&self) -> (r: &FactionSpecifier)
        ensures
            *r == self.id,
    {
        &self.id
    }

    /// The faction of a row: an icon that is no valid URL
    /// is dropped, and the count is reinterpreted as `usize`, as `as` does.
    pub fn from_full(faction: FactionFull) -> (r: Self)
        ensures
            r.id == FactionSpecifier(faction.id),
            r.name@ == faction.name@,
            r.icon == icon_of(faction.icon),
            r.icon is Some <==> (faction.icon matches Some(i) && url_parses(i@)),
            r.created_at == faction.created_at,
            r.size == faction.size as usize,
    {
        let icon = parse_icon(&faction.icon);
        let FactionFull { id, name, icon: _, created_at, size } = faction;
        Faction { id: FactionSpecifier(id), name, icon, created_at, size: size as usize }
    }
}

/// Where a page of factions starts: after the faction with this id.
#[derive(Debug)]
pub struct FactionsPageToken(pub u32);

impl PageToken for FactionsPageToken {
    open spec fn is_start(&self) -> bool {
        self.0 == 0
    }

    fn start() -> (r: Self) {
        FactionsPageToken(0)
    }
}

impl Default for FactionsPageToken {
    fn default() -> (r: Self)
        ensures
            r.is_start(),
    {
        FactionsPageToken(0)
    }
}

impl FactionsPageToken {
    /// The token of the page that follows a faction; the
    /// id is reinterpreted as unsigned, as `as _` does.
    pub fn from_faction(value: &FactionFull) -> (r: Self)
        ensures
            r.0 == value.id as u32,
    {
        FactionsPageToken(value.id as u32)
    }

    /// The token as it stands in a page link.
    pub fn to_string(&self) -> (r: String)
        ensures
            r@ == int_to_dec(self.0 as int),
    {
        crate::text::string_of(format_u64(self.0 as u64).as_slice())
    }
}

/// Whether a faction shows a stored faction row: its id, name, creation time
/// and member count, and its icon where that is a valid URL.
pub open spec fn shows_faction(f: Faction, row: FactionFull) -> bool {
    &&& f.id == FactionSpecifier(row.id)
    &&& f.name@ == row.name@
    &&& f.icon == icon_of(row.icon)
    &&& (f.icon is Some <==> (row.icon matches Some(i) && url_parses(i@)))
    &&& f.created_at == row.created_at
    &&& f.size == row.size as usize
}

impl FactionFull {
    /// The faction a row shows.
    pub fn to_faction(&self) -> (r: Faction)
        ensures
            shows_faction(r, *self),
    {
        let copy = FactionFull {
            id: self.id,
            name: self.name.clone(),
            icon: self.icon.clone(),
            created_at: self.created_at,
            size: self.size,
        };
        Faction::from_full(copy)
    }
}

/// A page of the listing of factions, from the rows fetched for it (one more
/// than the page shows, where there are so many): the first `limit` rows as
/// factions, and the link `/factions?page={id}&limit={limit}` to the next page
/// when rows follow the page, after the last row the page shows.
pub fn factions_page(rows: &[FactionFull], limit: usize) -> (r: Page<Faction>)
    ensures
        r.items@.len() == page_len(rows@.len() as int, limit),
        forall|i: int| 0 <= i < r.items@.len() ==> shows_faction(#[trigger] r.items@[i], rows@[i]),
        r.next is Some <==> has_next(rows@.len() as int, limit),
        (r.next matches Some(link) ==> link@ == page_link_text(
            "/factions"@,
            int_to_dec(rows@[page_end(limit)].id as u32 as int),
            limit,
        )),
        r.previous is None,
{
    let next = match next_anchor(rows.len(), limit) {
        Some(i) => {
            let token = FactionsPageToken::from_faction(&rows[i]);
            let t = token.to_string();
            Some(page_link("/factions", t.as_str(), limit))
        },
        None => None,
    };
    let count = if rows.len() < limit {
        rows.len()
    } else {
        limit
    };
    let mut items: Vec<Faction> = Vec::new();
    let mut i: usize = 0;
    while i < count
        invariant
            count == page_len(rows@.len() as int, limit),
            count <= rows@.len(),
            i <= count,
            items@.len() == i,
            forall|j: int| 0 <= j < i ==> shows_faction(#[trigger] items@[j], rows@[j]),
        decreases count - i,
    {
        items.push(rows[i].to_faction());
        i = i + 1;
    }
    Page { items, next, previous: None }
}

/// A character in an SQL string literal as `sea_query` escapes it: a
/// backslash before `\`, `"` and `'`, and the C escapes of NUL, backspace, tab,
/// SUB, line feed and carriage return.
pub open spec fn sql_escape_char(c: char) -> Seq<char> {
    if c == '\\' {
        seq!['\\', '\\']
    } else if c == '"' {
        seq!['\\', '"']
    } else if c == '\'' {
        seq!['\\', '\'']
    } else if c == '\0' {
        seq!['\\', '0']
    } else if c == '\x08' {
        seq!['\\', 'b']
    } else if c == '\t' {
        seq!['\\', 't']
    } else if c == '\x1a' {
        seq!['\\', 'z']
    } else if c == '\n' {
        seq!['\\', 'n']
    } else if c == '\r' {
        seq!['\\', 'r']
    } else {
        seq![c]
    }
}

/// A text with each character escaped for an SQL string literal.
pub open spec fn sql_escape(s: Seq<char>) -> Seq<char>
    decreases s.len(),
{
    if s.len() == 0 {
        Seq::empty()
    } else {
        sql_escape(s.drop_last()) + sql_escape_char(s.last())
    }
}

/// Calls `EscapeBuilder::escape_string` of `sea_query::PostgresQueryBuilder`,
/// which keeps the trait's own method. Claims what its source shows: each
/// character escaped as `sql_escape_char` says (the method's replacements touch
/// no character that an earlier one wrote, so they act character by
/// character).
#[verifier::external_body]
fn escape_sql_string(text: &str) -> (r: String)
    ensures
        r@ == sql_escape(text@),
{
    sea_query::PostgresQueryBuilder.escape_string(text)
}

/// Pieces joined with `%` between them.
pub open spec fn join_percent(pieces: Seq<Seq<char>>) -> Seq<char>
    decreases pieces.len(),
{
    if pieces.len() == 0 {
        Seq::empty()
    } else if pieces.len() == 1 {
        pieces[0]
    } else {
        join_percent(pieces.drop_last()) + seq!['%'] + pieces.last()
    }
}

/// The `LIKE` pattern a faction name filter stands for: the pieces between its
/// `*`s, each escaped for an SQL string literal, joined with `%`.
pub open spec fn name_like_text(name: Seq<char>) -> Seq<char> {
    join_percent(split_spec(name, '*').map_values(|p: Seq<char>| sql_escape(p)))
}

/// The `LIKE` pattern that a listing of factions filters names by.
pub fn faction_name_like(name: &str) -> (r: String)
    ensures
        r@ == name_like_text(name@),
{
    let cs = chars_of(name);
    let pieces = split_chars(cs.as_slice(), '*');
    let ghost pv = pieces_view(pieces@);
    let ghost escaped = pv.map_values(|p: Seq<char>| sql_escape(p));
    let mut s = String::new();
    let mut i: usize = 0;
    while i < pieces.len()
        invariant
            i <= pieces.len(),
            pv == pieces_view(pieces@),
            escaped == pv.map_values(|p: Seq<char>| sql_escape(p)),
            s@ == join_percent(escaped.take(i as int)),
        decreases pieces.len() - i,
    {
        let piece = string_of(pieces[i].as_slice());
        let e = escape_sql_string(piece.as_str());
        let ghost before = s@;
        if i > 0 {
            push_char(&mut s, '%');
        }
        let ec = chars_of(e.as_str());
        push_chars(&mut s, ec.as_slice());
        proof {
            assert(escaped.take(i + 1).drop_last() =~= escaped.take(i as int));
            assert(escaped.take(i + 1).last() == e@);
            if i == 0 {
                assert(escaped.take(1) =~= seq![e@]);
                assert(s@ =~= e@);
            } else {
                assert(s@ =~= before + seq!['%'] + e@);
            }
        }
        i = i + 1;
    }
    proof {
        assert(escaped.take(pieces.len() as int) =~= escaped);
    }
    s
}

} // verus!
