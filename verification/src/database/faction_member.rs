//! Faction memberships and the specifiers that address them.
use vstd::prelude::*;

use super::specifier::{
    id_i32, id_i32_spec, id_text, lemma_id_i32_round_trip, value_count, Id, PathPart,
    SpecfierParseError, Specifier,
};
use super::faction::FactionSpecifier;
use super::user::{User, UserSpecifier};

use super::faction::{shows_faction, Faction, FactionFull};
use super::specifier::build_path;
use crate::decimal::{format_u64, int_to_dec};
use crate::filter::response::paginated_list::{
    has_next, next_anchor, page_end, page_link, page_link_text, Page, PageToken,
};

verus! {

/// The factions a user belongs to, at `/users/{user}/factions`.
#[derive(Debug, PartialEq, Eq, Structural, Clone, Copy, Hash)]
pub struct UserFactionMemberListSpecifier {
    pub user: i32,
}

impl UserFactionMemberListSpecifier {
    /// The user whose memberships these are.
    pub fn user(&self) -> (r: UserSpecifier)
        ensures
            r == UserSpecifier(self.user),
    {
        UserSpecifier(self.user)
    }

    /// The user's membership of a faction.
    pub fn member(&self, faction: i32) -> (r: FactionMemberSpecifier)
        ensures
            r == (FactionMemberSpecifier { faction, member: self.user }),
    {
        FactionMemberSpecifier { faction, member: self.user }
    }
}

impl Specifier for UserFactionMemberListSpecifier {
    open spec fn spec_parts() -> Seq<PathPart> {
        seq![PathPart::Path("users"), PathPart::Value, PathPart::Path("factions")]
    }

    open spec fn spec_ids(&self) -> Seq<Id> {
        seq![Id::I32(self.user)]
    }

    open spec fn spec_from_ids(ids: Seq<Seq<char>>) -> Result<Self, SpecfierParseError> {
        match id_i32_spec(ids[0]) {
            Ok(user) => Ok(UserFactionMemberListSpecifier { user: user }),
            Err(e) => Err(e),
        }
    }

    fn parts() -> (r: Vec<PathPart>) {
        vec![PathPart::Path("users"), PathPart::Value, PathPart::Path("factions")]
    }

    fn from_ids(ids: &[Vec<char>]) -> (r: Result<Self, SpecfierParseError>) {
        proof {
            reveal_with_fuel(value_count, 4);
        }
        let user = id_i32(ids[0].as_slice())?;
        Ok(Self { user })
    }

    fn to_ids(&self) -> (r: Vec<Id>) {
        proof {
            reveal_with_fuel(value_count, 4);
        }
        vec![Id::I32(self.user)]
    }

    proof fn lemma_parts_plain() {
        reveal_strlit("users");
        reveal_strlit("factions");
    }

    proof fn lemma_ids_round_trip(&self) {
        reveal_with_fuel(value_count, 4);
        let texts = self.spec_ids().map_values(|id: Id| id_text(id));
        lemma_id_i32_round_trip(self.user);
        assert(texts[0] == id_text(self.spec_ids()[0]));
    }
}

/// The members of a faction, at `/factions/{faction}/members`.
#[derive(Debug, PartialEq, Eq, Structural, Clone, Copy, Hash)]
pub struct FactionMemberListSpecifier {
    pub faction: i32,
}

impl FactionMemberListSpecifier {
    /// The faction whose members these are.
    pub fn faction(&self) -> (r: FactionSpecifier)
        ensures
            r == FactionSpecifier(self.faction),
    {
        FactionSpecifier(self.faction)
    }

    /// One member of the faction.
    pub fn member(&self, member: i32) -> (r: FactionMemberSpecifier)
        ensures
            r == (FactionMemberSpecifier { faction: self.faction, member }),
    {
        FactionMemberSpecifier { faction: self.faction, member }
    }
}

impl Specifier for FactionMemberListSpecifier {
    open spec fn spec_parts() -> Seq<PathPart> {
        seq![PathPart::Path("factions"), PathPart::Value, PathPart::Path("members")]
    }

    open spec fn spec_ids(&self) -> Seq<Id> {
        seq![Id::I32(self.faction)]
    }

    open spec fn spec_from_ids(ids: Seq<Seq<char>>) -> Result<Self, SpecfierParseError> {
        match id_i32_spec(ids[0]) {
            Ok(faction) => Ok(FactionMemberListSpecifier { faction: faction }),
            Err(e) => Err(e),
        }
    }

    fn parts() -> (r: Vec<PathPart>) {
        vec![PathPart::Path("factions"), PathPart::Value, PathPart::Path("members")]
    }

    fn from_ids(ids: &[Vec<char>]) -> (r: Result<Self, SpecfierParseError>) {
        proof {
            reveal_with_fuel(value_count, 4);
        }
        let faction = id_i32(ids[0].as_slice())?;
        Ok(Self { faction })
    }

    fn to_ids(&self) -> (r: Vec<Id>) {
        proof {
            reveal_with_fuel(value_count, 4);
        }
        vec![Id::I32(self.faction)]
    }

    proof fn lemma_parts_plain() {
        reveal_strlit("factions");
        reveal_strlit("members");
    }

    proof fn lemma_ids_round_trip(&self) {
        reveal_with_fuel(value_count, 4);
        let texts = self.spec_ids().map_values(|id: Id| id_text(id));
        lemma_id_i32_round_trip(self.faction);
        assert(texts[0] == id_text(self.spec_ids()[0]));
    }
}

/// The requesting user's membership of a faction, at `/factions/{faction}/members/current`.
#[derive(Debug, PartialEq, Eq, Structural, Clone, Copy, Hash)]
pub struct FactionMemberCurrentSpecifier {
    pub faction: i32,
}

impl FactionMemberCurrentSpecifier {
    /// The faction.
    pub fn faction(&self) -> (r: FactionSpecifier)
        ensures
            r == FactionSpecifier(self.faction),
    {
        FactionSpecifier(self.faction)
    }

    /// The membership of the given user.
    pub fn member(&self, user: &UserSpecifier) -> (r: FactionMemberSpecifier)
        ensures
            r == (FactionMemberSpecifier { faction: self.faction, member: user.0 }),
    {
        FactionMemberSpecifier { faction: self.faction, member: user.0 }
    }
}

impl Specifier for FactionMemberCurrentSpecifier {
    open spec fn spec_parts() -> Seq<PathPart> {
        seq![PathPart::Path("factions"), PathPart::Value, PathPart::Path("members"), PathPart::Path("current")]
    }

    open spec fn spec_ids(&self) -> Seq<Id> {
        seq![Id::I32(self.faction)]
    }

    open spec fn spec_from_ids(ids: Seq<Seq<char>>) -> Result<Self, SpecfierParseError> {
        match id_i32_spec(ids[0]) {
            Ok(faction) => Ok(FactionMemberCurrentSpecifier { faction: faction }),
            Err(e) => Err(e),
        }
    }

    fn parts() -> (r: Vec<PathPart>) {
        vec![PathPart::Path("factions"), PathPart::Value, PathPart::Path("members"), PathPart::Path("current")]
    }

    fn from_ids(ids: &[Vec<char>]) -> (r: Result<Self, SpecfierParseError>) {
        proof {
            reveal_with_fuel(value_count, 5);
        }
        let faction = id_i32(ids[0].as_slice())?;
        Ok(Self { faction })
    }

    fn to_ids(&self) -> (r: Vec<Id>) {
        proof {
            reveal_with_fuel(value_count, 5);
        }
        vec![Id::I32(self.faction)]
    }

    proof fn lemma_parts_plain() {
        reveal_strlit("factions");
        reveal_strlit("members");
        reveal_strlit("current");
    }

    proof fn lemma_ids_round_trip(&self) {
        reveal_with_fuel(value_count, 5);
        let texts = self.spec_ids().map_values(|id: Id| id_text(id));
        lemma_id_i32_round_trip(self.faction);
        assert(texts[0] == id_text(self.spec_ids()[0]));
    }
}

/// One member of a faction, at `/factions/{faction}/members/{member}`.
#[derive(Debug, PartialEq, Eq, Structural, Clone, Copy, Hash)]
pub struct FactionMemberSpecifier {
    pub faction: i32,
    pub member: i32,
}

impl FactionMemberSpecifier {
    /// The faction.
    pub fn faction(&self) -> (r: FactionSpecifier)
        ensures
            r == FactionSpecifier(self.faction),
    {
        FactionSpecifier(self.faction)
    }

    /// The member.
    pub fn user(&self) -> (r: UserSpecifier)
        ensures
            r == UserSpecifier(self.member),
    {
        UserSpecifier(self.member)
    }

    /// The members list that holds the membership.
    pub fn list(&self) -> (r: FactionMemberListSpecifier)
        ensures
            r == (FactionMemberListSpecifier { faction: self.faction }),
    {
        FactionMemberListSpecifier { faction: self.faction }
    }
}

impl Specifier for FactionMemberSpecifier {
    open spec fn spec_parts() -> Seq<PathPart> {
        seq![PathPart::Path("factions"), PathPart::Value, PathPart::Path("members"), PathPart::Value]
    }

    open spec fn spec_ids(&self) -> Seq<Id> {
        seq![Id::I32(self.faction), Id::I32(self.member)]
    }

    open spec fn spec_from_ids(ids: Seq<Seq<char>>) -> Result<Self, SpecfierParseError> {
        match id_i32_spec(ids[0]) {
            Ok(faction) => match id_i32_spec(ids[1]) {
            Ok(member) => Ok(FactionMemberSpecifier { faction: faction, member: member }),
            Err(e) => Err(e),
        },
            Err(e) => Err(e),
        }
    }

    fn parts() -> (r: Vec<PathPart>) {
        vec![PathPart::Path("factions"), PathPart::Value, PathPart::Path("members"), PathPart::Value]
    }

    fn from_ids(ids: &[Vec<char>]) -> (r: Result<Self, SpecfierParseError>) {
        proof {
            reveal_with_fuel(value_count, 5);
        }
        let faction = id_i32(ids[0].as_slice())?;
        let member = id_i32(ids[1].as_slice())?;
        Ok(Self { faction, member })
    }

    fn to_ids(&self) -> (r: Vec<Id>) {
        proof {
            reveal_with_fuel(value_count, 5);
        }
        vec![Id::I32(self.faction), Id::I32(self.member)]
    }

    proof fn lemma_parts_plain() {
        reveal_strlit("factions");
        reveal_strlit("members");
    }

    proof fn lemma_ids_round_trip(&self) {
        reveal_with_fuel(value_count, 5);
        let texts = self.spec_ids().map_values(|id: Id| id_text(id));
        lemma_id_i32_round_trip(self.faction);
        assert(texts[0] == id_text(self.spec_ids()[0]));
        lemma_id_i32_round_trip(self.member);
        assert(texts[1] == id_text(self.spec_ids()[1]));
    }
}

/// Who wants a membership: the member itself, the faction, or both.
#[derive(Debug, Clone, Copy)]
pub struct JoinIntent {
    pub member: bool,
    pub faction: bool,
}

impl Default for JoinIntent {
    /// A membership that both sides want.
    fn default() -> (r: Self)
        ensures
            r.member && r.faction,
    {
        JoinIntent { member: true, faction: true }
    }
}

/// A membership row joined with its faction (and the faction's member count)
/// and its member, as the listings read it.
#[derive(Debug, Clone)]
pub struct FactionMemberFull {
    pub invited: bool,
    pub imposed: bool,
    pub owner: bool,
    pub faction_id: i32,
    pub faction_name: String,
    pub faction_icon: Option<String>,
    pub faction_created_at: i64,
    pub faction_size: i64,
    pub member_id: i32,
    pub member_subject: String,
    pub member_name: String,
    pub member_created_at: i64,
}

impl FactionMemberFull {
    /// Who wants the membership: the member wants it where it was imposed, the
    /// faction where it invited.
    pub fn join_intent(&self) -> (r: JoinIntent)
        ensures
            r.member == self.imposed,
            r.faction == self.invited,
    {
        JoinIntent { faction: self.invited, member: self.imposed }
    }

    /// The membership's address.
    pub fn specifier(&self) -> (r: FactionMemberSpecifier)
        ensures
            r.faction == self.faction_id,
            r.member == self.member_id,
    {
        FactionMemberSpecifier { faction: self.faction_id, member: self.member_id }
    }

    /// The faction of the row.
    pub fn faction(&self) -> (r: FactionFull)
        ensures
            r.id == self.faction_id,
            r.name@ == self.faction_name@,
            r.icon == self.faction_icon,
            r.created_at == self.faction_created_at,
            r.size == self.faction_size,
    {
        FactionFull {
            id: self.faction_id,
            name: self.faction_name.clone(),
            icon: self.faction_icon.clone(),
            created_at: self.faction_created_at,
            size: self.faction_size,
        }
    }
}

/// Where a page of a faction's members starts: after the member with this id.
#[derive(Debug)]
pub struct FactionMembersPageToken(pub u32);

impl PageToken for FactionMembersPageToken {
    open spec fn is_start(&self) -> bool {
        self.0 == 0
    }

    fn start() -> (r: Self) {
        FactionMembersPageToken(0)
    }
}

impl Default for FactionMembersPageToken {
    fn default() -> (r: Self)
        ensures
            r.is_start(),
    {
        FactionMembersPageToken(0)
    }
}

impl FactionMembersPageToken {
    /// The token of the page that follows a membership row; the id is
    /// reinterpreted as unsigned, as `as _` does.
    pub fn from_member(value: &FactionMemberFull) -> (r: Self)
        ensures
            r.0 == value.member_id as u32,
    {
        FactionMembersPageToken(value.member_id as u32)
    }

    /// The token as it stands in a page link.
    pub fn to_string(&self) -> (r: String)
        ensures
            r@ == int_to_dec(self.0 as int),
    {
        crate::text::string_of(format_u64(self.0 as u64).as_slice())
    }
}

/// Where a page of a user's factions starts: after the faction with this id.
#[derive(Debug)]
pub struct UserFactionsPageToken(pub u32);

impl PageToken for UserFactionsPageToken {
    open spec fn is_start(&self) -> bool {
        self.0 == 0
    }

    fn start() -> (r: Self) {
        UserFactionsPageToken(0)
    }
}

impl Default for UserFactionsPageToken {
    fn default() -> (r: Self)
        ensures
            r.is_start(),
    {
        UserFactionsPageToken(0)
    }
}

impl UserFactionsPageToken {
    /// The token of the page that follows a membership row; the id is
    /// reinterpreted as unsigned, as `as _` does.
    pub fn from_member(value: &FactionMemberFull) -> (r: Self)
        ensures
            r.0 == value.faction_id as u32,
    {
        UserFactionsPageToken(value.faction_id as u32)
    }

    /// The token as it stands in a page link.
    pub fn to_string(&self) -> (r: String)
        ensures
            r@ == int_to_dec(self.0 as int),
    {
        crate::text::string_of(format_u64(self.0 as u64).as_slice())
    }
}

/// A membership as it is shown: its address, its faction, its member, who
/// wants it and whether the member owns the faction.
pub struct FactionMember {
    pub id: FactionMemberSpecifier,
    pub faction: Faction,
    pub user: User,
    pub join_intent: JoinIntent,
    pub owner: bool,
}

/// A membership as a listing of a user's factions shows it: the faction, and
/// the membership in it.
pub struct UserFactionMember {
    pub faction: Faction,
    pub member: FactionMember,
}

/// The faction row of a membership row.
pub open spec fn faction_of_row(row: FactionMemberFull) -> FactionFull {
    FactionFull {
        id: row.faction_id,
        name: row.faction_name,
        icon: row.faction_icon,
        created_at: row.faction_created_at,
        size: row.faction_size,
    }
}

/// Whether a membership shows a membership row: the row's address, faction,
/// member, intent and owner mark.
pub open spec fn shows_member(m: FactionMember, row: FactionMemberFull) -> bool {
    &&& m.id == FactionMemberSpecifier { faction: row.faction_id, member: row.member_id }
    &&& shows_faction(m.faction, faction_of_row(row))
    &&& m.user.id == UserSpecifier(row.member_id)
    &&& m.user.subject@ == row.member_subject@
    &&& m.user.name@ == row.member_name@
    &&& m.user.created_at == row.member_created_at
    &&& m.join_intent.member == row.imposed
    &&& m.join_intent.faction == row.invited
    &&& m.owner == row.owner
}

impl FactionMember {
    /// The membership a row shows.
    pub fn from_full(row: &FactionMemberFull) -> (r: Self)
        ensures
            shows_member(r, *row),
    {
        let faction = row.faction().to_faction();
        let user = User {
            id: UserSpecifier(row.member_id),
            subject: row.member_subject.clone(),
            name: row.member_name.clone(),
            created_at: row.member_created_at,
        };
        FactionMember {
            id: row.specifier(),
            faction,
            user,
            join_intent: row.join_intent(),
            owner: row.owner,
        }
    }
}

impl UserFactionMember {
    /// The faction and membership a row shows.
    pub fn from_full(row: &FactionMemberFull) -> (r: Self)
        ensures
            shows_faction(r.faction, faction_of_row(*row)),
            shows_member(r.member, *row),
    {
        let faction = row.faction().to_faction();
        UserFactionMember { faction, member: FactionMember::from_full(row) }
    }
}

/// A page of the listing of a user's factions, from the rows fetched for it:
/// every row as a faction and membership, and the link
/// `{path}?page={faction}&limit={limit}` to the next page when rows follow the
/// first `limit`, after the faction of the last of those.
pub fn user_factions_page(
    rows: &[FactionMemberFull],
    list: &UserFactionMemberListSpecifier,
    limit: usize,
) -> (r: Page<UserFactionMember>)
    ensures
        r.items@.len() == rows@.len(),
        forall|i: int|
            0 <= i < r.items@.len() ==> shows_faction(
                #[trigger] r.items@[i].faction,
                faction_of_row(rows@[i]),
            ) && shows_member(r.items@[i].member, rows@[i]),
        r.next is Some <==> has_next(rows@.len() as int, limit),
        (r.next matches Some(link) ==> link@ == page_link_text(
            build_path(UserFactionMemberListSpecifier::spec_parts(), list.spec_ids()),
            int_to_dec(rows@[page_end(limit)].faction_id as u32 as int),
            limit,
        )),
        r.previous is None,
{
    let next = match next_anchor(rows.len(), limit) {
        Some(i) => {
            let token = UserFactionsPageToken::from_member(&rows[i]);
            let t = token.to_string();
            let path = list.to_uri();
            Some(page_link(path.as_str(), t.as_str(), limit))
        },
        None => None,
    };
    let mut items: Vec<UserFactionMember> = Vec::new();
    let mut i: usize = 0;
    while i < rows.len()
        invariant
            i <= rows@.len(),
            items@.len() == i,
            forall|j: int|
                0 <= j < i ==> shows_faction(
                    #[trigger] items@[j].faction,
                    faction_of_row(rows@[j]),
                ) && shows_member(items@[j].member, rows@[j]),
        decreases rows.len() - i,
    {
        items.push(UserFactionMember::from_full(&rows[i]));
        i = i + 1;
    }
    Page { items, next, previous: None }
}

/// A page of the listing of a faction's members, from the rows fetched for
/// it: every row as a membership, and the link
/// `{path}?page={member}&limit={limit}` to the next page when rows follow the
/// first `limit`, after the member of the last of those.
pub fn faction_members_page(
    rows: &[FactionMemberFull],
    list: &FactionMemberListSpecifier,
    limit: usize,
) -> (r: Page<FactionMember>)
    ensures
        r.items@.len() == rows@.len(),
        forall|i: int| 0 <= i < r.items@.len() ==> shows_member(#[trigger] r.items@[i], rows@[i]),
        r.next is Some <==> has_next(rows@.len() as int, limit),
        (r.next matches Some(link) ==> link@ == page_link_text(
            build_path(FactionMemberListSpecifier::spec_parts(), list.spec_ids()),
            int_to_dec(rows@[page_end(limit)].member_id as u32 as int),
            limit,
        )),
        r.previous is None,
{
    let next = match next_anchor(rows.len(), limit) {
        Some(i) => {
            let token = FactionMembersPageToken::from_member(&rows[i]);
            let t = token.to_string();
            let path = list.to_uri();
            Some(page_link(path.as_str(), t.as_str(), limit))
        },
        None => None,
    };
    let mut items: Vec<FactionMember> = Vec::new();
    let mut i: usize = 0;
    while i < rows.len()
        invariant
            i <= rows@.len(),
            items@.len() == i,
            forall|j: int| 0 <= j < i ==> shows_member(#[trigger] items@[j], rows@[j]),
        decreases rows.len() - i,
    {
        items.push(FactionMember::from_full(&rows[i]));
        i = i + 1;
    }
    Page { items, next, previous: None }
}

} // verus!
