//! Users and the specifiers that address them.
use vstd::prelude::*;

use super::specifier::{
    id_i32, id_i32_spec, id_text, lemma_id_i32_round_trip, value_count, Id, PathPart,
    SpecfierParseError, Specifier,
};

use crate::filter::response::paginated_list::PageToken;

verus! {

/// The user at `/users/{user}`.
#[derive(Debug, PartialEq, Eq, Structural, Clone, Copy, Hash)]
pub struct UserSpecifier(pub i32);

impl UserSpecifier {
    /// The specifier that stands for no user.
    pub fn null() -> (r: Self)
        ensures
            r == UserSpecifier(0),
    {
        Self(0)
    }
}

impl Specifier for UserSpecifier {
    open spec fn spec_parts() -> Seq<PathPart> {
        seq![PathPart::Path("users"), PathPart::Value]
    }

    open spec fn spec_ids(&self) -> Seq<Id> {
        seq![Id::I32(self.0)]
    }

    open spec fn spec_from_ids(ids: Seq<Seq<char>>) -> Result<Self, SpecfierParseError> {
        match id_i32_spec(ids[0]) {
            Ok(user) => Ok(UserSpecifier(user)),
            Err(e) => Err(e),
        }
    }

    fn parts() -> (r: Vec<PathPart>) {
        vec![PathPart::Path("users"), PathPart::Value]
    }

    fn from_ids(ids: &[Vec<char>]) -> (r: Result<Self, SpecfierParseError>) {
        proof {
            reveal_with_fuel(value_count, 3);
        }
        let user = id_i32(ids[0].as_slice())?;
        Ok(Self(user))
    }

    fn to_ids(&self) -> (r: Vec<Id>) {
        proof {
            reveal_with_fuel(value_count, 3);
        }
        vec![Id::I32(self.0)]
    }

    proof fn lemma_parts_plain() {
        reveal_strlit("users");
    }

    proof fn lemma_ids_round_trip(&self) {
        reveal_with_fuel(value_count, 3);
        let texts = self.spec_ids().map_values(|id: Id| id_text(id));
        lemma_id_i32_round_trip(self.0);
        assert(texts[0] == id_text(self.spec_ids()[0]));
    }
}

/// The placement statistics of a user, at `/users/{user}/stats`.
#[derive(Debug, PartialEq, Eq, Structural, Clone, Copy, Hash)]
pub struct UserStatsSpecifier(pub i32);

impl UserStatsSpecifier {
    /// The user whose statistics these are.
    pub fn user(&self) -> (r: UserSpecifier)
        ensures
            r == UserSpecifier(self.0),
    {
        UserSpecifier(self.0)
    }
}

impl Specifier for UserStatsSpecifier {
    open spec fn spec_parts() -> Seq<PathPart> {
        seq![PathPart::Path("users"), PathPart::Value, PathPart::Path("stats")]
    }

    open spec fn spec_ids(&self) -> Seq<Id> {
        seq![Id::I32(self.0)]
    }

    open spec fn spec_from_ids(ids: Seq<Seq<char>>) -> Result<Self, SpecfierParseError> {
        match id_i32_spec(ids[0]) {
            Ok(user) => Ok(UserStatsSpecifier(user)),
            Err(e) => Err(e),
        }
    }

    fn parts() -> (r: Vec<PathPart>) {
        vec![PathPart::Path("users"), PathPart::Value, PathPart::Path("stats")]
    }

    fn from_ids(ids: &[Vec<char>]) -> (r: Result<Self, SpecfierParseError>) {
        proof {
            reveal_with_fuel(value_count, 4);
        }
        let user = id_i32(ids[0].as_slice())?;
        Ok(Self(user))
    }

    fn to_ids(&self) -> (r: Vec<Id>) {
        proof {
            reveal_with_fuel(value_count, 4);
        }
        vec![Id::I32(self.0)]
    }

    proof fn lemma_parts_plain() {
        reveal_strlit("users");
        reveal_strlit("stats");
    }

    proof fn lemma_ids_round_trip(&self) {
        reveal_with_fuel(value_count, 4);
        let texts = self.spec_ids().map_values(|id: Id| id_text(id));
        lemma_id_i32_round_trip(self.0);
        assert(texts[0] == id_text(self.spec_ids()[0]));
    }
}

/// A stored user row: id, subject of the identity provider, name and creation time.
pub struct UserModel {
    pub id: i32,
    pub subject: String,
    pub name: String,
    pub created_at: i64,
}

/// A user of the canvas.
#[derive(Debug, Clone)]
pub struct User {
    pub id: UserSpecifier,
    pub subject: String,
    pub name: String,
    pub created_at: i64,
}

impl User {
    /// The specifier of the user.
    pub fn specifier(&self) -> (r: &UserSpecifier)
        ensures
            *r == self.id,
    {
        &self.id
    }

    /// The path that addresses the user.
    pub fn uri(&self) -> (r: String)
        ensures
            r@ == super::specifier::build_path(
                UserSpecifier::spec_parts(),
                self.id.spec_ids(),
            ),
    {
        self.id.to_uri()
    }
}

impl From<UserModel> for User {
    fn from(user: UserModel) -> (r: Self) {
        let UserModel { id, subject, name, created_at } = user;
        let id = UserSpecifier(id);
        User { id, subject, name, created_at }
    }
}

impl vstd::std_specs::convert::FromSpecImpl<UserModel> for User {
    open spec fn obeys_from_spec() -> bool {
        true
    }

    open spec fn from_spec(user: UserModel) -> Self {
        User {
            id: UserSpecifier(user.id),
            subject: user.subject,
            name: user.name,
            created_at: user.created_at,
        }
    }
}

/// The page of a user listing: users after this id.
#[derive(Debug)]
pub struct UsersPageToken(pub u32);

impl PageToken for UsersPageToken {
    open spec fn is_start(&self) -> bool {
        self.0 == 0
    }

    fn start() -> (r: Self) {
        UsersPageToken(0)
    }
}

impl Default for UsersPageToken {
    fn default() -> (r: Self)
        ensures
            r.is_start(),
    {
        UsersPageToken(0)
    }
}

impl UsersPageToken {
    /// The token that continues after a user row; the id
    /// is reinterpreted as unsigned, as `as _` does.
    pub fn from_model(value: &UserModel) -> (r: Self)
        ensures
            r.0 == value.id as u32,
    {
        Self(value.id as u32)
    }

    /// The token as it stands in a page URI.
    pub fn to_string(&self) -> (r: String)
        ensures
            r@ == crate::decimal::int_to_dec(self.0 as int),
    {
        crate::text::string_of(crate::decimal::format_u64(self.0 as u64).as_slice())
    }
}

} // verus!
