//! Roles and the specifiers that address them.
use vstd::prelude::*;

use super::specifier::{
    id_i32, id_i32_spec, id_text, lemma_id_i32_round_trip, value_count, Id, PathPart,
    SpecfierParseError, Specifier,
};
use super::user::UserSpecifier;

use crate::decimal::{format_u64, int_to_dec};
use crate::filter::response::paginated_list::PageToken;

verus! {

/// The roles of a user, at `/users/{user}/roles`.
#[derive(Debug, PartialEq, Eq, Structural, Clone, Copy, Hash)]
pub struct UserRolesListSpecifier {
    pub user: i32,
}

impl UserRolesListSpecifier {
    /// The user whose roles these are.
    pub fn user(&self) -> (r: UserSpecifier)
        ensures
            r == UserSpecifier(self.user),
    {
        UserSpecifier(self.user)
    }
}

impl Specifier for UserRolesListSpecifier {
    open spec fn spec_parts() -> Seq<PathPart> {
        seq![PathPart::Path("users"), PathPart::Value, PathPart::Path("roles")]
    }

    open spec fn spec_ids(&self) -> Seq<Id> {
        seq![Id::I32(self.user)]
    }

    open spec fn spec_from_ids(ids: Seq<Seq<char>>) -> Result<Self, SpecfierParseError> {
        match id_i32_spec(ids[0]) {
            Ok(user) => Ok(UserRolesListSpecifier { user: user }),
            Err(e) => Err(e),
        }
    }

    fn parts() -> (r: Vec<PathPart>) {
        vec![PathPart::Path("users"), PathPart::Value, PathPart::Path("roles")]
    }

    fn from_ids(ids: &[Vec<char>]) -> (r: Result<Self, SpecfierParseError>) {
        proof {
            reveal_with_fuel(value_count, 4);
        }
        let user = id_i32(ids[0].as_slice())?;
        Ok(Self { user })
    }

    fn to_ids(&self) -> (r: Vec<Id>) {
        proof {
            reveal_with_fuel(value_count, 4);
        }
        vec![Id::I32(self.user)]
    }

    proof fn lemma_parts_plain() {
        reveal_strlit("users");
        reveal_strlit("roles");
    }

    proof fn lemma_ids_round_trip(&self) {
        reveal_with_fuel(value_count, 4);
        let texts = self.spec_ids().map_values(|id: Id| id_text(id));
        lemma_id_i32_round_trip(self.user);
        assert(texts[0] == id_text(self.spec_ids()[0]));
    }
}

/// A role, at `/roles/{role}`.
#[derive(Debug, PartialEq, Eq, Structural, Clone, Copy, Hash)]
pub struct RoleSpecifier(pub i32);

impl Specifier for RoleSpecifier {
    open spec fn spec_parts() -> Seq<PathPart> {
        seq![PathPart::Path("roles"), PathPart::Value]
    }

    open spec fn spec_ids(&self) -> Seq<Id> {
        seq![Id::I32(self.0)]
    }

    open spec fn spec_from_ids(ids: Seq<Seq<char>>) -> Result<Self, SpecfierParseError> {
        match id_i32_spec(ids[0]) {
            Ok(role) => Ok(RoleSpecifier(role)),
            Err(e) => Err(e),
        }
    }

    fn parts() -> (r: Vec<PathPart>) {
        vec![PathPart::Path("roles"), PathPart::Value]
    }

    fn from_ids(ids: &[Vec<char>]) -> (r: Result<Self, SpecfierParseError>) {
        proof {
            reveal_with_fuel(value_count, 3);
        }
        let role = id_i32(ids[0].as_slice())?;
        Ok(Self(role))
    }

    fn to_ids(&self) -> (r: Vec<Id>) {
        proof {
            reveal_with_fuel(value_count, 3);
        }
        vec![Id::I32(self.0)]
    }

    proof fn lemma_parts_plain() {
        reveal_strlit("roles");
    }

    proof fn lemma_ids_round_trip(&self) {
        reveal_with_fuel(value_count, 3);
        let texts = self.spec_ids().map_values(|id: Id| id_text(id));
        lemma_id_i32_round_trip(self.0);
        assert(texts[0] == id_text(self.spec_ids()[0]));
    }
}

/// Where a page of a user's roles starts: after the role with this id.
#[derive(Debug)]
pub struct UserRolesPageToken(pub u32);

impl PageToken for UserRolesPageToken {
    open spec fn is_start(&self) -> bool {
        self.0 == 0
    }

    fn start() -> (r: Self) {
        UserRolesPageToken(0)
    }
}

impl Default for UserRolesPageToken {
    fn default() -> (r: Self)
        ensures
            r.is_start(),
    {
        UserRolesPageToken(0)
    }
}

impl UserRolesPageToken {
    /// The token of the page that follows the role with id `id`; the id is
    /// reinterpreted as unsigned, as `as _` does.
    pub fn after(id: i32) -> (r: Self)
        ensures
            r.0 == id as u32,
    {
        UserRolesPageToken(id as u32)
    }

    /// The token as it stands in a page link.
    pub fn to_string(&self) -> (r: String)
        ensures
            r@ == int_to_dec(self.0 as int),
    {
        crate::text::string_of(format_u64(self.0 as u64).as_slice())
    }
}

/// Where a page of roles starts: after the role with this id.
#[derive(Debug)]
pub struct RolesPageToken(pub u32);

impl PageToken for RolesPageToken {
    open spec fn is_start(&self) -> bool {
        self.0 == 0
    }

    fn start() -> (r: Self) {
        RolesPageToken(0)
    }
}

impl Default for RolesPageToken {
    fn default() -> (r: Self)
        ensures
            r.is_start(),
    {
        RolesPageToken(0)
    }
}

impl RolesPageToken {
    /// The token of the page that follows the role with id `id`; the id is
    /// reinterpreted as unsigned, as `as _` does.
    pub fn after(id: i32) -> (r: Self)
        ensures
            r.0 == id as u32,
    {
        RolesPageToken(id as u32)
    }

    /// The token as it stands in a page link.
    pub fn to_string(&self) -> (r: String)
        ensures
            r@ == int_to_dec(self.0 as int),
    {
        crate::text::string_of(format_u64(self.0 as u64).as_slice())
    }
}

} // verus!
