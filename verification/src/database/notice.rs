//! Site notices and the specifiers that address them.
use vstd::prelude::*;

use super::specifier::{
    id_i32, id_i32_spec, id_text, lemma_id_i32_round_trip, value_count, Id, PathPart,
    SpecfierParseError, Specifier,
};

use super::filter::FilterRange;
use super::user::UserSpecifier;

verus! {

/// A site notice, at `/notices/{notice}`.
#[derive(Debug, Clone, Copy)]
pub struct NoticeSpecifier(pub i32);

impl Specifier for NoticeSpecifier {
    open spec fn spec_parts() -> Seq<PathPart> {
        seq![PathPart::Path("notices"), PathPart::Value]
    }

    open spec fn spec_ids(&self) -> Seq<Id> {
        seq![Id::I32(self.0)]
    }

    open spec fn spec_from_ids(ids: Seq<Seq<char>>) -> Result<Self, SpecfierParseError> {
        match id_i32_spec(ids[0]) {
            Ok(notice) => Ok(NoticeSpecifier(notice)),
            Err(e) => Err(e),
        }
    }

    fn parts() -> (r: Vec<PathPart>) {
        vec![PathPart::Path("notices"), PathPart::Value]
    }

    fn from_ids(ids: &[Vec<char>]) -> (r: Result<Self, SpecfierParseError>) {
        proof {
            reveal_with_fuel(value_count, 3);
        }
        let notice = id_i32(ids[0].as_slice())?;
        Ok(Self(notice))
    }

    fn to_ids(&self) -> (r: Vec<Id>) {
        proof {
            reveal_with_fuel(value_count, 3);
        }
        vec![Id::I32(self.0)]
    }

    proof fn lemma_parts_plain() {
        reveal_strlit("notices");
    }

    proof fn lemma_ids_round_trip(&self) {
        reveal_with_fuel(value_count, 3);
        let texts = self.spec_ids().map_values(|id: Id| id_text(id));
        lemma_id_i32_round_trip(self.0);
        assert(texts[0] == id_text(self.spec_ids()[0]));
    }
}

/// What a listing of site notices is narrowed to.
#[derive(Debug)]
pub struct NoticeFilter {
    pub title: Option<String>,
    pub content: Option<String>,
    pub created_at: FilterRange<u64>,
    pub expires_at: FilterRange<u64>,
    pub author: Option<UserSpecifier>,
}

} // verus!
