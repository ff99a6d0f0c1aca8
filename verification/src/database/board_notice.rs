//! Notices of a board and the specifiers that address them.
use vstd::prelude::*;

use super::specifier::{
    id_i32, id_i32_spec, id_text, lemma_id_i32_round_trip, value_count, Id, PathPart,
    SpecfierParseError, Specifier,
};
use super::board::BoardSpecifier;

use super::filter::FilterRange;
use super::user::UserSpecifier;

verus! {

/// The notices of a board, at `/boards/{board}/notices`.
#[derive(Debug, PartialEq, Eq, Structural, Clone, Copy, Hash)]
pub struct BoardNoticeListSpecifier {
    pub board: i32,
}

impl BoardNoticeListSpecifier {
    /// The board the notices belong to.
    pub fn board(&self) -> (r: BoardSpecifier)
        ensures
            r == BoardSpecifier(self.board),
    {
        BoardSpecifier(self.board)
    }

    /// One notice of the list.
    pub fn notice(&self, notice: i32) -> (r: BoardNoticeSpecifier)
        ensures
            r == (BoardNoticeSpecifier { board: self.board, notice }),
    {
        BoardNoticeSpecifier { board: self.board, notice }
    }
}

impl Specifier for BoardNoticeListSpecifier {
    open spec fn spec_parts() -> Seq<PathPart> {
        seq![PathPart::Path("boards"), PathPart::Value, PathPart::Path("notices")]
    }

    open spec fn spec_ids(&self) -> Seq<Id> {
        seq![Id::I32(self.board)]
    }

    open spec fn spec_from_ids(ids: Seq<Seq<char>>) -> Result<Self, SpecfierParseError> {
        match id_i32_spec(ids[0]) {
            Ok(board) => Ok(BoardNoticeListSpecifier { board: board }),
            Err(e) => Err(e),
        }
    }

    fn parts() -> (r: Vec<PathPart>) {
        vec![PathPart::Path("boards"), PathPart::Value, PathPart::Path("notices")]
    }

    fn from_ids(ids: &[Vec<char>]) -> (r: Result<Self, SpecfierParseError>) {
        proof {
            reveal_with_fuel(value_count, 4);
        }
        let board = id_i32(ids[0].as_slice())?;
        Ok(Self { board })
    }

    fn to_ids(&self) -> (r: Vec<Id>) {
        proof {
            reveal_with_fuel(value_count, 4);
        }
        vec![Id::I32(self.board)]
    }

    proof fn lemma_parts_plain() {
        reveal_strlit("boards");
        reveal_strlit("notices");
    }

    proof fn lemma_ids_round_trip(&self) {
        reveal_with_fuel(value_count, 4);
        let texts = self.spec_ids().map_values(|id: Id| id_text(id));
        lemma_id_i32_round_trip(self.board);
        assert(texts[0] == id_text(self.spec_ids()[0]));
    }
}

impl From<BoardSpecifier> for BoardNoticeListSpecifier {
    fn from(value: BoardSpecifier) -> (r: Self) {
        BoardNoticeListSpecifier { board: value.0 }
    }
}

impl vstd::std_specs::convert::FromSpecImpl<BoardSpecifier> for BoardNoticeListSpecifier {
    open spec fn obeys_from_spec() -> bool {
        true
    }

    open spec fn from_spec(value: BoardSpecifier) -> Self {
        BoardNoticeListSpecifier { board: value.0 }
    }
}

/// One notice of a board, at `/boards/{board}/notices/{notice}`.
#[derive(Debug, PartialEq, Eq, Structural, Clone, Copy, Hash)]
pub struct BoardNoticeSpecifier {
    pub board: i32,
    pub notice: i32,
}

impl BoardNoticeSpecifier {
    /// The board the notice belongs to.
    pub fn board(&self) -> (r: BoardSpecifier)
        ensures
            r == BoardSpecifier(self.board),
    {
        BoardSpecifier(self.board)
    }

    /// The list that holds the notice.
    pub fn list(&self) -> (r: BoardNoticeListSpecifier)
        ensures
            r == (BoardNoticeListSpecifier { board: self.board }),
    {
        BoardNoticeListSpecifier { board: self.board }
    }
}

impl Specifier for BoardNoticeSpecifier {
    open spec fn spec_parts() -> Seq<PathPart> {
        seq![PathPart::Path("boards"), PathPart::Value, PathPart::Path("notices"), PathPart::Value]
    }

    open spec fn spec_ids(&self) -> Seq<Id> {
        seq![Id::I32(self.board), Id::I32(self.notice)]
    }

    open spec fn spec_from_ids(ids: Seq<Seq<char>>) -> Result<Self, SpecfierParseError> {
        match id_i32_spec(ids[0]) {
            Ok(board) => match id_i32_spec(ids[1]) {
            Ok(notice) => Ok(BoardNoticeSpecifier { board: board, notice: notice }),
            Err(e) => Err(e),
        },
            Err(e) => Err(e),
        }
    }

    fn parts() -> (r: Vec<PathPart>) {
        vec![PathPart::Path("boards"), PathPart::Value, PathPart::Path("notices"), PathPart::Value]
    }

    fn from_ids(ids: &[Vec<char>]) -> (r: Result<Self, SpecfierParseError>) {
        proof {
            reveal_with_fuel(value_count, 5);
        }
        let board = id_i32(ids[0].as_slice())?;
        let notice = id_i32(ids[1].as_slice())?;
        Ok(Self { board, notice })
    }

    fn to_ids(&self) -> (r: Vec<Id>) {
        proof {
            reveal_with_fuel(value_count, 5);
        }
        vec![Id::I32(self.board), Id::I32(self.notice)]
    }

    proof fn lemma_parts_plain() {
        reveal_strlit("boards");
        reveal_strlit("notices");
    }

    proof fn lemma_ids_round_trip(&self) {
        reveal_with_fuel(value_count, 5);
        let texts = self.spec_ids().map_values(|id: Id| id_text(id));
        lemma_id_i32_round_trip(self.board);
        assert(texts[0] == id_text(self.spec_ids()[0]));
        lemma_id_i32_round_trip(self.notice);
        assert(texts[1] == id_text(self.spec_ids()[1]));
    }
}

/// What a listing of a board's notices is narrowed to.
#[derive(Debug)]
pub struct BoardsNoticeFilter {
    pub title: Option<String>,
    pub content: Option<String>,
    pub created_at: FilterRange<u64>,
    pub expires_at: FilterRange<u64>,
    pub author: Option<UserSpecifier>,
}

} // verus!
