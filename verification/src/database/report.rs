//! Reports and the specifiers that address them.
use vstd::prelude::*;

use super::specifier::{
    id_i32, id_i32_spec, id_text, lemma_id_i32_round_trip, value_count, Id, PathPart,
    SpecfierParseError, Specifier,
};

use crate::decimal::{format_u64, int_to_dec};
use crate::filter::response::paginated_list::{
    has_next, next_anchor, page_end, page_len, page_link, page_link_text, Page, PageToken,
};
use super::specifier::build_path;

use super::specifier::{http_uri_parsed, http_uri_path, parse_uri};
use super::user::{User, UserModel, UserSpecifier};
use crate::decimal::{parse_u32, parse_u32_spec, parse_u64, parse_u64_spec};
use crate::text::{chars_eq_str, chars_of, pieces_view, split_chars, split_spec};

verus! {

/// A report, at `/reports/{report}`.
#[derive(Debug, Clone, Copy)]
pub struct ReportSpecifier(pub i32);

impl Specifier for ReportSpecifier {
    open spec fn spec_parts() -> Seq<PathPart> {
        seq![PathPart::Path("reports"), PathPart::Value]
    }

    open spec fn spec_ids(&self) -> Seq<Id> {
        seq![Id::I32(self.0)]
    }

    open spec fn spec_from_ids(ids: Seq<Seq<char>>) -> Result<Self, SpecfierParseError> {
        match id_i32_spec(ids[0]) {
            Ok(report) => Ok(ReportSpecifier(report)),
            Err(e) => Err(e),
        }
    }

    fn parts() -> (r: Vec<PathPart>) {
        vec![PathPart::Path("reports"), PathPart::Value]
    }

    fn from_ids(ids: &[Vec<char>]) -> (r: Result<Self, SpecfierParseError>) {
        proof {
            reveal_with_fuel(value_count, 3);
        }
        let report = id_i32(ids[0].as_slice())?;
        Ok(Self(report))
    }

    fn to_ids(&self) -> (r: Vec<Id>) {
        proof {
            reveal_with_fuel(value_count, 3);
        }
        vec![Id::I32(self.0)]
    }

    proof fn lemma_parts_plain() {
        reveal_strlit("reports");
    }

    proof fn lemma_ids_round_trip(&self) {
        reveal_with_fuel(value_count, 3);
        let texts = self.spec_ids().map_values(|id: Id| id_text(id));
        lemma_id_i32_round_trip(self.0);
        assert(texts[0] == id_text(self.spec_ids()[0]));
    }
}

/// The revisions of a report, at `/reports/{report}/history`.
#[derive(Debug, Clone, Copy)]
pub struct ReportHistorySpecifier(pub i32);

impl Specifier for ReportHistorySpecifier {
    open spec fn spec_parts() -> Seq<PathPart> {
        seq![PathPart::Path("reports"), PathPart::Value, PathPart::Path("history")]
    }

    open spec fn spec_ids(&self) -> Seq<Id> {
        seq![Id::I32(self.0)]
    }

    open spec fn spec_from_ids(ids: Seq<Seq<char>>) -> Result<Self, SpecfierParseError> {
        match id_i32_spec(ids[0]) {
            Ok(report) => Ok(ReportHistorySpecifier(report)),
            Err(e) => Err(e),
        }
    }

    fn parts() -> (r: Vec<PathPart>) {
        vec![PathPart::Path("reports"), PathPart::Value, PathPart::Path("history")]
    }

    fn from_ids(ids: &[Vec<char>]) -> (r: Result<Self, SpecfierParseError>) {
        proof {
            reveal_with_fuel(value_count, 4);
        }
        let report = id_i32(ids[0].as_slice())?;
        Ok(Self(report))
    }

    fn to_ids(&self) -> (r: Vec<Id>) {
        proof {
            reveal_with_fuel(value_count, 4);
        }
        vec![Id::I32(self.0)]
    }

    proof fn lemma_parts_plain() {
        reveal_strlit("reports");
        reveal_strlit("history");
    }

    proof fn lemma_ids_round_trip(&self) {
        reveal_with_fuel(value_count, 4);
        let texts = self.spec_ids().map_values(|id: Id| id_text(id));
        lemma_id_i32_round_trip(self.0);
        assert(texts[0] == id_text(self.spec_ids()[0]));
    }
}

/// Where a page of reports starts: after the report with this id.
#[derive(Debug)]
pub struct ReportPageToken(pub usize);

impl PageToken for ReportPageToken {
    open spec fn is_start(&self) -> bool {
        self.0 == 0
    }

    fn start() -> (r: Self) {
        ReportPageToken(0)
    }
}

impl Default for ReportPageToken {
    fn default() -> (r: Self)
        ensures
            r.is_start(),
    {
        ReportPageToken(0)
    }
}

impl ReportPageToken {
    /// The token as it stands in a page link.
    pub fn to_string(&self) -> (r: String)
        ensures
            r@ == int_to_dec(self.0 as int),
    {
        crate::text::string_of(format_u64(self.0 as u64).as_slice())
    }
}

/// Whether a report is still open.
#[derive(Debug, Clone, Copy, PartialEq, Eq, Structural)]
pub enum ReportStatus {
    Opened,
    Closed,
}

impl ReportStatus {
    /// The status of a report stored as closed or not.
    pub fn from_closed(closed: bool) -> (r: Self)
        ensures
            r == (if closed {
                ReportStatus::Closed
            } else {
                ReportStatus::Opened
            }),
    {
        if closed {
            ReportStatus::Closed
        } else {
            ReportStatus::Opened
        }
    }

    /// Whether the status is the one stored as closed.
    pub fn is_closed(&self) -> (r: bool)
        ensures
            r == (*self == ReportStatus::Closed),
    {
        match self {
            ReportStatus::Closed => true,
            ReportStatus::Opened => false,
        }
    }
}

/// What a listing of reports is narrowed to.
#[derive(Debug, Clone)]
pub struct ReportFilter {
    pub status: Option<ReportStatus>,
    pub reason: Option<String>,
}

/// The kind of resource a report points at.
#[derive(Debug, Clone, Copy, PartialEq, Eq, Structural)]
pub enum ArtifactType {
    Board,
    Placement,
    BoardNotice,
    Notice,
    Faction,
    FactionMemeber,
    User,
    Role,
    Report,
}

/// Why a link is no artifact of a report.
#[derive(Debug)]
pub enum ArtifactParseError {
    /// The path names no kind of resource that can be reported.
    Type,
    Host,
    /// The link is no URI.
    Uri(http::uri::InvalidUri),
}

/// A resource that a report points at, of a kind, with the time it was
/// added.
#[derive(Debug)]
pub struct Artifact {
    pub reference: http::Uri,
    pub kind: ArtifactType,
    pub timestamp: u64,
}

/// The nonempty pieces of a list of path pieces, in order.
pub open spec fn nonempty_pieces(segs: Seq<Seq<char>>) -> Seq<Seq<char>>
    decreases segs.len(),
{
    if segs.len() == 0 {
        seq![]
    } else if segs.last().len() > 0 {
        nonempty_pieces(segs.drop_last()).push(segs.last())
    } else {
        nonempty_pieces(segs.drop_last())
    }
}

/// The segments of a path: its pieces between slashes, empty ones left out.
pub open spec fn path_segments(path: Seq<char>) -> Seq<Seq<char>> {
    nonempty_pieces(split_spec(path, '/'))
}

/// The kind of resource that the segments of a path name, where the ids in
/// them are numbers of the kind's id type.
pub open spec fn artifact_type_spec(segs: Seq<Seq<char>>) -> Option<ArtifactType> {
    let n = segs.len();
    if n == 2 && segs[0] == "boards"@ {
        if parse_u32_spec(segs[1]) is Ok {
            Some(ArtifactType::Board)
        } else {
            None
        }
    } else if n == 4 && segs[0] == "boards"@ && segs[2] == "pixels"@ {
        if parse_u32_spec(segs[1]) is Ok && parse_u64_spec(segs[3]) is Ok {
            Some(ArtifactType::Placement)
        } else {
            None
        }
    } else if n == 4 && segs[0] == "boards"@ && segs[2] == "notice"@ {
        if parse_u32_spec(segs[1]) is Ok && parse_u32_spec(segs[3]) is Ok {
            Some(ArtifactType::BoardNotice)
        } else {
            None
        }
    } else if n == 2 && segs[0] == "notice"@ {
        if parse_u32_spec(segs[1]) is Ok {
            Some(ArtifactType::Notice)
        } else {
            None
        }
    } else if n == 2 && segs[0] == "faction"@ {
        if parse_u32_spec(segs[1]) is Ok {
            Some(ArtifactType::Faction)
        } else {
            None
        }
    } else if n == 4 && segs[0] == "faction"@ && segs[2] == "member"@ {
        if parse_u32_spec(segs[1]) is Ok && parse_u32_spec(segs[3]) is Ok {
            Some(ArtifactType::Faction)
        } else {
            None
        }
    } else if n == 2 && segs[0] == "user"@ {
        Some(ArtifactType::User)
    } else if n == 2 && segs[0] == "role"@ {
        Some(ArtifactType::Role)
    } else if n == 2 && segs[0] == "report"@ {
        if parse_u32_spec(segs[1]) is Ok {
            Some(ArtifactType::Report)
        } else {
            None
        }
    } else {
        None
    }
}

fn nonempty_segments(pieces: &Vec<Vec<char>>) -> (r: Vec<Vec<char>>)
    ensures
        pieces_view(r@) == nonempty_pieces(pieces_view(pieces@)),
{
    let ghost all = pieces_view(pieces@);
    let mut r: Vec<Vec<char>> = Vec::new();
    let mut i: usize = 0;
    assert(all.take(0) =~= Seq::<Seq<char>>::empty());
    while i < pieces.len()
        invariant
            i <= pieces.len(),
            all == pieces_view(pieces@),
            pieces_view(r@) == nonempty_pieces(all.take(i as int)),
        decreases pieces.len() - i,
    {
        assert(all.take(i + 1).drop_last() =~= all.take(i as int));
        assert(all.take(i + 1).last() == pieces[i as int]@);
        if pieces[i].len() > 0 {
            r.push(pieces[i].clone());
            assert(pieces_view(r@) =~= nonempty_pieces(all.take(i as int)).push(pieces[i as int]@));
        }
        i = i + 1;
    }
    assert(all.take(pieces.len() as int) =~= all);
    r
}

/// The kind of resource that a path names (the classification of
/// `Artifact::parse`).
pub fn artifact_type(path: &str) -> (r: Option<ArtifactType>)
    ensures
        r == artifact_type_spec(path_segments(path@)),
{
    let cs = chars_of(path);
    let pieces = split_chars(cs.as_slice(), '/');
    let segs = nonempty_segments(&pieces);
    let ghost sv = pieces_view(segs@);
    assert(sv.len() == segs.len());
    let n = segs.len();
    if n == 2 {
        assert(sv[0] == segs[0]@ && sv[1] == segs[1]@);
        let first = segs[0].as_slice();
        let id = segs[1].as_slice();
        if chars_eq_str(first, "boards") {
            if parse_u32(id).is_ok() {
                Some(ArtifactType::Board)
            } else {
                None
            }
        } else if chars_eq_str(first, "notice") {
            if parse_u32(id).is_ok() {
                Some(ArtifactType::Notice)
            } else {
                None
            }
        } else if chars_eq_str(first, "faction") {
            if parse_u32(id).is_ok() {
                Some(ArtifactType::Faction)
            } else {
                None
            }
        } else if chars_eq_str(first, "user") {
            Some(ArtifactType::User)
        } else if chars_eq_str(first, "role") {
            Some(ArtifactType::Role)
        } else if chars_eq_str(first, "report") {
            if parse_u32(id).is_ok() {
                Some(ArtifactType::Report)
            } else {
                None
            }
        } else {
            None
        }
    } else if n == 4 {
        assert(sv[0] == segs[0]@ && sv[1] == segs[1]@ && sv[2] == segs[2]@ && sv[3] == segs[3]@);
        let first = segs[0].as_slice();
        let id = segs[1].as_slice();
        let third = segs[2].as_slice();
        let id2 = segs[3].as_slice();
        if chars_eq_str(first, "boards") && chars_eq_str(third, "pixels") {
            if parse_u32(id).is_ok() && parse_u64(id2).is_ok() {
                Some(ArtifactType::Placement)
            } else {
                None
            }
        } else if chars_eq_str(first, "boards") && chars_eq_str(third, "notice") {
            if parse_u32(id).is_ok() && parse_u32(id2).is_ok() {
                Some(ArtifactType::BoardNotice)
            } else {
                None
            }
        } else if chars_eq_str(first, "faction") && chars_eq_str(third, "member") {
            if parse_u32(id).is_ok() && parse_u32(id2).is_ok() {
                Some(ArtifactType::Faction)
            } else {
                None
            }
        } else {
            None
        }
    } else {
        None
    }
}

impl Artifact {
    /// The artifact a link points at, added at `timestamp`: the URI the link
    /// parses to, and the kind its path names.
    pub fn parse(uri: &str, timestamp: u64) -> (r: Result<Self, ArtifactParseError>)
        ensures
            http_uri_parsed(uri@) is None ==> (r matches Err(ArtifactParseError::Uri(_))),
            match http_uri_path(uri@) {
                None => (r matches Err(ArtifactParseError::Uri(_))),
                Some(path) => match artifact_type_spec(path_segments(path)) {
                    None => (r matches Err(ArtifactParseError::Type)),
                    Some(t) => (r matches Ok(a) && a.kind == t && a.timestamp == timestamp && Some(
                        a.reference,
                    ) == http_uri_parsed(uri@)),
                },
            },
    {
        match parse_uri(uri) {
            Err(e) => Err(ArtifactParseError::Uri(e)),
            Ok((reference, path)) => match artifact_type(path.as_str()) {
                None => Err(ArtifactParseError::Type),
                Some(t) => Ok(Artifact { reference, kind: t, timestamp }),
            },
        }
    }
}

/// A revision of a report as stored: every edit stores a
/// new revision under the same id.
#[derive(Debug, Clone)]
pub struct ReportModel {
    pub id: i32,
    pub revision: i32,
    pub closed: bool,
    pub reason: String,
    pub reporter: Option<i32>,
    pub timestamp: i64,
}

impl ReportModel {
    /// The first revision of a new report, made at `now` (seconds since 1970,
    /// reinterpreted as `i64`, as `as _` does); the store picks its id.
    pub fn first_revision(reason: String, reporter: Option<&UserSpecifier>, now: u64) -> (r: Self)
        ensures
            r.revision == 1,
            !r.closed,
            r.reason@ == reason@,
            r.reporter == (match reporter {
                Some(u) => Some(u.0),
                None => None::<i32>,
            }),
            r.timestamp == now as i64,
    {
        let reporter = match reporter {
            Some(u) => Some(u.0),
            None => None,
        };
        ReportModel { id: 0, revision: 1, closed: false, reason, reporter, timestamp: now as i64 }
    }

    /// The revision that an edit made at `now` stores after this one: the
    /// status and reason where they are given, else those of this revision;
    /// the reporter stays.
    pub fn revise(
        &self,
        status: Option<ReportStatus>,
        reason: Option<String>,
        now: u64,
    ) -> (r: Self)
        requires
            self.revision < i32::MAX,
        ensures
            r.id == self.id,
            r.revision == self.revision + 1,
            r.closed == (match status {
                Some(s) => s == ReportStatus::Closed,
                None => self.closed,
            }),
            r.reason@ == (match reason {
                Some(t) => t@,
                None => self.reason@,
            }),
            r.reporter == self.reporter,
            r.timestamp == now as i64,
    {
        let closed = match status {
            Some(s) => s.is_closed(),
            None => self.closed,
        };
        let reason = match reason {
            Some(t) => t,
            None => self.reason.clone(),
        };
        ReportModel {
            id: self.id,
            revision: self.revision + 1,
            closed,
            reason,
            reporter: self.reporter,
            timestamp: now as i64,
        }
    }

    /// The status of the revision.
    pub fn status(&self) -> (r: ReportStatus)
        ensures
            r == (if self.closed {
                ReportStatus::Closed
            } else {
                ReportStatus::Opened
            }),
    {
        ReportStatus::from_closed(self.closed)
    }
}

/// An artifact row of a report as stored: the link and when it was added.
#[derive(Debug, Clone)]
pub struct ArtifactModel {
    pub uri: String,
    pub timestamp: i64,
}

/// The kind of artifact a link names, where it names one: the link must be a
/// URI whose path names a kind of resource that can be reported.
pub open spec fn artifact_kind(uri: Seq<char>) -> Option<ArtifactType> {
    match http_uri_path(uri) {
        None => None,
        Some(path) => artifact_type_spec(path_segments(path)),
    }
}

/// Whether an artifact shows a stored artifact row.
pub open spec fn shows_artifact(a: Artifact, m: ArtifactModel) -> bool {
    &&& artifact_kind(m.uri@) == Some(a.kind)
    &&& Some(a.reference) == http_uri_parsed(m.uri@)
    &&& a.timestamp == m.timestamp as u64
}

/// Whether every stored artifact row names an artifact.
pub open spec fn artifacts_valid(rows: Seq<ArtifactModel>) -> bool {
    forall|k: int| 0 <= k < rows.len() ==> #[trigger] artifact_kind(rows[k].uri@) is Some
}

/// The artifacts of stored rows, or the error of the first row that names none.
pub fn artifacts_of(rows: &[ArtifactModel]) -> (r: Result<Vec<Artifact>, ArtifactParseError>)
    ensures
        r is Ok <==> artifacts_valid(rows@),
        (r matches Ok(v) ==> v@.len() == rows@.len() && forall|k: int|
            0 <= k < rows@.len() ==> shows_artifact(#[trigger] v@[k], rows@[k])),
{
    let mut out: Vec<Artifact> = Vec::new();
    let mut k: usize = 0;
    while k < rows.len()
        invariant
            k <= rows@.len(),
            out@.len() == k,
            forall|j: int| 0 <= j < k ==> shows_artifact(#[trigger] out@[j], rows@[j]),
        decreases rows.len() - k,
    {
        match Artifact::parse(rows[k].uri.as_str(), rows[k].timestamp as u64) {
            Ok(a) => out.push(a),
            Err(e) => {
                assert(artifact_kind(rows@[k as int].uri@) is None);
                return Err(e);
            },
        }
        k = k + 1;
    }
    assert(artifacts_valid(rows@)) by {
        assert forall|j: int| 0 <= j < rows@.len() implies #[trigger] artifact_kind(rows@[j].uri@) is Some by {
            assert(shows_artifact(out@[j], rows@[j]));
        }
    }
    Ok(out)
}

/// A report as it is shown: its address, status, reason, artifacts, reporter
/// and the time of its revision.
pub struct Report {
    pub id: ReportSpecifier,
    pub status: ReportStatus,
    pub reason: String,
    pub artifacts: Vec<Artifact>,
    pub reporter: Option<User>,
    pub timestamp: u64,
}

/// Whether a report shows a stored revision, its reporter's row and its
/// artifact rows.
pub open spec fn shows_report(
    r: Report,
    row: ReportModel,
    reporter: Option<UserModel>,
    artifacts: Seq<ArtifactModel>,
) -> bool {
    &&& r.id == ReportSpecifier(row.id)
    &&& r.status == (if row.closed {
        ReportStatus::Closed
    } else {
        ReportStatus::Opened
    })
    &&& r.reason@ == row.reason@
    &&& r.timestamp == row.timestamp as u64
    &&& match reporter {
        None => r.reporter is None,
        Some(u) => r.reporter matches Some(v) && v.id == UserSpecifier(u.id) && v.subject@
            == u.subject@ && v.name@ == u.name@ && v.created_at == u.created_at,
    }
    &&& r.artifacts@.len() == artifacts.len()
    &&& forall|k: int| 0 <= k < artifacts.len() ==> shows_artifact(#[trigger] r.artifacts@[k], artifacts[k])
}

/// The report a stored revision, its reporter's row and its artifact rows
/// show, or the error of the first artifact row that names no artifact.
pub fn report_of(
    row: &ReportModel,
    reporter: &Option<UserModel>,
    artifacts: &[ArtifactModel],
) -> (r: Result<Report, ArtifactParseError>)
    ensures
        r is Ok <==> artifacts_valid(artifacts@),
        (r matches Ok(rep) ==> shows_report(rep, *row, *reporter, artifacts@)),
{
    let artifacts = artifacts_of(artifacts)?;
    let reporter = match reporter {
        Some(u) => Some(
            User {
                id: UserSpecifier(u.id),
                subject: u.subject.clone(),
                name: u.name.clone(),
                created_at: u.created_at,
            },
        ),
        None => None,
    };
    Ok(
        Report {
            id: ReportSpecifier(row.id),
            status: ReportStatus::from_closed(row.closed),
            reason: row.reason.clone(),
            artifacts,
            reporter,
            timestamp: row.timestamp as u64,
        },
    )
}

/// The reports of the first `count` rows, with the artifact rows of each, or
/// the error of the first artifact row that names no artifact.
fn reports_of(
    rows: &[(ReportModel, Option<UserModel>)],
    artifacts: &[Vec<ArtifactModel>],
    count: usize,
) -> (r: Result<Vec<Report>, ArtifactParseError>)
    requires
        count <= rows@.len(),
        artifacts@.len() == count,
    ensures
        r is Ok <==> forall|i: int| 0 <= i < count ==> artifacts_valid(#[trigger] artifacts@[i]@),
        (r matches Ok(v) ==> v@.len() == count && forall|i: int|
            0 <= i < count ==> shows_report(#[trigger] v@[i], rows@[i].0, rows@[i].1, artifacts@[i]@)),
{
    let mut items: Vec<Report> = Vec::new();
    let mut i: usize = 0;
    while i < count
        invariant
            count <= rows@.len(),
            artifacts@.len() == count,
            i <= count,
            items@.len() == i,
            forall|j: int| 0 <= j < i ==> artifacts_valid(#[trigger] artifacts@[j]@),
            forall|j: int|
                0 <= j < i ==> shows_report(#[trigger] items@[j], rows@[j].0, rows@[j].1, artifacts@[j]@),
        decreases count - i,
    {
        match report_of(&rows[i].0, &rows[i].1, artifacts[i].as_slice()) {
            Ok(rep) => items.push(rep),
            Err(e) => return Err(e),
        }
        i = i + 1;
    }
    Ok(items)
}

/// A page of the listing of reports, from the rows fetched for it (one more
/// than the page shows, where there are so many) and the artifact rows of each
/// row the page shows: the first `limit` rows as reports, and the link
/// `/reports?page={id}&limit={limit}` to the next page when rows follow the
/// page, after the last row the page shows. An artifact row that names no
/// artifact breaks the store's integrity and fails the page.
pub fn reports_page(
    rows: &[(ReportModel, Option<UserModel>)],
    artifacts: &[Vec<ArtifactModel>],
    limit: usize,
) -> (r: Result<Page<Report>, ArtifactParseError>)
    requires
        artifacts@.len() == page_len(rows@.len() as int, limit),
    ensures
        r is Ok <==> forall|i: int| 0 <= i < artifacts@.len() ==> artifacts_valid(#[trigger] artifacts@[i]@),
        (r matches Ok(p) ==> {
            &&& p.items@.len() == artifacts@.len()
            &&& forall|i: int|
                0 <= i < p.items@.len() ==> shows_report(
                    #[trigger] p.items@[i],
                    rows@[i].0,
                    rows@[i].1,
                    artifacts@[i]@,
                )
            &&& (p.next is Some <==> has_next(rows@.len() as int, limit))
            &&& (p.next matches Some(link) ==> link@ == page_link_text(
                "/reports"@,
                int_to_dec(rows@[page_end(limit)].0.id as usize as int),
                limit,
            ))
            &&& p.previous is None
        }),
{
    let count = if rows.len() < limit {
        rows.len()
    } else {
        limit
    };
    let items = reports_of(rows, artifacts, count)?;
    let next = match next_anchor(rows.len(), limit) {
        Some(i) => {
            let token = ReportPageToken(rows[i].0.id as usize);
            let t = token.to_string();
            Some(page_link("/reports", t.as_str(), limit))
        },
        None => None,
    };
    Ok(Page { items, next, previous: None })
}

/// A page of the revisions of a report, from the rows fetched for it (one more
/// than the page shows, where there are so many) and the artifact rows of each
/// row the page shows: the first `limit` revisions as reports, and the link
/// `{path}?page={revision}&limit={limit}` to the next page when rows follow the
/// page, after the last revision the page shows.
pub fn report_history_page(
    rows: &[(ReportModel, Option<UserModel>)],
    artifacts: &[Vec<ArtifactModel>],
    list: &ReportHistorySpecifier,
    limit: usize,
) -> (r: Result<Page<Report>, ArtifactParseError>)
    requires
        artifacts@.len() == page_len(rows@.len() as int, limit),
    ensures
        r is Ok <==> forall|i: int| 0 <= i < artifacts@.len() ==> artifacts_valid(#[trigger] artifacts@[i]@),
        (r matches Ok(p) ==> {
            &&& p.items@.len() == artifacts@.len()
            &&& forall|i: int|
                0 <= i < p.items@.len() ==> shows_report(
                    #[trigger] p.items@[i],
                    rows@[i].0,
                    rows@[i].1,
                    artifacts@[i]@,
                )
            &&& (p.next is Some <==> has_next(rows@.len() as int, limit))
            &&& (p.next matches Some(link) ==> link@ == page_link_text(
                build_path(ReportHistorySpecifier::spec_parts(), list.spec_ids()),
                int_to_dec(rows@[page_end(limit)].0.revision as usize as int),
                limit,
            ))
            &&& p.previous is None
        }),
{
    let count = if rows.len() < limit {
        rows.len()
    } else {
        limit
    };
    let items = reports_of(rows, artifacts, count)?;
    let next = match next_anchor(rows.len(), limit) {
        Some(i) => {
            let token = ReportPageToken(rows[i].0.revision as usize);
            let t = token.to_string();
            let path = list.to_uri();
            Some(page_link(path.as_str(), t.as_str(), limit))
        },
        None => None,
    };
    Ok(Page { items, next, previous: None })
}

/// Law: a path names a placement exactly when its segments are `boards`, a
/// board id that reads as a `u32`, `pixels` and a position that reads as a
/// `u64`; a board notice exactly when they are `boards`, a `u32`, `notice` and
/// a `u32`; a board exactly when they are `boards` and a `u32`. An id that is no
/// number of its type names no artifact.
pub proof fn lemma_board_artifacts_need_numbers(segs: Seq<Seq<char>>)
    ensures
        artifact_type_spec(segs) == Some(ArtifactType::Placement) <==> (segs.len() == 4 && segs[0]
            == "boards"@ && segs[2] == "pixels"@ && parse_u32_spec(segs[1]) is Ok && parse_u64_spec(
            segs[3],
        ) is Ok),
        artifact_type_spec(segs) == Some(ArtifactType::BoardNotice) <==> (segs.len() == 4 && segs[0]
            == "boards"@ && segs[2] == "notice"@ && parse_u32_spec(segs[1]) is Ok && parse_u32_spec(
            segs[3],
        ) is Ok),
        artifact_type_spec(segs) == Some(ArtifactType::Board) <==> (segs.len() == 2 && segs[0]
            == "boards"@ && parse_u32_spec(segs[1]) is Ok),
{
    reveal_strlit("pixels");
    reveal_strlit("notice");
    assert("pixels"@[0] != "notice"@[0]);
}

/// Law: an artifact parsed as a placement comes from a link whose path has
/// the segments `boards`, a `u32`, `pixels` and a `u64`.
pub proof fn lemma_placement_artifact_path(uri: Seq<char>)
    ensures
        artifact_kind(uri) == Some(ArtifactType::Placement) ==> (http_uri_path(uri) matches Some(path)
            && path_segments(path).len() == 4 && path_segments(path)[0] == "boards"@ && path_segments(
            path,
        )[2] == "pixels"@ && parse_u32_spec(path_segments(path)[1]) is Ok && parse_u64_spec(
            path_segments(path)[3],
        ) is Ok),
{
    if let Some(path) = http_uri_path(uri) {
        lemma_board_artifacts_need_numbers(path_segments(path));
    }
}

} // verus!
