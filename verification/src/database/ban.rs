//! User bans and the specifiers that address them.
use vstd::prelude::*;

use super::specifier::{
    id_i32, id_i32_spec, id_text, lemma_id_i32_round_trip, value_count, Id, PathPart,
    SpecfierParseError, Specifier,
};
use super::user::UserSpecifier;

use crate::decimal::{format_u64, int_to_dec};
use crate::filter::response::paginated_list::{
    has_next, next_anchor, page_end, page_len, page_link, page_link_text, Page, PageToken,
};
use super::specifier::build_path;

use std::collections::HashMap;

use super::user::{User, UserModel};
use crate::clock::unix_time_now;

verus! {

/// The bans of a user, at `/users/{user}/bans`.
#[derive(Debug, PartialEq, Eq, Structural, Clone, Copy, Hash)]
pub struct BanListSpecifier {
    pub user: i32,
}

impl BanListSpecifier {
    /// The user whose bans these are.
    pub fn user(&self) -> (r: UserSpecifier)
        ensures
            r == UserSpecifier(self.user),
    {
        UserSpecifier(self.user)
    }

    /// One ban of the list.
    pub fn ban(&self, ban: i32) -> (r: BanSpecifier)
        ensures
            r == (BanSpecifier { user: self.user, ban }),
    {
        BanSpecifier { user: self.user, ban }
    }
}

impl From<&UserSpecifier> for BanListSpecifier {
    fn from(value: &UserSpecifier) -> (r: Self) {
        Self { user: value.0 }
    }
}

impl vstd::std_specs::convert::FromSpecImpl<&UserSpecifier> for BanListSpecifier {
    open spec fn obeys_from_spec() -> bool {
        true
    }

    open spec fn from_spec(value: &UserSpecifier) -> Self {
        BanListSpecifier { user: value.0 }
    }
}

impl Specifier for BanListSpecifier {
    open spec fn spec_parts() -> Seq<PathPart> {
        seq![PathPart::Path("users"), PathPart::Value, PathPart::Path("bans")]
    }

    open spec fn spec_ids(&self) -> Seq<Id> {
        seq![Id::I32(self.user)]
    }

    open spec fn spec_from_ids(ids: Seq<Seq<char>>) -> Result<Self, SpecfierParseError> {
        match id_i32_spec(ids[0]) {
            Ok(user) => Ok(BanListSpecifier { user: user }),
            Err(e) => Err(e),
        }
    }

    fn parts() -> (r: Vec<PathPart>) {
        vec![PathPart::Path("users"), PathPart::Value, PathPart::Path("bans")]
    }

    fn from_ids(ids: &[Vec<char>]) -> (r: Result<Self, SpecfierParseError>) {
        proof {
            reveal_with_fuel(value_count, 4);
        }
        let user = id_i32(ids[0].as_slice())?;
        Ok(Self { user })
    }

    fn to_ids(&self) -> (r: Vec<Id>) {
        proof {
            reveal_with_fuel(value_count, 4);
        }
        vec![Id::I32(self.user)]
    }

    proof fn lemma_parts_plain() {
        reveal_strlit("users");
        reveal_strlit("bans");
    }

    proof fn lemma_ids_round_trip(&self) {
        reveal_with_fuel(value_count, 4);
        let texts = self.spec_ids().map_values(|id: Id| id_text(id));
        lemma_id_i32_round_trip(self.user);
        assert(texts[0] == id_text(self.spec_ids()[0]));
    }
}

/// One ban of a user, at `/users/{user}/bans/{ban}`.
#[derive(Debug, PartialEq, Eq, Structural, Clone, Copy, Hash)]
pub struct BanSpecifier {
    pub user: i32,
    pub ban: i32,
}

impl BanSpecifier {
    /// The banned user.
    pub fn user(&self) -> (r: UserSpecifier)
        ensures
            r == UserSpecifier(self.user),
    {
        UserSpecifier(self.user)
    }

    /// The list that holds the ban.
    pub fn list(&self) -> (r: BanListSpecifier)
        ensures
            r == (BanListSpecifier { user: self.user }),
    {
        BanListSpecifier { user: self.user }
    }
}

impl Specifier for BanSpecifier {
    open spec fn spec_parts() -> Seq<PathPart> {
        seq![PathPart::Path("users"), PathPart::Value, PathPart::Path("bans"), PathPart::Value]
    }

    open spec fn spec_ids(&self) -> Seq<Id> {
        seq![Id::I32(self.user), Id::I32(self.ban)]
    }

    open spec fn spec_from_ids(ids: Seq<Seq<char>>) -> Result<Self, SpecfierParseError> {
        match id_i32_spec(ids[0]) {
            Ok(user) => match id_i32_spec(ids[1]) {
            Ok(ban) => Ok(BanSpecifier { user: user, ban: ban }),
            Err(e) => Err(e),
        },
            Err(e) => Err(e),
        }
    }

    fn parts() -> (r: Vec<PathPart>) {
        vec![PathPart::Path("users"), PathPart::Value, PathPart::Path("bans"), PathPart::Value]
    }

    fn from_ids(ids: &[Vec<char>]) -> (r: Result<Self, SpecfierParseError>) {
        proof {
            reveal_with_fuel(value_count, 5);
        }
        let user = id_i32(ids[0].as_slice())?;
        let ban = id_i32(ids[1].as_slice())?;
        Ok(Self { user, ban })
    }

    fn to_ids(&self) -> (r: Vec<Id>) {
        proof {
            reveal_with_fuel(value_count, 5);
        }
        vec![Id::I32(self.user), Id::I32(self.ban)]
    }

    proof fn lemma_parts_plain() {
        reveal_strlit("users");
        reveal_strlit("bans");
    }

    proof fn lemma_ids_round_trip(&self) {
        reveal_with_fuel(value_count, 5);
        let texts = self.spec_ids().map_values(|id: Id| id_text(id));
        lemma_id_i32_round_trip(self.user);
        assert(texts[0] == id_text(self.spec_ids()[0]));
        lemma_id_i32_round_trip(self.ban);
        assert(texts[1] == id_text(self.spec_ids()[1]));
    }
}

/// Where a page of a user's bans starts: after the ban with this id.
#[derive(Debug)]
pub struct BanPageToken(pub u32);

impl PageToken for BanPageToken {
    open spec fn is_start(&self) -> bool {
        self.0 == 0
    }

    fn start() -> (r: Self) {
        BanPageToken(0)
    }
}

impl Default for BanPageToken {
    fn default() -> (r: Self)
        ensures
            r.is_start(),
    {
        BanPageToken(0)
    }
}

impl BanPageToken {
    /// The token of the page that follows the ban with id `id`; the id is
    /// reinterpreted as unsigned, as `as _` does.
    pub fn after(id: i32) -> (r: Self)
        ensures
            r.0 == id as u32,
    {
        BanPageToken(id as u32)
    }

    /// The token as it stands in a page link.
    pub fn to_string(&self) -> (r: String)
        ensures
            r@ == int_to_dec(self.0 as int),
    {
        crate::text::string_of(format_u64(self.0 as u64).as_slice())
    }
}

/// A ban row as stored.
#[derive(Debug, Clone)]
pub struct BanModel {
    pub id: i32,
    pub created_at: i64,
    pub expires_at: Option<i64>,
    pub reason: Option<String>,
    pub user_id: i32,
    pub issuer: Option<i32>,
}

/// A ban row joined with its user and, where there is one, its issuer, as the
/// listings read it.
#[derive(Debug, Clone)]
pub struct BanFull {
    pub id: i32,
    pub created_at: i64,
    pub expires_at: Option<i64>,
    pub reason: Option<String>,
    pub user_id: i32,
    pub user_subject: String,
    pub user_name: String,
    pub user_created_at: i64,
    pub issuer: Option<i32>,
    pub issuer_subject: Option<String>,
    pub issuer_name: Option<String>,
    pub issuer_created_at: Option<i64>,
}

/// Whether the issuer columns of a joined ban row are filled wherever it has
/// an issuer, as the join fills them.
pub open spec fn issuer_columns_filled(b: BanFull) -> bool {
    b.issuer is Some ==> b.issuer_subject is Some && b.issuer_name is Some
        && b.issuer_created_at is Some
}

impl BanFull {
    /// The ban, its user and its issuer, each as a row of its own.
    pub fn split(self) -> (r: (BanModel, UserModel, Option<UserModel>))
        requires
            issuer_columns_filled(self),
        ensures
            r.0.id == self.id && r.0.created_at == self.created_at && r.0.expires_at
                == self.expires_at && r.0.reason == self.reason && r.0.user_id == self.user_id
                && r.0.issuer == self.issuer,
            r.1.id == self.user_id && r.1.subject@ == self.user_subject@ && r.1.name@
                == self.user_name@ && r.1.created_at == self.user_created_at,
            r.2 is Some <==> self.issuer is Some,
            r.2 matches Some(u) ==> u.id == self.issuer->0 && u.subject == self.issuer_subject->0
                && u.name == self.issuer_name->0 && u.created_at == self.issuer_created_at->0,
    {
        let BanFull {
            id,
            created_at,
            expires_at,
            reason,
            user_id,
            user_subject,
            user_name,
            user_created_at,
            issuer,
            issuer_subject,
            issuer_name,
            issuer_created_at,
        } = self;
        let ban = BanModel { id, created_at, expires_at, reason, user_id, issuer };
        let user = UserModel {
            id: user_id,
            subject: user_subject,
            name: user_name,
            created_at: user_created_at,
        };
        let issuer = match issuer {
            Some(id) => Some(
                UserModel {
                    id,
                    subject: issuer_subject.unwrap(),
                    name: issuer_name.unwrap(),
                    created_at: issuer_created_at.unwrap(),
                },
            ),
            None => None,
        };
        (ban, user, issuer)
    }
}

/// Whether a user is banned, and until when.
#[derive(Debug, Clone, Copy, PartialEq, Eq, Structural)]
pub enum BanStatus {
    NotBanned,
    BannedUntil(u64),
    Permabanned,
}

impl Default for BanStatus {
    fn default() -> (r: Self)
        ensures
            r == BanStatus::NotBanned,
    {
        BanStatus::NotBanned
    }
}

/// Whether a status bans a user at a time (seconds since 1970): never where
/// there is no ban, always for a ban for good, and up to and including the
/// second of its expiry for a ban with one.
pub open spec fn banned_at(status: BanStatus, now: u64) -> bool {
    match status {
        BanStatus::NotBanned => false,
        BanStatus::Permabanned => true,
        BanStatus::BannedUntil(t) => now <= t,
    }
}

impl BanStatus {
    /// The status that a user's bans give: banned for good where one of them
    /// never expires, else banned until the latest expiry, else not banned. The
    /// expiry is reinterpreted as unsigned, as `as _` does.
    pub fn from_bans(permanent_ban_count: u64, largest_expiry: Option<i64>) -> (r: Self)
        ensures
            r == (if permanent_ban_count > 0 {
                BanStatus::Permabanned
            } else {
                match largest_expiry {
                    Some(e) => BanStatus::BannedUntil(e as u64),
                    None => BanStatus::NotBanned,
                }
            }),
    {
        if permanent_ban_count > 0 {
            BanStatus::Permabanned
        } else {
            match largest_expiry {
                Some(e) => BanStatus::BannedUntil(e as u64),
                None => BanStatus::NotBanned,
            }
        }
    }

    /// Whether the status bans a user at a time: a ban with an expiry holds up
    /// to and including the second of its expiry.
    pub fn is_banned_at(&self, now: u64) -> (r: bool)
        ensures
            r == banned_at(*self, now),
            r == (match *self {
                BanStatus::NotBanned => false,
                BanStatus::Permabanned => true,
                BanStatus::BannedUntil(t) => now <= t,
            }),
    {
        match self {
            BanStatus::NotBanned => false,
            BanStatus::Permabanned => true,
            BanStatus::BannedUntil(t) => now <= *t,
        }
    }

    /// Whether the status bans a user now, by the system clock (a clock before
    /// the epoch reads as the epoch): `banned_at` the clock's reading. A status
    /// without an expiry does not depend on the clock, and a ban that lasts to
    /// the last second a `u64` counts holds whatever the clock reads.
    pub fn is_banned(&self) -> (r: bool)
        ensures
            exists|now: u64| r == #[trigger] banned_at(*self, now),
            *self == BanStatus::NotBanned ==> !r,
            *self == BanStatus::Permabanned ==> r,
            *self == BanStatus::BannedUntil(u64::MAX) ==> r,
    {
        let now = match unix_time_now() {
            Some(t) => t,
            None => 0,
        };
        let r = self.is_banned_at(now);
        assert(r == banned_at(*self, now));
        r
    }
}

/// The cached status of a user in a cache of statuses by user id.
pub open spec fn cached_status(bans: Map<i32, BanStatus>, user: UserSpecifier) -> Option<BanStatus> {
    if bans.contains_key(user.0) {
        Some(bans[user.0])
    } else {
        None
    }
}

/// The ban statuses of users as last read from the store, by user id.
#[derive(Debug)]
pub struct BansCache {
    bans: HashMap<i32, BanStatus>,
}

impl View for BansCache {
    type V = Map<i32, BanStatus>;

    closed spec fn view(&self) -> Map<i32, BanStatus> {
        self.bans@
    }
}

impl BansCache {
    /// A cache that holds no status.
    pub fn new() -> (r: Self)
        ensures
            r@ == Map::<i32, BanStatus>::empty(),
    {
        BansCache { bans: HashMap::new() }
    }

    /// The status cached for a user, if there is one: the answer a lookup
    /// gives without asking the store.
    pub fn cached(&self, user: &UserSpecifier) -> (r: Option<BanStatus>)
        ensures
            r == cached_status(self@, *user),
    {
        broadcast use vstd::std_specs::hash::group_hash_axioms;

        match self.bans.get(&user.0) {
            Some(status) => Some(*status),
            None => None,
        }
    }

    /// Keeps the status read from the store for a user.
    pub fn store(&mut self, user: &UserSpecifier, status: BanStatus)
        ensures
            final(self)@ == old(self)@.insert(user.0, status),
    {
        broadcast use vstd::std_specs::hash::group_hash_axioms;

        self.bans.insert(user.0, status);
    }

    /// Forgets the status of a user, so that the next lookup asks the store.
    pub fn invalidate(&mut self, user: &UserSpecifier)
        ensures
            final(self)@ == old(self)@.remove(user.0),
    {
        broadcast use vstd::std_specs::hash::group_hash_axioms;

        self.bans.remove(&user.0);
    }
}

/// Law: the cache answers for a user with the status last stored for that
/// user, and with none once the user's status was forgotten; storing or
/// forgetting one user's status leaves the answers for other users as they
/// were.
pub proof fn lemma_cache_read_after_write(
    bans: Map<i32, BanStatus>,
    user: UserSpecifier,
    other: UserSpecifier,
    status: BanStatus,
)
    requires
        other.0 != user.0,
    ensures
        cached_status(bans.insert(user.0, status), user) == Some(status),
        cached_status(bans.remove(user.0), user) is None,
        cached_status(bans.insert(user.0, status), other) == cached_status(bans, other),
        cached_status(bans.remove(user.0), other) == cached_status(bans, other),
{
}

/// A ban as it is shown: its address, when it was made and when it ends (in
/// seconds since 1970), who issued it and why.
pub struct Ban {
    pub id: BanSpecifier,
    pub created_at: u64,
    pub expires_at: Option<u64>,
    pub issuer: Option<User>,
    pub reason: Option<String>,
}

impl Ban {
    pub fn specifier(&self) -> (r: &BanSpecifier)
        ensures
            *r == self.id,
    {
        &self.id
    }
}

/// Whether a ban shows a joined ban row of a list: the row's address in the
/// list, its times reinterpreted as unsigned (as `as` does), its issuer and its
/// reason.
pub open spec fn shows_ban(b: Ban, list: BanListSpecifier, row: BanFull) -> bool {
    &&& b.id == (BanSpecifier { user: list.user, ban: row.id })
    &&& b.created_at == row.created_at as u64
    &&& b.expires_at == (match row.expires_at {
        Some(e) => Some(e as u64),
        None => None,
    })
    &&& b.reason == row.reason
    &&& match row.issuer {
        None => b.issuer is None,
        Some(i) => b.issuer matches Some(u) && u.id == UserSpecifier(i) && u.subject@
            == row.issuer_subject->0@ && u.name@ == row.issuer_name->0@ && u.created_at
            == row.issuer_created_at->0,
    }
}

impl BanFull {
    /// The ban a joined row of a list shows.
    pub fn to_ban(&self, list: &BanListSpecifier) -> (r: Ban)
        requires
            issuer_columns_filled(*self),
        ensures
            shows_ban(r, *list, *self),
    {
        let issuer = match self.issuer {
            Some(id) => {
                let subject = match &self.issuer_subject {
                    Some(s) => s.clone(),
                    None => vstd::pervasive::unreached(),
                };
                let name = match &self.issuer_name {
                    Some(s) => s.clone(),
                    None => vstd::pervasive::unreached(),
                };
                let created_at = match self.issuer_created_at {
                    Some(c) => c,
                    None => vstd::pervasive::unreached(),
                };
                Some(User { id: UserSpecifier(id), subject, name, created_at })
            },
            None => None,
        };
        let expires_at = match self.expires_at {
            Some(e) => Some(e as u64),
            None => None,
        };
        Ban {
            id: list.ban(self.id),
            created_at: self.created_at as u64,
            expires_at,
            issuer,
            reason: self.reason.clone(),
        }
    }
}

/// A page of the listing of a user's bans, from the rows fetched for it (one
/// more than the page shows, where there are so many): the first `limit` rows
/// as bans, and the link `{path}?page={id}&limit={limit}` to the next page when
/// rows follow the page, after the last row the page shows.
pub fn bans_page(rows: &[BanFull], list: &BanListSpecifier, limit: usize) -> (r: Page<Ban>)
    requires
        forall|i: int| 0 <= i < rows@.len() ==> issuer_columns_filled(#[trigger] rows@[i]),
    ensures
        r.items@.len() == page_len(rows@.len() as int, limit),
        forall|i: int| 0 <= i < r.items@.len() ==> shows_ban(#[trigger] r.items@[i], *list, rows@[i]),
        r.next is Some <==> has_next(rows@.len() as int, limit),
        (r.next matches Some(link) ==> link@ == page_link_text(
            build_path(BanListSpecifier::spec_parts(), list.spec_ids()),
            int_to_dec(rows@[page_end(limit)].id as u32 as int),
            limit,
        )),
        r.previous is None,
{
    let next = match next_anchor(rows.len(), limit) {
        Some(i) => {
            let token = BanPageToken(rows[i].id as u32);
            let t = token.to_string();
            let path = list.to_uri();
            Some(page_link(path.as_str(), t.as_str(), limit))
        },
        None => None,
    };
    let count = if rows.len() < limit {
        rows.len()
    } else {
        limit
    };
    let mut items: Vec<Ban> = Vec::new();
    let mut i: usize = 0;
    while i < count
        invariant
            count == page_len(rows@.len() as int, limit),
            count <= rows@.len(),
            i <= count,
            items@.len() == i,
            forall|j: int| 0 <= j < rows@.len() ==> issuer_columns_filled(#[trigger] rows@[j]),
            forall|j: int| 0 <= j < i ==> shows_ban(#[trigger] items@[j], *list, rows@[j]),
        decreases count - i,
    {
        items.push(rows[i].to_ban(list));
        i = i + 1;
    }
    Page { items, next, previous: None }
}

/// Law: a ban with an expiry holds at every time up to its expiry and at no
/// time after it; a later expiry holds whenever an earlier one does; a ban for
/// good holds at every time and no ban at none.
pub proof fn lemma_banned_until_expiry(t: u64, now: u64, later: u64)
    ensures
        banned_at(BanStatus::BannedUntil(t), now) <==> now <= t,
        t <= later && banned_at(BanStatus::BannedUntil(t), now) ==> banned_at(
            BanStatus::BannedUntil(later),
            now,
        ),
        banned_at(BanStatus::Permabanned, now),
        !banned_at(BanStatus::NotBanned, now),
{
}

} // verus!
