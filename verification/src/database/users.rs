//! The directory of users and factions, and the pages of its listings.
pub mod connection;
pub mod entities;

use vstd::prelude::*;

use base64::Engine;

use crate::database::filter::FilterRange;
use crate::decimal::{format_u64, int_to_dec};
use crate::filter::response::paginated_list::{
    param_text, push_param, push_range_param, push_text_param, range_param_text,
    text_param_text, PageToken,
};
use crate::text::{
    chars_eq, chars_of, lemma_contains_middle, occurs_text, lemma_contains_within,
    lemma_flatten_contains, pieces_view, push_chars, split_once, split_once_spec, sub_chars,
};
use entities::{timestamp_text, FactionParseError, LDAPTimestamp, UserParseError};

verus! {

/// The error `base64` gives for a text that is no encoding.
#[verifier::external_type_specification]
#[verifier::external_body]
pub struct ExDecodeError(base64::DecodeError);

/// The character of a six-bit value in the URL-safe base64 alphabet: `A`-`Z`,
/// `a`-`z`, `0`-`9`, then `-` and `_`.
pub open spec fn base64_url_char(v: int) -> char {
    if v < 26 {
        ('A' as int + v) as char
    } else if v < 52 {
        ('a' as int + (v - 26)) as char
    } else if v < 62 {
        ('0' as int + (v - 52)) as char
    } else if v == 62 {
        '-'
    } else {
        '_'
    }
}

/// The URL-safe, padded base64 text of bytes: each group of three bytes as
/// four characters of six bits each, a last group of one or two bytes filled
/// with zero bits and padded with `=` to four characters.
pub open spec fn base64_url_encode(bytes: Seq<u8>) -> Seq<char>
    decreases bytes.len(),
{
    if bytes.len() == 0 {
        Seq::empty()
    } else if bytes.len() == 1 {
        let a = bytes[0] as int;
        seq![base64_url_char(a / 4), base64_url_char((a % 4) * 16), '=', '=']
    } else if bytes.len() == 2 {
        let a = bytes[0] as int;
        let b = bytes[1] as int;
        seq![
            base64_url_char(a / 4),
            base64_url_char((a % 4) * 16 + b / 16),
            base64_url_char((b % 16) * 4),
            '=',
        ]
    } else {
        let a = bytes[0] as int;
        let b = bytes[1] as int;
        let c = bytes[2] as int;
        seq![
            base64_url_char(a / 4),
            base64_url_char((a % 4) * 16 + b / 16),
            base64_url_char((b % 16) * 4 + c / 64),
            base64_url_char(c % 64),
        ] + base64_url_encode(bytes.subrange(3, bytes.len() as int))
    }
}

/// The bytes whose URL-safe, padded base64 text a text is, where it is one.
pub uninterp spec fn base64_url_decode(text: Seq<char>) -> Option<Seq<u8>>;

/// Calls `Engine::encode` of `base64::prelude::BASE64_URL_SAFE` (the URL-safe
/// alphabet, with padding). Claims that the text is `base64_url_encode` of the
/// bytes and that decoding it with the same engine gives the bytes back.
#[verifier::external_body]
fn encode_url_safe(bytes: &[u8]) -> (r: String)
    ensures
        r@ == base64_url_encode(bytes@),
        base64_url_decode(r@) == Some(bytes@),
{
    base64::prelude::BASE64_URL_SAFE.encode(bytes)
}

/// Calls `Engine::decode` of `base64::prelude::BASE64_URL_SAFE`. Claims that it
/// succeeds exactly where `base64_url_decode` has bytes for the text, and gives
/// those bytes.
#[verifier::external_body]
fn decode_url_safe(text: &str) -> (r: Result<Vec<u8>, base64::DecodeError>)
    ensures
        match r {
            Ok(v) => base64_url_decode(text@) == Some(v@),
            Err(_) => base64_url_decode(text@) is None,
        },
{
    base64::prelude::BASE64_URL_SAFE.decode(text)
}

/// Where a page of a directory listing starts: the cookie the directory gave
/// with the page before (empty for the first page).
#[derive(Debug, Clone)]
pub struct LdapPageToken(pub Vec<u8>);

impl PageToken for LdapPageToken {
    open spec fn is_start(&self) -> bool {
        self.0@.len() == 0
    }

    fn start() -> (r: Self) {
        LdapPageToken(Vec::new())
    }
}

impl LdapPageToken {
    /// The token as it stands in a page link: its cookie in URL-safe base64.
    /// The text reads back as the same cookie.
    pub fn to_string(&self) -> (r: String)
        ensures
            r@ == base64_url_encode(self.0@),
            base64_url_decode(r@) == Some(self.0@),
    {
        encode_url_safe(self.0.as_slice())
    }

    /// Reads a token from a page link.
    pub fn parse(text: &str) -> (r: Result<Self, base64::DecodeError>)
        ensures
            match r {
                Ok(t) => base64_url_decode(text@) == Some(t.0@),
                Err(_) => base64_url_decode(text@) is None,
            },
    {
        match decode_url_safe(text) {
            Ok(v) => Ok(LdapPageToken(v)),
            Err(e) => Err(e),
        }
    }
}

/// The view of an optional text.
pub open spec fn opt_text(o: Option<&str>) -> Option<Seq<char>> {
    match o {
        Some(t) => Some(t@),
        None => None,
    }
}

/// The conditions of a search for users: the user has the id attribute, and
/// where given, the display name and the bounds of the creation time.
pub open spec fn users_filter_parts(
    id_field: Seq<char>,
    name: Option<Seq<char>>,
    created_after: Option<LDAPTimestamp>,
    created_before: Option<LDAPTimestamp>,
) -> Seq<Seq<char>> {
    let base = seq!["("@ + id_field + "=*)"@];
    let with_name = match name {
        Some(n) => base.push("(displayName="@ + n + ")"@),
        None => base,
    };
    let with_after = match created_after {
        Some(t) => with_name.push("(createTimestamp>="@ + timestamp_text(t) + ")"@),
        None => with_name,
    };
    match created_before {
        Some(t) => with_after.push("(createTimestamp<="@ + timestamp_text(t) + ")"@),
        None => with_after,
    }
}

/// A search filter that all the conditions hold: a single one as it is,
/// several joined under `(&...)`.
pub open spec fn ldap_and(parts: Seq<Seq<char>>) -> Seq<char> {
    if parts.len() == 1 {
        parts[0]
    } else {
        ldap_join("&"@, parts)
    }
}

fn wrapped(open: &str, inner: &[char], close: &str) -> (r: String)
    ensures
        r@ == open@ + inner@ + close@,
{
    let mut s = String::new();
    let a = chars_of(open);
    push_chars(&mut s, a.as_slice());
    push_chars(&mut s, inner);
    let c = chars_of(close);
    push_chars(&mut s, c.as_slice());
    s
}

/// The filter of a search for users: users with the id
/// attribute, with the display name where one is given, created within the
/// bounds where they are given.
pub fn users_search_filter(
    id_field: &str,
    name: Option<&str>,
    created_after: Option<LDAPTimestamp>,
    created_before: Option<LDAPTimestamp>,
) -> (r: String)
    ensures
        r@ == ldap_and(users_filter_parts(id_field@, opt_text(name), created_after, created_before)),
{
    let ghost spec_parts = users_filter_parts(id_field@, opt_text(name), created_after, created_before);
    let mut parts: Vec<String> = Vec::new();
    let f = chars_of(id_field);
    parts.push(wrapped("(", f.as_slice(), "=*)"));
    if let Some(n) = name {
        let nc = chars_of(n);
        parts.push(wrapped("(displayName=", nc.as_slice(), ")"));
    }
    if let Some(t) = created_after {
        let tc = chars_of(t.to_string().as_str());
        parts.push(wrapped("(createTimestamp>=", tc.as_slice(), ")"));
    }
    if let Some(t) = created_before {
        let tc = chars_of(t.to_string().as_str());
        parts.push(wrapped("(createTimestamp<=", tc.as_slice(), ")"));
    }
    assert(parts.deep_view() =~= spec_parts);
    ldap_all_of(&parts, "&")
}

/// The text of parts one after another.
pub fn concat_parts(parts: &Vec<String>) -> (r: String)
    ensures
        r@ == parts.deep_view().flatten(),
{
    let ghost spec_parts = parts.deep_view();
    let mut s = String::new();
    let mut i: usize = 0;
    assert(spec_parts.take(0).flatten() =~= Seq::<char>::empty());
    while i < parts.len()
        invariant
            i <= parts.len(),
            parts.deep_view() == spec_parts,
            s@ == spec_parts.take(i as int).flatten(),
        decreases parts.len() - i,
    {
        let p = chars_of(parts[i].as_str());
        push_chars(&mut s, p.as_slice());
        proof {
            assert(spec_parts.take(i + 1) =~= spec_parts.take(i as int).push(spec_parts[i as int]));
            spec_parts.take(i as int).lemma_flatten_push(spec_parts[i as int]);
        }
        i = i + 1;
    }
    assert(spec_parts.take(parts.len() as int) =~= spec_parts);
    s
}

/// A filter that joins its parts under an operator: `({op}{parts})`.
pub open spec fn ldap_join(op: Seq<char>, parts: Seq<Seq<char>>) -> Seq<char> {
    "("@ + op + parts.flatten() + ")"@
}

/// A filter over parts: a single part as it is, several joined under the
/// operator `op` (`&` for all of them).
pub fn ldap_all_of(parts: &Vec<String>, op: &str) -> (r: String)
    requires
        parts.len() >= 1,
    ensures
        r@ == (if parts.len() == 1 {
            parts.deep_view()[0]
        } else {
            ldap_join(op@, parts.deep_view())
        }),
{
    if parts.len() == 1 {
        return parts[0].clone();
    }
    let inner = concat_parts(parts);
    let mut s = String::new();
    let a = chars_of("(");
    push_chars(&mut s, a.as_slice());
    let o = chars_of(op);
    push_chars(&mut s, o.as_slice());
    let i = chars_of(inner.as_str());
    push_chars(&mut s, i.as_slice());
    let c = chars_of(")");
    push_chars(&mut s, c.as_slice());
    s
}

/// A character's text in a search filter: `\`, `*`, `(`, `)` and NUL are
/// written as a backslash and two lower-case hexadecimal digits of their
/// code; any other character stands for itself.
pub open spec fn filter_escape_char(c: char) -> Seq<char> {
    if c == '\\' {
        seq!['\\', '5', 'c']
    } else if c == '*' {
        seq!['\\', '2', 'a']
    } else if c == '(' {
        seq!['\\', '2', '8']
    } else if c == ')' {
        seq!['\\', '2', '9']
    } else if c == '\0' {
        seq!['\\', '0', '0']
    } else {
        seq![c]
    }
}

/// A text as a value in a search filter: each character escaped.
pub open spec fn filter_escape(s: Seq<char>) -> Seq<char>
    decreases s.len(),
{
    if s.len() == 0 {
        Seq::empty()
    } else {
        filter_escape(s.drop_last()) + filter_escape_char(s.last())
    }
}

/// Calls `ldap3::ldap_escape`. Claims that the text comes back with the five
/// characters that search filters reserve escaped, as the function's source
/// shows.
#[verifier::external_body]
fn escape_filter_value(text: &str) -> (r: String)
    ensures
        r@ == filter_escape(text@),
{
    ldap3::ldap_escape(text).to_string()
}

/// The name of a user's entry: `{id_field}={id},ou={users_ou},{base}`, the id
/// escaped.
pub open spec fn user_dn_text(
    id: Seq<char>,
    id_field: Seq<char>,
    users_ou: Seq<char>,
    base: Seq<char>,
) -> Seq<char> {
    id_field + "="@ + filter_escape(id) + ",ou="@ + users_ou + ","@ + base
}

/// The name of a user's entry in the directory.
pub fn user_dn(id: &str, id_field: &str, users_ou: &str, base: &str) -> (r: String)
    ensures
        r@ == user_dn_text(id@, id_field@, users_ou@, base@),
{
    let mut s = String::new();
    let f = chars_of(id_field);
    push_chars(&mut s, f.as_slice());
    let e = chars_of("=");
    push_chars(&mut s, e.as_slice());
    let escaped = escape_filter_value(id);
    let v = chars_of(escaped.as_str());
    push_chars(&mut s, v.as_slice());
    let o = chars_of(",ou=");
    push_chars(&mut s, o.as_slice());
    let u = chars_of(users_ou);
    push_chars(&mut s, u.as_slice());
    let c = chars_of(",");
    push_chars(&mut s, c.as_slice());
    let b = chars_of(base);
    push_chars(&mut s, b.as_slice());
    s
}

/// The name of a role's or faction's entry: `cn={name},ou={ou},{base}`, the
/// name escaped.
pub open spec fn entry_dn_text(name: Seq<char>, ou: Seq<char>, base: Seq<char>) -> Seq<char> {
    "cn="@ + filter_escape(name) + ",ou="@ + ou + ","@ + base
}

/// The name of a role's or faction's entry in the directory, under the
/// organizational unit `ou`.
pub fn entry_dn(name: &str, ou: &str, base: &str) -> (r: String)
    ensures
        r@ == entry_dn_text(name@, ou@, base@),
{
    let escaped = escape_filter_value(name);
    let v = chars_of(escaped.as_str());
    let mut s = wrapped("cn=", v.as_slice(), ",ou=");
    let o = chars_of(ou);
    push_chars(&mut s, o.as_slice());
    let c = chars_of(",");
    push_chars(&mut s, c.as_slice());
    let b = chars_of(base);
    push_chars(&mut s, b.as_slice());
    s
}

/// The condition that an attribute equals a value: `({attribute}={value})`,
/// the value escaped.
pub open spec fn equals_text(attribute: Seq<char>, value: Seq<char>) -> Seq<char> {
    "("@ + attribute + "="@ + filter_escape(value) + ")"@
}

/// The condition that an attribute equals a value, the value escaped: the
/// filter that finds one user by id.
pub fn equals_filter(attribute: &str, value: &str) -> (r: String)
    ensures
        r@ == equals_text(attribute@, value@),
{
    let a = chars_of(attribute);
    let mut s = wrapped("(", a.as_slice(), "=");
    let escaped = escape_filter_value(value);
    let v = chars_of(escaped.as_str());
    push_chars(&mut s, v.as_slice());
    let c = chars_of(")");
    push_chars(&mut s, c.as_slice());
    s
}

/// The filter of a search for several users by id: any of them.
pub fn users_by_id_filter(id_field: &str, ids: &[&str]) -> (r: String)
    ensures
        r@ == "(|"@ + Seq::new(ids@.len(), |k: int| equals_text(id_field@, ids@[k]@)).flatten()
            + ")"@,
{
    let mut parts: Vec<String> = Vec::new();
    let mut i: usize = 0;
    while i < ids.len()
        invariant
            i <= ids.len(),
            parts.deep_view() == Seq::new(i as nat, |k: int| equals_text(id_field@, ids@[k]@)),
        decreases ids.len() - i,
    {
        let p = equals_filter(id_field, ids[i]);
        let ghost pv = p@;
        let ghost before = parts.deep_view();
        parts.push(p);
        assert(parts.deep_view() =~= before.push(pv));
        i = i + 1;
        assert(parts.deep_view() =~= Seq::new(i as nat, |k: int| equals_text(id_field@, ids@[k]@)));
    }
    let inner = concat_parts(&parts);
    let v = chars_of(inner.as_str());
    wrapped("(|", v.as_slice(), ")")
}

/// The conditions of a search for roles: its name, where given, and its icon,
/// where given (the names and icons are not escaped).
pub open spec fn roles_filter_parts(
    first: Seq<char>,
    name: Option<Seq<char>>,
    icon: Option<Seq<char>>,
) -> Seq<Seq<char>> {
    let with_name = match name {
        Some(n) => seq![first].push("(cn="@ + n + ")"@),
        None => seq![first],
    };
    match icon {
        Some(i) => with_name.push("(pxlsspaceIcon="@ + i + ")"@),
        None => with_name,
    }
}

/// The condition that a role is one of a user's: the user is a member of it,
/// or, where there is a default role, it is that role.
pub open spec fn member_roles_text(user_dn: Seq<char>, default_role: Option<Seq<char>>) -> Seq<char> {
    match default_role {
        Some(d) => "(|(member="@ + user_dn + ")(cn="@ + d + "))"@,
        None => "(member="@ + user_dn + ")"@,
    }
}

/// The filter of a search for a user's roles.
pub fn user_roles_filter(
    user_dn: &str,
    default_role: Option<&str>,
    name: Option<&str>,
    icon: Option<&str>,
) -> (r: String)
    ensures
        r@ == ({
            let parts = roles_filter_parts(
                member_roles_text(user_dn@, opt_text(default_role)),
                opt_text(name),
                opt_text(icon),
            );
            if parts.len() == 1 {
                parts[0]
            } else {
                ldap_join("&"@, parts)
            }
        }),
{
    let dn = chars_of(user_dn);
    let first = match default_role {
        Some(d) => {
            let mut s = wrapped("(|(member=", dn.as_slice(), ")(cn=");
            let dc = chars_of(d);
            push_chars(&mut s, dc.as_slice());
            let c = chars_of("))");
            push_chars(&mut s, c.as_slice());
            s
        },
        None => wrapped("(member=", dn.as_slice(), ")"),
    };
    let ghost first_view = first@;
    let mut parts: Vec<String> = Vec::new();
    parts.push(first);
    if let Some(n) = name {
        let nc = chars_of(n);
        parts.push(wrapped("(cn=", nc.as_slice(), ")"));
    }
    if let Some(i) = icon {
        let ic = chars_of(i);
        parts.push(wrapped("(pxlsspaceIcon=", ic.as_slice(), ")"));
    }
    assert(parts.deep_view() =~= roles_filter_parts(first_view, opt_text(name), opt_text(icon)));
    ldap_all_of(&parts, "&")
}

/// The filter of a search for the roles whose permissions a user has
///: the default role, where there is one, and the roles
/// the user is a member of, where there is a user.
pub fn permissions_filter(default_role: Option<&str>, user_dn: Option<&str>) -> (r: String)
    ensures
        r@ == "(|"@ + (match default_role {
            Some(d) => "(cn="@ + d@ + ")"@,
            None => Seq::<char>::empty(),
        }) + (match user_dn {
            Some(u) => "(member="@ + u@ + ")"@,
            None => Seq::<char>::empty(),
        }) + ")"@,
{
    let mut s = String::new();
    let a = chars_of("(|");
    push_chars(&mut s, a.as_slice());
    if let Some(d) = default_role {
        let dc = chars_of(d);
        let part = wrapped("(cn=", dc.as_slice(), ")");
        let pc = chars_of(part.as_str());
        push_chars(&mut s, pc.as_slice());
    }
    if let Some(u) = user_dn {
        let uc = chars_of(u);
        let part = wrapped("(member=", uc.as_slice(), ")");
        let pc = chars_of(part.as_str());
        push_chars(&mut s, pc.as_slice());
    }
    let c = chars_of(")");
    push_chars(&mut s, c.as_slice());
    s
}

/// How the directory answered a change of an entry.
#[derive(Debug, Clone, Copy, PartialEq, Eq, Structural)]
pub enum ChangeOutcome {
    Done,
    /// The entry does not exist (result code 32, `noSuchObject`).
    NoItem,
    /// The entry exists already (result code 68, `entryAlreadyExists`).
    AlreadyExists,
    /// Any other failure, to be reported as the directory's error.
    Failed,
}

/// What a result code of an addition means.
pub fn creation_outcome(rc: u32) -> (r: ChangeOutcome)
    ensures
        r == (if rc == 0 {
            ChangeOutcome::Done
        } else if rc == 68 {
            ChangeOutcome::AlreadyExists
        } else {
            ChangeOutcome::Failed
        }),
{
    if rc == 0 {
        ChangeOutcome::Done
    } else if rc == 68 {
        ChangeOutcome::AlreadyExists
    } else {
        ChangeOutcome::Failed
    }
}

/// What a result code of a change means.
pub fn change_outcome(rc: u32) -> (r: ChangeOutcome)
    ensures
        r == (if rc == 0 {
            ChangeOutcome::Done
        } else if rc == 32 {
            ChangeOutcome::NoItem
        } else {
            ChangeOutcome::Failed
        }),
{
    if rc == 0 {
        ChangeOutcome::Done
    } else if rc == 32 {
        ChangeOutcome::NoItem
    } else {
        ChangeOutcome::Failed
    }
}

/// The one entry a search by a unique name found: none is no item, more than
/// one are ambiguous.
pub fn single_entry<T>(entries: Vec<T>) -> (r: Result<T, FetchError>)
    ensures
        entries.len() == 0 ==> (r matches Err(FetchError::NoItems)),
        entries.len() == 1 ==> r == Ok::<T, FetchError>(entries@[0]),
        entries.len() > 1 ==> (r matches Err(FetchError::AmbiguousItems)),
{
    let mut entries = entries;
    if entries.len() == 0 {
        Err(FetchError::NoItems)
    } else if entries.len() == 1 {
        Ok(entries.remove(0))
    } else {
        Err(FetchError::AmbiguousItems)
    }
}

/// Why a directory entry could not be read.
#[derive(Debug, Clone, Copy, PartialEq, Eq, Structural)]
pub enum ParseError {
    User(UserParseError),
    Faction(FactionParseError),
}

/// Why a read from the directory failed. A failure of the directory itself
/// carries its message.
#[derive(Debug, Clone)]
pub enum FetchError {
    ParseError(ParseError),
    LdapError(String),
    MissingPagerData,
    InvalidPage,
    NoItems,
    AmbiguousItems,
    IntegrityError,
}

/// Why an entry could not be added to the directory.
#[derive(Debug, Clone)]
pub enum CreateError {
    LdapError(String),
    AlreadyExists,
}

/// Why an entry of the directory could not be changed.
#[derive(Debug, Clone)]
pub enum UpdateError {
    LdapError(String),
    NoItem,
}

/// Why an entry could not be removed from the directory.
#[derive(Debug, Clone)]
pub enum DeleteError {
    LdapError(String),
    NoItem,
}

/// Why an operation on the directory failed.
#[derive(Debug, Clone)]
pub enum UsersDatabaseError {
    Fetch(FetchError),
    Create(CreateError),
    Update(UpdateError),
    Delete(DeleteError),
}

/// The HTTP status a failed operation on the directory is answered with:
/// what is missing is not found, a bad page is a bad request, an entry that
/// exists already is a conflict, and all else is the server's fault.
pub open spec fn users_error_status(e: UsersDatabaseError) -> u16 {
    match e {
        UsersDatabaseError::Update(UpdateError::NoItem) => 404,
        UsersDatabaseError::Delete(DeleteError::NoItem) => 404,
        UsersDatabaseError::Fetch(FetchError::NoItems) => 404,
        UsersDatabaseError::Fetch(FetchError::InvalidPage) => 400,
        UsersDatabaseError::Create(CreateError::AlreadyExists) => 409,
        _ => 500,
    }
}

impl UsersDatabaseError {
    /// The HTTP status the error is answered with.
    pub fn status_code(&self) -> (r: u16)
        ensures
            r == users_error_status(*self),
    {
        match self {
            UsersDatabaseError::Update(UpdateError::NoItem) => 404,
            UsersDatabaseError::Delete(DeleteError::NoItem) => 404,
            UsersDatabaseError::Fetch(FetchError::NoItems) => 404,
            UsersDatabaseError::Fetch(FetchError::InvalidPage) => 400,
            UsersDatabaseError::Create(CreateError::AlreadyExists) => 409,
            UsersDatabaseError::Fetch(FetchError::MissingPagerData) => 500,
            UsersDatabaseError::Fetch(FetchError::AmbiguousItems) => 500,
            UsersDatabaseError::Fetch(FetchError::ParseError(_)) => 500,
            UsersDatabaseError::Fetch(FetchError::LdapError(_)) => 500,
            UsersDatabaseError::Fetch(FetchError::IntegrityError) => 500,
            UsersDatabaseError::Create(CreateError::LdapError(_)) => 500,
            UsersDatabaseError::Update(UpdateError::LdapError(_)) => 500,
            UsersDatabaseError::Delete(DeleteError::LdapError(_)) => 500,
        }
    }
}

/// What a listing of users is narrowed to.
#[derive(Debug)]
pub struct UserFilter {
    pub name: Option<String>,
    pub created_at: FilterRange<i64>,
}

/// The start of a link to the next page of a directory listing:
/// `{path}?limit={limit}&page={page}`.
pub open spec fn ldap_link_text(path: Seq<char>, limit: usize, page: Seq<char>) -> Seq<char> {
    path + "?limit="@ + int_to_dec(limit as int) + "&page="@ + page
}

/// The start of a link to the next page of a directory listing, its page
/// token in base64.
pub fn ldap_page_link(path: &str, limit: usize, page: &LdapPageToken) -> (r: String)
    ensures
        r@ == ldap_link_text(path@, limit, base64_url_encode(page.0@)),
{
    let p = chars_of(path);
    let mut link = wrapped("", p.as_slice(), "?limit=");
    assert(""@.len() == 0) by {
        reveal_strlit("");
    }
    assert(""@ + p@ =~= p@);
    let d = format_u64(limit as u64);
    push_chars(&mut link, d.as_slice());
    let b = chars_of("&page=");
    push_chars(&mut link, b.as_slice());
    let t = page.to_string();
    let tc = chars_of(t.as_str());
    push_chars(&mut link, tc.as_slice());
    link
}

/// The link to the next page of a listing of users: the limit and the page,
/// then each filter that narrows the listing.
pub open spec fn users_link_text(limit: usize, page: Seq<char>, filter: UserFilter) -> Seq<char> {
    ldap_link_text("/users"@, limit, page) + text_param_text(
        "name"@,
        match filter.name {
            Some(n) => Some(n@),
            None => None,
        },
    ) + range_param_text("created_at"@, filter.created_at)
}

/// The link to the next page of a listing of users.
pub fn users_page_link(limit: usize, page: &LdapPageToken, filter: &UserFilter) -> (r: String)
    ensures
        r@ == users_link_text(limit, base64_url_encode(page.0@), *filter),
{
    let mut link = ldap_page_link("/users", limit, page);
    let name = match &filter.name {
        Some(n) => Some(n.as_str()),
        None => None,
    };
    push_text_param(&mut link, "name", name);
    push_range_param(&mut link, "created_at", &filter.created_at);
    link
}

/// What a listing of roles is narrowed to.
#[derive(Debug)]
pub struct RoleFilter {
    pub name: Option<String>,
    pub icon: Option<String>,
}

/// The view of an optional owned text.
pub open spec fn opt_string(o: Option<String>) -> Option<Seq<char>> {
    match o {
        Some(t) => Some(t@),
        None => None,
    }
}

fn as_text(o: &Option<String>) -> (r: Option<&str>)
    ensures
        opt_text(r) == opt_string(*o),
{
    match o {
        Some(t) => Some(t.as_str()),
        None => None,
    }
}

/// The link to the next page of a listing of roles: the name
/// and the icon, each form encoded.
pub fn roles_page_link(limit: usize, page: &LdapPageToken, filter: &RoleFilter) -> (r: String)
    ensures
        r@ == ldap_link_text("/roles"@, limit, base64_url_encode(page.0@)) + text_param_text(
            "name"@,
            opt_string(filter.name),
        ) + text_param_text("icon"@, opt_string(filter.icon)),
{
    let mut link = ldap_page_link("/roles", limit, page);
    push_text_param(&mut link, "name", as_text(&filter.name));
    push_text_param(&mut link, "icon", as_text(&filter.icon));
    link
}

/// The link to the next page of a listing of a user's roles
///: the name form encoded, the icon as it is.
pub fn user_roles_page_link(
    user: &str,
    limit: usize,
    page: &LdapPageToken,
    filter: &RoleFilter,
) -> (r: String)
    ensures
        r@ == ldap_link_text("/users/"@ + user@ + "/roles"@, limit, base64_url_encode(page.0@))
            + text_param_text("name"@, opt_string(filter.name)) + (match filter.icon {
            Some(i) => param_text("icon"@, i@),
            None => Seq::<char>::empty(),
        }),
{
    let u = chars_of(user);
    let path = wrapped("/users/", u.as_slice(), "/roles");
    let mut link = ldap_page_link(path.as_str(), limit, page);
    push_text_param(&mut link, "name", as_text(&filter.name));
    match &filter.icon {
        Some(i) => push_param(&mut link, "icon", i.as_str()),
        None => {
            assert(link@ + Seq::<char>::empty() =~= link@);
        },
    }
    link
}

/// What a listing of factions is narrowed to.
#[derive(Debug)]
pub struct FactionFilter {
    pub name: Option<String>,
    pub created_at: FilterRange<i64>,
    pub size: FilterRange<usize>,
}

/// The link to the next page of a listing of factions, of all of them or of a
/// user's.
pub fn factions_page_link(limit: usize, page: &LdapPageToken, filter: &FactionFilter) -> (r: String)
    ensures
        r@ == ldap_link_text("/factions"@, limit, base64_url_encode(page.0@)) + text_param_text(
            "name"@,
            opt_string(filter.name),
        ) + range_param_text("created_at"@, filter.created_at) + range_param_text(
            "size"@,
            filter.size,
        ),
{
    let mut link = ldap_page_link("/factions", limit, page);
    push_text_param(&mut link, "name", as_text(&filter.name));
    push_range_param(&mut link, "created_at", &filter.created_at);
    push_range_param(&mut link, "size", &filter.size);
    link
}

/// The index of the first place where `pat` starts in `s`, or `s.len()`.
pub open spec fn find_pattern(s: Seq<char>, pat: Seq<char>) -> int
    decreases s.len(),
{
    if pat.len() == 0 {
        0
    } else if s.len() < pat.len() {
        s.len() as int
    } else if s.take(pat.len() as int) == pat {
        0
    } else {
        1 + find_pattern(s.drop_first(), pat)
    }
}

/// The pieces of `s` between occurrences of a nonempty `pat`
/// (`str::split` with a text pattern).
pub open spec fn split_on(s: Seq<char>, pat: Seq<char>) -> Seq<Seq<char>>
    decreases s.len(),
{
    let p = find_pattern(s, pat);
    if pat.len() == 0 || p < 0 || p + pat.len() > s.len() {
        seq![s]
    } else {
        seq![s.take(p)] + split_on(s.skip(p + pat.len()), pat)
    }
}

/// The pieces kept of a name pattern: the first, the last, and every other
/// one that is not empty.
pub open spec fn kept_pieces(pieces: Seq<Seq<char>>) -> Seq<Seq<char>>
    decreases pieces.len(),
{
    if pieces.len() == 0 {
        seq![]
    } else {
        let rest = kept_pieces(pieces.drop_last());
        if pieces.last().len() > 0 || pieces.len() == 1 {
            rest.push(pieces.last())
        } else {
            rest
        }
    }
}

/// Pieces joined with `*` between them.
pub open spec fn join_star(pieces: Seq<Seq<char>>) -> Seq<char>
    decreases pieces.len(),
{
    if pieces.len() == 0 {
        Seq::empty()
    } else if pieces.len() == 1 {
        pieces[0]
    } else {
        join_star(pieces.drop_last()) + seq!['*'] + pieces.last()
    }
}

/// A faction name as a search pattern: the name escaped, but each run of `*`
/// kept as a single wildcard.
pub open spec fn name_pattern_text(name: Seq<char>) -> Seq<char> {
    let pieces = split_on(filter_escape(name), "\\2a"@);
    let kept = kept_pieces(pieces.drop_last());
    if pieces.len() <= 1 {
        join_star(pieces)
    } else {
        join_star(kept.push(pieces.last()))
    }
}


proof fn lemma_find_pattern_bounds(s: Seq<char>, pat: Seq<char>)
    requires
        pat.len() > 0,
    ensures
        0 <= find_pattern(s, pat) <= s.len(),
        find_pattern(s, pat) + pat.len() <= s.len() ==> s.subrange(
            find_pattern(s, pat),
            find_pattern(s, pat) + pat.len(),
        ) == pat,
    decreases s.len(),
{
    if s.len() >= pat.len() && s.take(pat.len() as int) != pat {
        lemma_find_pattern_bounds(s.drop_first(), pat);
        let p = find_pattern(s.drop_first(), pat);
        if p + pat.len() <= s.drop_first().len() {
            assert(s.subrange(p + 1, p + 1 + pat.len()) =~= s.drop_first().subrange(p, p + pat.len()));
        }
    } else if s.len() >= pat.len() {
        assert(s.subrange(0, pat.len() as int) =~= s.take(pat.len() as int));
    }
}

/// Where `pat` first starts in `cs` at or after `start`, or `cs.len()`.
fn find_pattern_from(cs: &[char], start: usize, pat: &[char]) -> (r: usize)
    requires
        start <= cs.len(),
        pat.len() > 0,
    ensures
        r == start + find_pattern(cs@.skip(start as int), pat@),
{
    let mut j = start;
    assert(cs@.skip(start as int) == cs@.skip(j as int));
    while j < cs.len()
        invariant
            start <= j <= cs.len(),
            pat.len() > 0,
            start + find_pattern(cs@.skip(start as int), pat@) == j + find_pattern(
                cs@.skip(j as int),
                pat@,
            ),
        decreases cs.len() - j,
    {
        let ghost rest = cs@.skip(j as int);
        if cs.len() - j < pat.len() {
            assert(find_pattern(rest, pat@) == rest.len());
            return cs.len();
        }
        let window = sub_chars(cs, j, j + pat.len());
        assert(window@ =~= rest.take(pat.len() as int));
        if chars_eq(window.as_slice(), pat) {
            return j;
        }
        assert(rest.drop_first() =~= cs@.skip(j + 1));
        j = j + 1;
    }
    assert(cs@.skip(j as int).len() == 0);
    j
}

/// `str::split` with a text pattern: the pieces of `cs` between occurrences of
/// `pat`.
pub fn split_on_chars(cs: &[char], pat: &[char]) -> (r: Vec<Vec<char>>)
    requires
        pat.len() > 0,
    ensures
        pieces_view(r@) == split_on(cs@, pat@),
{
    let mut r: Vec<Vec<char>> = Vec::new();
    let mut start: usize = 0;
    assert(cs@.skip(0) == cs@);
    loop
        invariant
            start <= cs.len(),
            pat.len() > 0,
            pieces_view(r@) + split_on(cs@.skip(start as int), pat@) == split_on(cs@, pat@),
        decreases cs.len() - start,
    {
        let ghost rest = cs@.skip(start as int);
        let p = find_pattern_from(cs, start, pat);
        proof {
            lemma_find_pattern_bounds(rest, pat@);
        }
        let ghost before = pieces_view(r@);
        if p < cs.len() && pat.len() <= cs.len() - p {
            let piece = sub_chars(cs, start, p);
            assert(piece@ =~= rest.take(p - start));
            r.push(piece);
            assert(pieces_view(r@) =~= before.push(piece@));
            assert(cs@.skip(p + pat.len()) =~= rest.skip(p - start + pat.len()));
            assert(pieces_view(r@) + split_on(cs@.skip(p + pat.len()), pat@) =~= before + (seq![
                piece@,
            ] + split_on(rest.skip(p - start + pat.len()), pat@)));
            start = p + pat.len();
        } else {
            let piece = sub_chars(cs, start, cs.len());
            assert(piece@ =~= rest);
            r.push(piece);
            assert(pieces_view(r@) =~= before + seq![rest]);
            return r;
        }
    }
}

proof fn lemma_join_star_push(k: Seq<Seq<char>>, x: Seq<char>)
    ensures
        join_star(k.push(x)) == (if k.len() == 0 {
            x
        } else {
            join_star(k) + seq!['*'] + x
        }),
{
    assert(k.push(x).drop_last() =~= k);
    if k.len() == 0 {
        assert(k.push(x)[0] == x);
    }
}

proof fn lemma_kept_pieces_nonempty(pieces: Seq<Seq<char>>)
    requires
        pieces.len() > 0,
    ensures
        kept_pieces(pieces).len() > 0,
    decreases pieces.len(),
{
    if pieces.len() > 1 {
        lemma_kept_pieces_nonempty(pieces.drop_last());
    }
}

/// A faction name as a search pattern: the name escaped,
/// with each run of `*` kept as a single wildcard.
pub fn faction_name_pattern(name: &str) -> (r: String)
    ensures
        r@ == name_pattern_text(name@),
{
    let escaped = escape_filter_value(name);
    let cs = chars_of(escaped.as_str());
    let pat = chars_of("\\2a");
    proof {
        reveal_strlit("\\2a");
    }
    let pieces = split_on_chars(cs.as_slice(), pat.as_slice());
    let ghost pv = pieces_view(pieces@);
    proof {
        assert(pv.len() == pieces.len());
        lemma_split_on_nonempty(cs@, pat@);
    }
    let last = pieces.len() - 1;
    let mut out: Vec<char> = Vec::new();
    let mut i: usize = 0;
    assert(pv.take(0) =~= Seq::<Seq<char>>::empty());
    while i < last
        invariant
            i <= last,
            last + 1 == pieces.len(),
            pv == pieces_view(pieces@),
            out@ == join_star(kept_pieces(pv.take(i as int))),
            kept_pieces(pv.take(i as int)).len() == 0 <==> i == 0,
        decreases last - i,
    {
        let ghost k = kept_pieces(pv.take(i as int));
        proof {
            assert(pv.take(i + 1).drop_last() =~= pv.take(i as int));
            assert(pv.take(i + 1).last() == pv[i as int]);
            assert(pv[i as int] == pieces@[i as int]@);
        }
        if pieces[i].len() > 0 || i == 0 {
            if i > 0 {
                out.push('*');
            }
            let mut j: usize = 0;
            let ghost mid = out@;
            while j < pieces[i].len()
                invariant
                    j <= pieces@[i as int].len(),
                    i < pieces.len(),
                    out@ == mid + pieces@[i as int]@.take(j as int),
                decreases pieces@[i as int].len() - j,
            {
                out.push(pieces[i][j]);
                j = j + 1;
                assert(out@ =~= mid + pieces@[i as int]@.take(j as int));
            }
            proof {
                assert(pieces@[i as int]@.take(j as int) =~= pieces@[i as int]@);
                lemma_join_star_push(k, pv[i as int]);
                lemma_kept_pieces_nonempty(pv.take(i + 1));
            }
        } else {
            proof {
                lemma_kept_pieces_nonempty(pv.take(i as int));
            }
        }
        i = i + 1;
    }
    let ghost k = kept_pieces(pv.take(last as int));
    proof {
        assert(pv.take(last as int) =~= pv.drop_last());
        lemma_join_star_push(k, pv[last as int]);
        assert(pv[last as int] == pieces@[last as int]@);
    }
    if last > 0 {
        out.push('*');
    }
    let mut j: usize = 0;
    let ghost mid = out@;
    while j < pieces[last].len()
        invariant
            j <= pieces@[last as int].len(),
            last < pieces.len(),
            out@ == mid + pieces@[last as int]@.take(j as int),
        decreases pieces@[last as int].len() - j,
    {
        out.push(pieces[last][j]);
        j = j + 1;
        assert(out@ =~= mid + pieces@[last as int]@.take(j as int));
    }
    proof {
        assert(pieces@[last as int]@.take(j as int) =~= pieces@[last as int]@);
        if last == 0 {
            assert(pv.len() == 1);
            assert(out@ =~= pv[0]);
        } else {
            assert(out@ =~= join_star(k) + seq!['*'] + pv[last as int]);
        }
    }
    crate::text::string_of(out.as_slice())
}

proof fn lemma_split_on_nonempty(s: Seq<char>, pat: Seq<char>)
    ensures
        split_on(s, pat).len() >= 1,
    decreases s.len(),
{
    let p = find_pattern(s, pat);
    if !(pat.len() == 0 || p < 0 || p + pat.len() > s.len()) {
        lemma_split_on_nonempty(s.skip(p + pat.len()), pat);
    }
}

/// The conditions of a search for factions: the name pattern, where a name
/// is given, and the bounds of the creation time.
pub open spec fn factions_filter_parts(
    name: Option<Seq<char>>,
    created_after: Option<LDAPTimestamp>,
    created_before: Option<LDAPTimestamp>,
) -> Seq<Seq<char>> {
    let with_name = match name {
        Some(n) => seq!["(pxlsspaceFactionName="@ + name_pattern_text(n) + ")"@],
        None => Seq::<Seq<char>>::empty(),
    };
    let with_after = match created_after {
        Some(t) => with_name.push("(createTimestamp>="@ + timestamp_text(t) + ")"@),
        None => with_name,
    };
    match created_before {
        Some(t) => with_after.push("(createTimestamp<="@ + timestamp_text(t) + ")"@),
        None => with_after,
    }
}

/// The filter of a search for factions: every faction where
/// nothing narrows the search, else all the conditions joined under `&`.
pub fn factions_search_filter(
    name: Option<&str>,
    created_after: Option<LDAPTimestamp>,
    created_before: Option<LDAPTimestamp>,
) -> (r: String)
    ensures
        r@ == factions_filter_text(opt_text(name), created_after, created_before),
        r@ == ({
            let parts = factions_filter_parts(opt_text(name), created_after, created_before);
            if parts.len() == 0 {
                "(cn=*)"@
            } else {
                ldap_join("&"@, parts)
            }
        }),
{
    let ghost spec_parts = factions_filter_parts(opt_text(name), created_after, created_before);
    let mut parts: Vec<String> = Vec::new();
    if let Some(n) = name {
        let pattern = faction_name_pattern(n);
        let pc = chars_of(pattern.as_str());
        parts.push(wrapped("(pxlsspaceFactionName=", pc.as_slice(), ")"));
    }
    if let Some(t) = created_after {
        let tc = chars_of(t.to_string().as_str());
        parts.push(wrapped("(createTimestamp>=", tc.as_slice(), ")"));
    }
    if let Some(t) = created_before {
        let tc = chars_of(t.to_string().as_str());
        parts.push(wrapped("(createTimestamp<=", tc.as_slice(), ")"));
    }
    assert(parts.deep_view() =~= spec_parts);
    if parts.len() == 0 {
        return "(cn=*)".to_string();
    }
    let inner = concat_parts(&parts);
    let mut s = String::new();
    let a = chars_of("(");
    push_chars(&mut s, a.as_slice());
    let o = chars_of("&");
    push_chars(&mut s, o.as_slice());
    let ic = chars_of(inner.as_str());
    push_chars(&mut s, ic.as_slice());
    let c = chars_of(")");
    push_chars(&mut s, c.as_slice());
    s
}

/// The number of bytes of a character's UTF-8 encoding.
pub open spec fn utf8_width(c: char) -> int {
    vstd::utf8::encode_scalar(c as u32).len() as int
}

/// The number of leading characters whose UTF-8 encodings take exactly `n`
/// bytes, where the `n`th byte starts a character (or ends the text).
pub open spec fn chars_in_bytes(s: Seq<char>, n: int) -> Option<int>
    decreases s.len(),
{
    if n == 0 {
        Some(0)
    } else if s.len() == 0 || n < 0 {
        None
    } else {
        match chars_in_bytes(s.drop_first(), n - utf8_width(s[0])) {
            Some(k) => Some(k + 1),
            None => None,
        }
    }
}

/// The text of a member's name before its first comma.
pub open spec fn first_rdn(dn: Seq<char>) -> Seq<char> {
    match split_once_spec(dn, ',') {
        Some((first, _)) => first,
        None => dn,
    }
}

/// Whether a member's name has a comma, and its part before the comma is
/// cut after four bytes between characters, as reading the member's id does.
pub open spec fn member_dn_fits(dn: Seq<char>) -> bool {
    split_once_spec(dn, ',') is Some && chars_in_bytes(first_rdn(dn), 4) is Some
}

/// The id of a member from its entry's name: the value of its first part,
/// after the four bytes of an attribute like `uid=`.
pub open spec fn member_id_text(dn: Seq<char>) -> Seq<char> {
    first_rdn(dn).skip(chars_in_bytes(first_rdn(dn), 4)->0)
}

fn char_width(c: char) -> (r: usize)
    ensures
        r == utf8_width(c),
        1 <= r <= 4,
{
    proof {
        vstd::utf8::char_is_scalar(c);
    }
    let v = c as u32;
    if v < 0x80 {
        1
    } else if v < 0x800 {
        2
    } else if v < 0x10000 {
        3
    } else {
        4
    }
}

/// The id of a faction member from the name of its entry (as the faction's
/// `member` and `pxlsspaceFactionOwner` values hold it).
pub fn member_id(dn: &str) -> (r: String)
    requires
        member_dn_fits(dn@),
    ensures
        r@ == member_id_text(dn@),
{
    let cs = chars_of(dn);
    let first = match split_once(cs.as_slice(), ',') {
        Some((a, _)) => a,
        None => vstd::pervasive::unreached(),
    };
    let ghost f = first@;
    let mut k: usize = 0;
    let mut used: usize = 0;
    assert(f.skip(0) =~= f);
    while used < 4
        invariant
            k <= first.len(),
            used <= 4,
            f == first@,
            chars_in_bytes(f, 4) is Some,
            chars_in_bytes(f, 4) == match chars_in_bytes(f.skip(k as int), 4 - used) {
                Some(j) => Some(j + k),
                None => None::<int>,
            },
        decreases 4 - used,
    {
        if k >= first.len() {
            assert(f.skip(k as int).len() == 0);
            vstd::pervasive::unreached::<()>();
        }
        let w = char_width(first[k]);
        proof {
            let rest = f.skip(k as int);
            assert(rest[0] == f[k as int]);
            assert(rest.drop_first() =~= f.skip(k + 1));
        }
        if w > 4 - used {
            proof {
                let rest = f.skip(k as int);
                lemma_chars_in_bytes_neg(rest.drop_first(), 4 - used - w);
            }
            vstd::pervasive::unreached::<()>();
        }
        used = used + w;
        k = k + 1;
    }
    let rest = sub_chars(first.as_slice(), k, first.len());
    crate::text::string_of(rest.as_slice())
}

proof fn lemma_chars_in_bytes_neg(s: Seq<char>, n: int)
    requires
        n < 0,
    ensures
        chars_in_bytes(s, n) is None,
{
}

/// The ids of faction members from the names of their entries.
pub fn member_ids(dns: &Vec<String>) -> (r: Vec<String>)
    requires
        forall|i: int| 0 <= i < dns.len() ==> member_dn_fits(#[trigger] dns@[i]@),
    ensures
        r.len() == dns.len(),
        forall|i: int| 0 <= i < dns.len() ==> #[trigger] r@[i]@ == member_id_text(dns@[i]@),
{
    let mut r: Vec<String> = Vec::new();
    let mut i: usize = 0;
    while i < dns.len()
        invariant
            i <= dns.len(),
            r.len() == i,
            forall|j: int| 0 <= j < dns.len() ==> member_dn_fits(#[trigger] dns@[j]@),
            forall|j: int| 0 <= j < i ==> #[trigger] r@[j]@ == member_id_text(dns@[j]@),
        decreases dns.len() - i,
    {
        let id = member_id(dns[i].as_str());
        r.push(id);
        i = i + 1;
    }
    r
}

fn contains_text(values: &Vec<String>, value: &str) -> (r: bool)
    ensures
        r == exists|i: int| 0 <= i < values.len() && #[trigger] values@[i]@ == value@,
{
    let v = chars_of(value);
    let mut i: usize = 0;
    while i < values.len()
        invariant
            i <= values.len(),
            v@ == value@,
            forall|j: int| 0 <= j < i ==> #[trigger] values@[j]@ != value@,
        decreases values.len() - i,
    {
        let c = chars_of(values[i].as_str());
        if chars_eq(c.as_slice(), v.as_slice()) {
            return true;
        }
        i = i + 1;
    }
    false
}

/// Whether a user is a member of a faction, from the faction's members and
/// owners: none where the user is no member, else
/// whether the user owns it.
pub fn membership(members: &Vec<String>, owners: &Vec<String>, user_dn: &str) -> (r: Option<bool>)
    ensures
        r is Some <==> exists|i: int| 0 <= i < members.len() && #[trigger] members@[i]@ == user_dn@,
        r matches Some(owner) ==> owner == exists|i: int|
            0 <= i < owners.len() && #[trigger] owners@[i]@ == user_dn@,
{
    if !contains_text(members, user_dn) {
        return None;
    }
    Some(contains_text(owners, user_dn))
}

/// A step of changing a membership in the directory.
#[derive(Debug, Clone, Copy, PartialEq, Eq, Structural)]
pub enum MembershipStep {
    /// Adding a member.
    Add,
    /// Making a member an owner or not.
    EditOwner,
    /// Taking the owner mark off before removing.
    RemoveOwner,
    /// Removing the member.
    RemoveMember,
}

/// What a result code of a step of changing a membership means: 20
/// (`attributeOrValueExists`) is an existing membership when adding and
/// harmless when editing; 16 (`noSuchAttribute`) is harmless when taking off
/// the owner mark and a missing member when removing; 32 (`noSuchObject`) is
/// a missing faction.
pub fn membership_outcome(step: MembershipStep, rc: u32) -> (r: ChangeOutcome)
    ensures
        r == (if rc == 0 {
            ChangeOutcome::Done
        } else {
            match step {
                MembershipStep::Add => if rc == 20 {
                    ChangeOutcome::AlreadyExists
                } else if rc == 32 {
                    ChangeOutcome::NoItem
                } else {
                    ChangeOutcome::Failed
                },
                MembershipStep::EditOwner => if rc == 20 {
                    ChangeOutcome::Done
                } else if rc == 32 {
                    ChangeOutcome::NoItem
                } else {
                    ChangeOutcome::Failed
                },
                MembershipStep::RemoveOwner => if rc == 16 {
                    ChangeOutcome::Done
                } else if rc == 32 {
                    ChangeOutcome::NoItem
                } else {
                    ChangeOutcome::Failed
                },
                MembershipStep::RemoveMember => if rc == 16 || rc == 32 {
                    ChangeOutcome::NoItem
                } else {
                    ChangeOutcome::Failed
                },
            }
        }),
{
    if rc == 0 {
        return ChangeOutcome::Done;
    }
    match step {
        MembershipStep::Add => if rc == 20 {
            ChangeOutcome::AlreadyExists
        } else if rc == 32 {
            ChangeOutcome::NoItem
        } else {
            ChangeOutcome::Failed
        },
        MembershipStep::EditOwner => if rc == 20 {
            ChangeOutcome::Done
        } else if rc == 32 {
            ChangeOutcome::NoItem
        } else {
            ChangeOutcome::Failed
        },
        MembershipStep::RemoveOwner => if rc == 16 {
            ChangeOutcome::Done
        } else if rc == 32 {
            ChangeOutcome::NoItem
        } else {
            ChangeOutcome::Failed
        },
        MembershipStep::RemoveMember => if rc == 16 || rc == 32 {
            ChangeOutcome::NoItem
        } else {
            ChangeOutcome::Failed
        },
    }
}

/// The text of a flag: `true` or `false`.
pub open spec fn bool_text(b: bool) -> Seq<char> {
    if b {
        seq!['t', 'r', 'u', 'e']
    } else {
        seq!['f', 'a', 'l', 's', 'e']
    }
}

/// The link to the next page of a listing of a faction's members
///: the owner filter, where given, as it is.
pub fn faction_members_page_link(
    faction: &str,
    limit: usize,
    page: &LdapPageToken,
    owner: Option<bool>,
) -> (r: String)
    ensures
        r@ == ldap_link_text("/factions/"@ + faction@ + "/members"@, limit, base64_url_encode(page.0@))
            + (match owner {
            Some(o) => "&owner="@ + bool_text(o),
            None => Seq::<char>::empty(),
        }),
{
    let f = chars_of(faction);
    let path = wrapped("/factions/", f.as_slice(), "/members");
    let mut link = ldap_page_link(path.as_str(), limit, page);
    match owner {
        Some(o) => {
            let a = chars_of("&owner=");
            push_chars(&mut link, a.as_slice());
            let mut t: Vec<char> = Vec::new();
            if o {
                t.push('t');
                t.push('r');
                t.push('u');
                t.push('e');
            } else {
                t.push('f');
                t.push('a');
                t.push('l');
                t.push('s');
                t.push('e');
            }
            assert(t@ =~= bool_text(o));
            push_chars(&mut link, t.as_slice());
        },
        None => {
            assert(link@ + Seq::<char>::empty() =~= link@);
        },
    }
    link
}

/// A filter joined under an operator holds each of its parts.
proof fn lemma_join_holds_part(op: Seq<char>, parts: Seq<Seq<char>>, k: int)
    requires
        0 <= k < parts.len(),
    ensures
        occurs_text(ldap_join(op, parts), parts[k]),
{
    lemma_flatten_contains(parts, k);
    lemma_contains_within(parts.flatten(), parts[k], "("@ + op, ")"@);
    assert("("@ + op + parts.flatten() + ")"@ =~= ("("@ + op) + parts.flatten() + ")"@);
}

/// A filter that all the parts hold holds each of them.
proof fn lemma_and_holds_part(parts: Seq<Seq<char>>, k: int)
    requires
        0 <= k < parts.len(),
    ensures
        occurs_text(ldap_and(parts), parts[k]),
{
    if parts.len() == 1 {
        lemma_contains_middle(Seq::empty(), parts[0], Seq::empty());
        assert(Seq::<char>::empty() + parts[0] + Seq::<char>::empty() =~= parts[0]);
    } else {
        lemma_join_holds_part("&"@, parts, k);
    }
}

/// Law: the filter of a search for users holds the condition that the user has
/// the id attribute, and one condition for each criterion that is given,
/// whichever others are: the display name, the lower and the upper bound of the
/// creation time.
pub proof fn lemma_users_filter_conditions(
    id_field: Seq<char>,
    name: Option<Seq<char>>,
    created_after: Option<LDAPTimestamp>,
    created_before: Option<LDAPTimestamp>,
)
    ensures
        occurs_text(
            ldap_and(users_filter_parts(id_field, name, created_after, created_before)),
            "("@ + id_field + "=*)"@,
        ),
        name matches Some(n) ==> occurs_text(
            ldap_and(users_filter_parts(id_field, name, created_after, created_before)),
            "(displayName="@ + n + ")"@,
        ),
        created_after matches Some(t) ==> occurs_text(
            ldap_and(users_filter_parts(id_field, name, created_after, created_before)),
            "(createTimestamp>="@ + timestamp_text(t) + ")"@,
        ),
        created_before matches Some(t) ==> occurs_text(
            ldap_and(users_filter_parts(id_field, name, created_after, created_before)),
            "(createTimestamp<="@ + timestamp_text(t) + ")"@,
        ),
{
    let parts = users_filter_parts(id_field, name, created_after, created_before);
    let base = seq!["("@ + id_field + "=*)"@];
    let with_name = match name {
        Some(n) => base.push("(displayName="@ + n + ")"@),
        None => base,
    };
    let with_after = match created_after {
        Some(t) => with_name.push("(createTimestamp>="@ + timestamp_text(t) + ")"@),
        None => with_name,
    };
    assert(parts[0] == "("@ + id_field + "=*)"@);
    lemma_and_holds_part(parts, 0);
    if let Some(n) = name {
        assert(parts[1] == "(displayName="@ + n + ")"@);
        lemma_and_holds_part(parts, 1);
    }
    if let Some(t) = created_after {
        assert(parts[with_name.len() as int] == "(createTimestamp>="@ + timestamp_text(t) + ")"@);
        lemma_and_holds_part(parts, with_name.len() as int);
    }
    if let Some(t) = created_before {
        assert(parts[with_after.len() as int] == "(createTimestamp<="@ + timestamp_text(t) + ")"@);
        lemma_and_holds_part(parts, with_after.len() as int);
    }
}

/// The filter of a search for factions, as `factions_search_filter` writes it.
pub open spec fn factions_filter_text(
    name: Option<Seq<char>>,
    created_after: Option<LDAPTimestamp>,
    created_before: Option<LDAPTimestamp>,
) -> Seq<char> {
    let parts = factions_filter_parts(name, created_after, created_before);
    if parts.len() == 0 {
        "(cn=*)"@
    } else {
        ldap_join("&"@, parts)
    }
}

/// Law: the filter of a search for factions holds one condition for each
/// criterion that is given, whichever others are: the name pattern, the lower
/// and the upper bound of the creation time; with none given it asks for every
/// faction.
pub proof fn lemma_factions_filter_conditions(
    name: Option<Seq<char>>,
    created_after: Option<LDAPTimestamp>,
    created_before: Option<LDAPTimestamp>,
)
    ensures
        name matches Some(n) ==> occurs_text(
            factions_filter_text(name, created_after, created_before),
            "(pxlsspaceFactionName="@ + name_pattern_text(n) + ")"@,
        ),
        created_after matches Some(t) ==> occurs_text(
            factions_filter_text(name, created_after, created_before),
            "(createTimestamp>="@ + timestamp_text(t) + ")"@,
        ),
        created_before matches Some(t) ==> occurs_text(
            factions_filter_text(name, created_after, created_before),
            "(createTimestamp<="@ + timestamp_text(t) + ")"@,
        ),
        (name is None && created_after is None && created_before is None) ==> factions_filter_text(
            name,
            created_after,
            created_before,
        ) == "(cn=*)"@,
{
    let parts = factions_filter_parts(name, created_after, created_before);
    let with_name = match name {
        Some(n) => seq!["(pxlsspaceFactionName="@ + name_pattern_text(n) + ")"@],
        None => Seq::<Seq<char>>::empty(),
    };
    let with_after = match created_after {
        Some(t) => with_name.push("(createTimestamp>="@ + timestamp_text(t) + ")"@),
        None => with_name,
    };
    if let Some(n) = name {
        assert(parts[0] == "(pxlsspaceFactionName="@ + name_pattern_text(n) + ")"@);
        lemma_join_holds_part("&"@, parts, 0);
    }
    if let Some(t) = created_after {
        assert(parts[with_name.len() as int] == "(createTimestamp>="@ + timestamp_text(t) + ")"@);
        lemma_join_holds_part("&"@, parts, with_name.len() as int);
    }
    if let Some(t) = created_before {
        assert(parts[with_after.len() as int] == "(createTimestamp<="@ + timestamp_text(t) + ")"@);
        lemma_join_holds_part("&"@, parts, with_after.len() as int);
    }
}

} // verus!
