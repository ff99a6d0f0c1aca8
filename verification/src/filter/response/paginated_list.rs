use vstd::prelude::*;

use crate::database::filter::{filter_text, FilterRange, RangeValue};
use crate::decimal::{format_u64, int_to_dec};
use crate::text::{chars_of, push_chars};

verus! {

/// A page of a listing: its items, and the links to the next and previous
/// pages where there are such pages.
pub struct Page<T> {
    pub items: Vec<T>,
    pub next: Option<String>,
    pub previous: Option<String>,
}

/// A position in a listing from which a page starts.
pub trait PageToken: Sized {
    /// Whether the token is that of the first page of a listing.
    spec fn is_start(&self) -> bool;

    /// The token of the first page of a listing.
    fn start() -> (r: Self)
        ensures
            r.is_start(),
    ;
}

/// The query of a paginated listing: where the page starts and how many items
/// it holds at most.
pub struct PaginationOptions<T: PageToken> {
    pub page: T,
    pub limit: Option<usize>,
}

/// Index of the last item shown on a page of `limit` items (a limit of zero
/// counts as one).
pub open spec fn page_end(limit: usize) -> int {
    if limit == 0 {
        0
    } else {
        limit - 1
    }
}

/// The number of items a page of at most `limit` items shows of `len` fetched.
pub open spec fn page_len(len: int, limit: usize) -> int {
    if len < limit {
        len
    } else {
        limit as int
    }
}

/// Whether a listing fetched with one item beyond the page continues past it.
pub open spec fn has_next(len: int, limit: usize) -> bool {
    page_end(limit) + 1 < len
}

/// Where the next page is anchored: of the fetched items, the one whose token
/// starts the next page, if the listing continues past this page (the first
/// element of `windows(2).nth(limit.saturating_sub(1))`).
pub fn next_anchor(len: usize, limit: usize) -> (r: Option<usize>)
    ensures
        r is Some <==> has_next(len as int, limit),
        r matches Some(i) ==> i == page_end(limit) && i < len,
{
    let end = limit.saturating_sub(1);
    if end < len && len - end >= 2 {
        Some(end)
    } else {
        None
    }
}

/// The text of the link to the next page: `{path}?page={token}&limit={limit}`.
pub open spec fn page_link_text(path: Seq<char>, token: Seq<char>, limit: usize) -> Seq<char> {
    path + "?page="@ + token + "&limit="@ + int_to_dec(limit as int)
}

/// Writes the link to a page of a listing.
pub fn page_link(path: &str, token: &str, limit: usize) -> (r: String)
    ensures
        r@ == page_link_text(path@, token@, limit),
{
    let mut s = String::new();
    let p = chars_of(path);
    push_chars(&mut s, p.as_slice());
    let a = chars_of("?page=");
    push_chars(&mut s, a.as_slice());
    let t = chars_of(token);
    push_chars(&mut s, t.as_slice());
    let b = chars_of("&limit=");
    push_chars(&mut s, b.as_slice());
    let d = format_u64(limit as u64);
    push_chars(&mut s, d.as_slice());
    s
}

/// Law: a listing fetched with one item beyond the page (at most `limit + 1`
/// items, as the listings fetch them) has a next page exactly when it holds more
/// items than the page shows, and the next page is anchored at the last item
/// shown.
pub proof fn lemma_next_page_iff_more(len: usize, limit: usize)
    requires
        limit >= 1,
    ensures
        has_next(len as int, limit) <==> len > limit,
        has_next(len as int, limit) ==> page_end(limit) == limit - 1,
{
}

/// Whether form encoding keeps a byte as it is: letters, digits and `*-._`.
pub open spec fn form_unchanged(b: u8) -> bool {
    b == 42 || b == 45 || b == 46 || (48 <= b <= 57) || (65 <= b <= 90) || b == 95 || (97 <= b
        <= 122)
}

/// The number of bytes at the start that form encoding keeps as they are.
pub open spec fn unchanged_run(bytes: Seq<u8>) -> nat
    decreases bytes.len(),
{
    if bytes.len() > 0 && form_unchanged(bytes[0]) {
        1 + unchanged_run(bytes.drop_first())
    } else {
        0
    }
}

/// An upper-case hexadecimal digit.
pub open spec fn hex_digit(d: int) -> char {
    if d < 10 {
        (48 + d) as char
    } else {
        (55 + d) as char
    }
}

/// The first piece that `form_urlencoded::byte_serialize` yields for bytes:
/// none for no bytes; `+` for a leading space; `%XX` for another leading byte
/// that encoding changes; else the longest leading run of bytes kept as they
/// are.
pub open spec fn form_first_piece(bytes: Seq<u8>) -> Option<Seq<char>> {
    if bytes.len() == 0 {
        None
    } else if !form_unchanged(bytes[0]) {
        if bytes[0] == 32 {
            Some(seq!['+'])
        } else {
            Some(seq!['%', hex_digit((bytes[0] / 16) as int), hex_digit((bytes[0] % 16) as int)])
        }
    } else {
        Some(bytes.take(unchanged_run(bytes) as int).map_values(|b: u8| b as char))
    }
}

/// Calls `url::form_urlencoded::byte_serialize` on the bytes of a text and
/// takes the first piece it yields. Claims that the piece is
/// `form_first_piece` of the bytes, as the function's source shows.
#[verifier::external_body]
pub(crate) fn form_encoded_first(text: &str) -> (r: Option<String>)
    ensures
        match r {
            Some(p) => form_first_piece(vstd::utf8::encode_utf8(text@)) == Some(p@),
            None => form_first_piece(vstd::utf8::encode_utf8(text@)) is None,
        },
{
    match url::form_urlencoded::byte_serialize(text.as_bytes()).next() {
        Some(p) => Some(p.to_string()),
        None => None,
    }
}

/// The query parameter `&{key}={value}`.
pub open spec fn param_text(key: Seq<char>, value: Seq<char>) -> Seq<char> {
    "&"@ + key + "="@ + value
}

/// Appends a query parameter to a link.
pub fn push_param(link: &mut String, key: &str, value: &str)
    ensures
        final(link)@ == old(link)@ + param_text(key@, value@),
{
    let a = chars_of("&");
    push_chars(link, a.as_slice());
    let k = chars_of(key);
    push_chars(link, k.as_slice());
    let e = chars_of("=");
    push_chars(link, e.as_slice());
    let v = chars_of(value);
    push_chars(link, v.as_slice());
}

/// The parameter that carries a filter range in a page link: none for the open
/// range.
pub open spec fn range_param_text<T: RangeValue>(key: Seq<char>, range: FilterRange<T>) -> Seq<char> {
    if range.start is None && range.end is None {
        Seq::<char>::empty()
    } else {
        param_text(key, filter_text(range))
    }
}

/// Appends the parameter of a filter range, unless the range is open.
pub fn push_range_param<T: RangeValue>(link: &mut String, key: &str, range: &FilterRange<T>)
    ensures
        final(link)@ == old(link)@ + range_param_text(key@, *range),
{
    if !range.is_open() {
        let text = range.to_string();
        push_param(link, key, text.as_str());
    } else {
        assert(old(link)@ + Seq::<char>::empty() =~= old(link)@);
    }
}

/// The parameter that carries a text in a page link: the first piece of its
/// form encoding, none where there is none.
pub open spec fn text_param_text(key: Seq<char>, value: Option<Seq<char>>) -> Seq<char> {
    match value {
        Some(v) => match form_first_piece(vstd::utf8::encode_utf8(v)) {
            Some(p) => param_text(key, p),
            None => Seq::<char>::empty(),
        },
        None => Seq::<char>::empty(),
    }
}

/// Appends the parameter of a text, form encoded.
pub fn push_text_param(link: &mut String, key: &str, value: Option<&str>)
    ensures
        final(link)@ == old(link)@ + text_param_text(
            key@,
            match value {
                Some(v) => Some(v@),
                None => None,
            },
        ),
{
    match value {
        Some(v) => match form_encoded_first(v) {
            Some(p) => push_param(link, key, p.as_str()),
            None => {
                assert(old(link)@ + Seq::<char>::empty() =~= old(link)@);
            },
        },
        None => {
            assert(old(link)@ + Seq::<char>::empty() =~= old(link)@);
        },
    }
}

} // verus!
