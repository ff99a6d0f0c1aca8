//! Addressing of resources by URI paths such as `/users/5/bans/2`.
use vstd::prelude::*;

use crate::decimal::{format_i64, format_u64, int_to_dec, IntErrorKind};
use crate::text::{chars_eq_str, chars_of, pieces_view, push_char, push_chars, split_chars, split_spec};

verus! {

broadcast use vstd::string::group_string_axioms;

/// One segment of a specifier's path: a fixed word or a value.
#[derive(Debug, Clone, Copy)]
pub enum PathPart {
    Path(&'static str),
    Value,
}

/// Why a path does not name a specifier.
#[derive(Debug, Clone, Copy)]
pub enum SpecfierParseError {
    PathNotAbsolute,
    Expected(PathPart),
    UnexpectedEnd,
    ExpectedEnd,
    ParseFailed(IntErrorKind),
}

impl SpecfierParseError {
    /// The status a request for this path is answered with: 400 when a value
    /// failed to parse, 404 otherwise.
    pub fn status_code(&self) -> (r: u16)
        ensures
            r == (if self is ParseFailed {
                400u16
            } else {
                404u16
            }),
    {
        match self {
            SpecfierParseError::ParseFailed(_) => 400,
            _ => 404,
        }
    }
}

/// A value standing in a specifier's path.
#[derive(Debug, Clone, Copy)]
pub enum Id {
    I32(i32),
    U64(u64),
}

/// The text of an id in a path.
pub open spec fn id_text(id: Id) -> Seq<char> {
    match id {
        Id::I32(v) => int_to_dec(v as int),
        Id::U64(v) => int_to_dec(v as int),
    }
}

impl Id {
    /// The decimal text of the id, as `Display` writes it.
    pub fn to_chars(&self) -> (r: Vec<char>)
        ensures
            r@ == id_text(*self),
    {
        match self {
            Id::I32(v) => format_i64(*v as i64),
            Id::U64(v) => format_u64(*v),
        }
    }

    /// The decimal text of the id, as `Display` writes it.
    pub fn to_string(&self) -> (r: String)
        ensures
            r@ == id_text(*self),
    {
        crate::text::string_of(self.to_chars().as_slice())
    }
}

/// The `i32` that a value segment holds.
pub open spec fn id_i32_spec(t: Seq<char>) -> Result<i32, SpecfierParseError> {
    match crate::decimal::parse_i32_spec(t) {
        Ok(v) => Ok(v),
        Err(e) => Err(SpecfierParseError::ParseFailed(e)),
    }
}

/// The `u64` that a value segment holds.
pub open spec fn id_u64_spec(t: Seq<char>) -> Result<u64, SpecfierParseError> {
    match crate::decimal::parse_u64_spec(t) {
        Ok(v) => Ok(v),
        Err(e) => Err(SpecfierParseError::ParseFailed(e)),
    }
}

/// Parses a value segment as an `i32`.
pub fn id_i32(t: &[char]) -> (r: Result<i32, SpecfierParseError>)
    ensures
        r == id_i32_spec(t@),
{
    match crate::decimal::parse_i32(t) {
        Ok(v) => Ok(v),
        Err(e) => Err(SpecfierParseError::ParseFailed(e)),
    }
}

/// Parses a value segment as a `u64`.
pub fn id_u64(t: &[char]) -> (r: Result<u64, SpecfierParseError>)
    ensures
        r == id_u64_spec(t@),
{
    match crate::decimal::parse_u64(t) {
        Ok(v) => Ok(v),
        Err(e) => Err(SpecfierParseError::ParseFailed(e)),
    }
}

pub proof fn lemma_id_i32_round_trip(v: i32)
    ensures
        id_i32_spec(id_text(Id::I32(v))) == Ok::<i32, SpecfierParseError>(v),
{
    crate::decimal::lemma_parse_int_to_dec(v as int, i32::MIN as int, i32::MAX as int);
}

pub proof fn lemma_id_u64_round_trip(v: u64)
    ensures
        id_u64_spec(id_text(Id::U64(v))) == Ok::<u64, SpecfierParseError>(v),
{
    crate::decimal::lemma_parse_int_to_dec(v as int, 0, u64::MAX as int);
}

/// Number of value segments among the parts.
pub open spec fn value_count(parts: Seq<PathPart>) -> nat
    decreases parts.len(),
{
    if parts.len() == 0 {
        0
    } else {
        (if parts[0] is Value {
            1nat
        } else {
            0nat
        }) + value_count(parts.drop_first())
    }
}

/// The segments that the parts read, given ids for the value segments, in order.
pub open spec fn segments_of(parts: Seq<PathPart>, ids: Seq<Id>) -> Seq<Seq<char>>
    decreases parts.len(),
{
    if parts.len() == 0 {
        seq![]
    } else {
        match parts[0] {
            PathPart::Path(p) => seq![p@] + segments_of(parts.drop_first(), ids),
            PathPart::Value => seq![id_text(ids[0])] + segments_of(
                parts.drop_first(),
                ids.drop_first(),
            ),
        }
    }
}

/// Each segment preceded by `/`.
pub open spec fn join_segments(segs: Seq<Seq<char>>) -> Seq<char>
    decreases segs.len(),
{
    if segs.len() == 0 {
        seq![]
    } else {
        seq!['/'] + segs[0] + join_segments(segs.drop_first())
    }
}

/// The path that names a specifier with these parts and ids.
pub open spec fn build_path(parts: Seq<PathPart>, ids: Seq<Id>) -> Seq<char> {
    join_segments(segments_of(parts, ids))
}

/// Reads the segments after the leading `/` against the parts, collecting the
/// value segments.
pub open spec fn match_segments(segs: Seq<Seq<char>>, parts: Seq<PathPart>) -> Result<
    Seq<Seq<char>>,
    SpecfierParseError,
>
    decreases parts.len(),
{
    if parts.len() == 0 {
        if segs.len() > 0 {
            Err(SpecfierParseError::ExpectedEnd)
        } else {
            Ok(seq![])
        }
    } else if segs.len() == 0 {
        Err(SpecfierParseError::UnexpectedEnd)
    } else {
        match parts[0] {
            PathPart::Path(p) => if segs[0] != p@ {
                Err(SpecfierParseError::Expected(parts[0]))
            } else {
                match_segments(segs.drop_first(), parts.drop_first())
            },
            PathPart::Value => match match_segments(segs.drop_first(), parts.drop_first()) {
                Ok(vs) => Ok(seq![segs[0]] + vs),
                Err(e) => Err(e),
            },
        }
    }
}

/// The value segments of a path read against the parts.
pub open spec fn path_values(path: Seq<char>, parts: Seq<PathPart>) -> Result<
    Seq<Seq<char>>,
    SpecfierParseError,
> {
    let segs = split_spec(path, '/');
    if segs[0] != Seq::<char>::empty() {
        Err(SpecfierParseError::PathNotAbsolute)
    } else {
        match_segments(segs.drop_first(), parts)
    }
}

/// No fixed word of the parts holds a `/`.
pub open spec fn parts_are_plain(parts: Seq<PathPart>) -> bool {
    forall|k: int|
        0 <= k < parts.len() ==> (#[trigger] parts[k] matches PathPart::Path(p) ==> !p@.contains(
            '/',
        ))
}

/// A resource named by a path made of fixed words and integer values.
pub trait Specifier: Sized {
    spec fn spec_parts() -> Seq<PathPart>;

    spec fn spec_ids(&self) -> Seq<Id>;

    spec fn spec_from_ids(ids: Seq<Seq<char>>) -> Result<Self, SpecfierParseError>;

    /// The fixed words and value places of the path, in order.
    fn parts() -> (r: Vec<PathPart>)
        ensures
            r@ == Self::spec_parts(),
    ;

    /// The specifier whose value segments are `ids`.
    fn from_ids(ids: &[Vec<char>]) -> (r: Result<Self, SpecfierParseError>)
        requires
            ids.len() == value_count(Self::spec_parts()),
        ensures
            r == Self::spec_from_ids(pieces_view(ids@)),
    ;

    /// The values of the specifier, one for each value place of the path.
    fn to_ids(&self) -> (r: Vec<Id>)
        ensures
            r@ == self.spec_ids(),
            r@.len() == value_count(Self::spec_parts()),
    ;

    /// The fixed words hold no `/`.
    proof fn lemma_parts_plain()
        ensures
            parts_are_plain(Self::spec_parts()),
    ;

    /// Reading back the texts of a specifier's ids gives the specifier.
    proof fn lemma_ids_round_trip(&self)
        ensures
            self.spec_ids().len() == value_count(Self::spec_parts()),
            Self::spec_from_ids(self.spec_ids().map_values(|id: Id| id_text(id))) == Ok::<
                Self,
                SpecfierParseError,
            >(*self),
    ;

    /// The specifier that the path of a URI names.
    fn from_uri(path: &str) -> (r: Result<Self, SpecfierParseError>)
        ensures
            r == (match path_values(path@, Self::spec_parts()) {
                Ok(vs) => Self::spec_from_ids(vs),
                Err(e) => Err(e),
            }),
    {
        let cs = chars_of(path);
        let segs = split_chars(cs.as_slice(), '/');
        let ghost sv = pieces_view(segs@);
        proof {
            crate::text::lemma_split_nonempty(cs@, '/');
        }
        assert(sv.len() == segs@.len());
        if segs[0].len() != 0 {
            assert(sv[0] != Seq::<char>::empty());
            return Err(SpecfierParseError::PathNotAbsolute);
        }
        assert(sv[0] =~= Seq::<char>::empty());
        let parts = Self::parts();
        assert(path_values(path@, parts@) == match_segments(sv.drop_first(), parts@));
        let mut values: Vec<Vec<char>> = Vec::new();
        let mut k: usize = 0;
        let ghost mut rest_parts = parts@;
        let ghost mut rest_segs = sv.drop_first();
        proof {
            lemma_prepend_empty(match_segments(rest_segs, rest_parts));
            assert(pieces_view(values@) =~= Seq::<Seq<char>>::empty());
        }
        while k < parts.len()
            invariant
                k <= parts.len(),
                k + 1 <= sv.len(),
                parts@ == Self::spec_parts(),
                path_values(path@, parts@) == match_segments(sv.drop_first(), parts@),
                sv == pieces_view(segs@),
                sv.len() == segs@.len(),
                rest_parts == parts@.skip(k as int),
                rest_segs == sv.skip(k + 1),
                pieces_view(values@).len() == value_count(parts@.take(k as int)),
                match_segments(sv.drop_first(), parts@) == prepend(
                    pieces_view(values@),
                    match_segments(rest_segs, rest_parts),
                ),
            decreases parts.len() - k,
        {
            assert(rest_parts[0] == parts@[k as int]);
            assert(rest_parts.drop_first() == parts@.skip(k + 1));
            assert(parts@.take(k + 1) == parts@.take(k as int).push(parts@[k as int]));
            proof {
                lemma_value_count_push(parts@.take(k as int), parts@[k as int]);
            }
            if k + 1 >= segs.len() {
                assert(rest_segs.len() == 0);
                assert(match_segments(rest_segs, rest_parts) == Err::<
                    Seq<Seq<char>>,
                    SpecfierParseError,
                >(SpecfierParseError::UnexpectedEnd));
                return Err(SpecfierParseError::UnexpectedEnd);
            }
            assert(rest_segs[0] == sv[k + 1]);
            assert(rest_segs.drop_first() == sv.skip(k + 2));
            let part = parts[k];
            match part {
                PathPart::Path(p) => {
                    assert(sv[k + 1] == segs@[k + 1]@);
                    if !chars_eq_str(segs[k + 1].as_slice(), p) {
                        assert(match_segments(rest_segs, rest_parts) == Err::<
                            Seq<Seq<char>>,
                            SpecfierParseError,
                        >(SpecfierParseError::Expected(part)));
                        return Err(SpecfierParseError::Expected(part));
                    }
                },
                PathPart::Value => {
                    let ghost before = pieces_view(values@);
                    values.push(segs[k + 1].clone());
                    assert(pieces_view(values@) =~= before + seq![sv[k + 1]]);
                    proof {
                        lemma_prepend_assoc(
                            before,
                            seq![sv[k + 1]],
                            match_segments(rest_segs.drop_first(), rest_parts.drop_first()),
                        );
                    }
                },
            }
            proof {
                rest_parts = rest_parts.drop_first();
                rest_segs = rest_segs.drop_first();
            }
            k = k + 1;
        }
        if k < segs.len() - 1 {
            assert(rest_segs.len() > 0);
            return Err(SpecfierParseError::ExpectedEnd);
        }
        assert(rest_segs.len() == 0);
        assert(rest_parts.len() == 0);
        assert(parts@.take(k as int) == parts@);
        assert(pieces_view(values@) + Seq::<Seq<char>>::empty() == pieces_view(values@));
        Self::from_ids(values.as_slice())
    }

    /// The path that names the specifier.
    fn to_uri(&self) -> (r: String)
        ensures
            r@ == build_path(Self::spec_parts(), self.spec_ids()),
    {
        let ids = self.to_ids();
        let parts = Self::parts();
        let mut uri = String::new();
        let mut k: usize = 0;
        let mut used: usize = 0;
        let ghost mut rest_parts = parts@;
        let ghost mut rest_ids = ids@;
        assert(uri@ + build_path(rest_parts, rest_ids) =~= build_path(parts@, ids@));
        while k < parts.len()
            invariant
                k <= parts.len(),
                parts@ == Self::spec_parts(),
                ids@ == self.spec_ids(),
                rest_parts == parts@.skip(k as int),
                used <= ids@.len(),
                rest_ids == ids@.skip(used as int),
                value_count(rest_parts) == rest_ids.len(),
                build_path(parts@, ids@) == uri@ + build_path(rest_parts, rest_ids),
            decreases parts.len() - k,
        {
            assert(rest_parts[0] == parts@[k as int]);
            assert(rest_parts.drop_first() == parts@.skip(k + 1));
            let ghost before = uri@;
            push_char(&mut uri, '/');
            match parts[k] {
                PathPart::Path(p) => {
                    let pc = chars_of(p);
                    push_chars(&mut uri, pc.as_slice());
                    assert(build_path(rest_parts, rest_ids) == seq!['/'] + p@ + build_path(
                        rest_parts.drop_first(),
                        rest_ids,
                    )) by {
                        lemma_build_step(rest_parts, rest_ids);
                    }
                    assert(uri@ == before + (seq!['/'] + p@));
                    proof {
                        rest_parts = rest_parts.drop_first();
                    }
                },
                PathPart::Value => {
                    assert(rest_ids.len() > 0);
                    assert(used < ids.len());
                    assert(rest_ids[0] == ids@[used as int]);
                    assert(rest_ids.drop_first() == ids@.skip(used + 1));
                    let text = ids[used].to_chars();
                    push_chars(&mut uri, text.as_slice());
                    assert(build_path(rest_parts, rest_ids) == seq!['/'] + id_text(rest_ids[0])
                        + build_path(rest_parts.drop_first(), rest_ids.drop_first())) by {
                        lemma_build_step(rest_parts, rest_ids);
                    }
                    assert(uri@ == before + (seq!['/'] + id_text(rest_ids[0])));
                    used = used + 1;
                    proof {
                        rest_parts = rest_parts.drop_first();
                        rest_ids = rest_ids.drop_first();
                    }
                },
            }
            k = k + 1;
        }
        assert(rest_parts.len() == 0);
        assert(build_path(rest_parts, rest_ids) == Seq::<char>::empty());
        assert(uri@ + Seq::<char>::empty() == uri@);
        uri
    }
}

/// A run of value segments put in front of a successful reading.
pub open spec fn prepend(vs: Seq<Seq<char>>, r: Result<Seq<Seq<char>>, SpecfierParseError>) -> Result<
    Seq<Seq<char>>,
    SpecfierParseError,
> {
    match r {
        Ok(ws) => Ok(vs + ws),
        Err(e) => Err(e),
    }
}

pub proof fn lemma_prepend_empty(r: Result<Seq<Seq<char>>, SpecfierParseError>)
    ensures
        prepend(Seq::<Seq<char>>::empty(), r) == r,
{
    if let Ok(ws) = r {
        assert(Seq::<Seq<char>>::empty() + ws =~= ws);
    }
}

pub proof fn lemma_prepend_assoc(
    a: Seq<Seq<char>>,
    b: Seq<Seq<char>>,
    r: Result<Seq<Seq<char>>, SpecfierParseError>,
)
    ensures
        prepend(a, prepend(b, r)) == prepend(a + b, r),
{
    if let Ok(ws) = r {
        assert(a + (b + ws) =~= (a + b) + ws);
    }
}

pub proof fn lemma_build_step(parts: Seq<PathPart>, ids: Seq<Id>)
    requires
        parts.len() > 0,
    ensures
        parts[0] matches PathPart::Path(p) ==> build_path(parts, ids) == seq!['/'] + p@ + build_path(
            parts.drop_first(),
            ids,
        ),
        parts[0] is Value ==> build_path(parts, ids) == seq!['/'] + id_text(ids[0]) + build_path(
            parts.drop_first(),
            ids.drop_first(),
        ),
{
    let segs = segments_of(parts, ids);
    assert(segs.len() > 0);
    assert(join_segments(segs) == seq!['/'] + segs[0] + join_segments(segs.drop_first()));
    match parts[0] {
        PathPart::Path(p) => {
            assert(segs[0] == p@);
            assert(segs.drop_first() =~= segments_of(parts.drop_first(), ids));
        },
        PathPart::Value => {
            assert(segs[0] == id_text(ids[0]));
            assert(segs.drop_first() =~= segments_of(parts.drop_first(), ids.drop_first()));
        },
    }
}

/// The specifier that a path names, if any.
pub open spec fn specifier_of_path<S: Specifier>(path: Seq<char>) -> Result<S, SpecfierParseError> {
    match path_values(path, S::spec_parts()) {
        Ok(vs) => S::spec_from_ids(vs),
        Err(e) => Err(e),
    }
}

proof fn lemma_no_slash_pos(x: Seq<char>)
    requires
        !x.contains('/'),
    ensures
        crate::text::pos_of(x, '/') == x.len(),
{
    assert forall|j: int| 0 <= j < x.len() implies x[j] != '/' by {
        if x[j] == '/' {
            assert(x.contains('/'));
        }
    }
    crate::text::lemma_pos_of_unique(x, '/', x.len() as int);
}

proof fn lemma_split_join_tail(x: Seq<char>, rest: Seq<Seq<char>>)
    requires
        !x.contains('/'),
        forall|k: int| 0 <= k < rest.len() ==> !(#[trigger] rest[k]).contains('/'),
    ensures
        split_spec(x + join_segments(rest), '/') == seq![x] + rest,
    decreases rest.len(),
{
    if rest.len() == 0 {
        assert(x + join_segments(rest) =~= x);
        lemma_no_slash_pos(x);
        assert(seq![x] + rest =~= seq![x]);
    } else {
        let tail = rest[0] + join_segments(rest.drop_first());
        let whole = x + join_segments(rest);
        assert(join_segments(rest) == seq!['/'] + rest[0] + join_segments(rest.drop_first()));
        assert(whole =~= x + seq!['/'] + tail);
        assert forall|j: int| 0 <= j < x.len() implies whole[j] != '/' by {
            assert(whole[j] == x[j]);
            if x[j] == '/' {
                assert(x.contains('/'));
            }
        }
        assert(whole[x.len() as int] == '/');
        crate::text::lemma_pos_of_unique(whole, '/', x.len() as int);
        assert(whole.take(x.len() as int) =~= x);
        assert(whole.skip(x.len() as int + 1) =~= tail);
        assert forall|k: int| 0 <= k < rest.drop_first().len() implies !(
        #[trigger] rest.drop_first()[k]).contains('/') by {
            assert(rest.drop_first()[k] == rest[k + 1]);
        }
        lemma_split_join_tail(rest[0], rest.drop_first());
        assert(seq![x] + (seq![rest[0]] + rest.drop_first()) =~= seq![x] + rest);
    }
}

proof fn lemma_id_text_plain(id: Id)
    ensures
        !id_text(id).contains('/'),
{
    let n: int = match id {
        Id::I32(v) => v as int,
        Id::U64(v) => v as int,
    };
    let m: nat = if n < 0 {
        (-n) as nat
    } else {
        n as nat
    };
    crate::decimal::lemma_nat_to_dec_digits(m);
    let t = id_text(id);
    if t.contains('/') {
        let j = choose|j: int| 0 <= j < t.len() && t[j] == '/';
        if n < 0 {
            assert(t == seq!['-'] + crate::decimal::nat_to_dec(m));
            if j > 0 {
                assert(t[j] == crate::decimal::nat_to_dec(m)[j - 1]);
            }
        } else {
            assert(t == crate::decimal::nat_to_dec(m));
        }
    }
}

proof fn lemma_segments_plain(parts: Seq<PathPart>, ids: Seq<Id>)
    requires
        parts_are_plain(parts),
        ids.len() == value_count(parts),
    ensures
        forall|k: int|
            0 <= k < segments_of(parts, ids).len() ==> !(#[trigger] segments_of(parts, ids)[k]).contains('/'),
        segments_of(parts, ids).len() == parts.len(),
    decreases parts.len(),
{
    if parts.len() > 0 {
        let rest_ids = if parts[0] is Value {
            ids.drop_first()
        } else {
            ids
        };
        assert(parts_are_plain(parts.drop_first())) by {
            assert forall|k: int| 0 <= k < parts.drop_first().len() implies (
            #[trigger] parts.drop_first()[k] matches PathPart::Path(p) ==> !p@.contains('/')) by {
                assert(parts.drop_first()[k] == parts[k + 1]);
            }
        }
        lemma_segments_plain(parts.drop_first(), rest_ids);
        let segs = segments_of(parts, ids);
        let tail = segments_of(parts.drop_first(), rest_ids);
        match parts[0] {
            PathPart::Path(p) => {
                assert(!p@.contains('/'));
                assert(segs == seq![p@] + tail);
            },
            PathPart::Value => {
                lemma_id_text_plain(ids[0]);
                assert(segs == seq![id_text(ids[0])] + tail);
            },
        }
        assert forall|k: int| 0 <= k < segs.len() implies !(#[trigger] segs[k]).contains('/') by {
            if k > 0 {
                assert(segs[k] == tail[k - 1]);
            }
        }
    }
}

proof fn lemma_match_own_segments(parts: Seq<PathPart>, ids: Seq<Id>)
    requires
        ids.len() == value_count(parts),
    ensures
        match_segments(segments_of(parts, ids), parts) == Ok::<
            Seq<Seq<char>>,
            SpecfierParseError,
        >(ids.map_values(|id: Id| id_text(id))),
    decreases parts.len(),
{
    let texts = ids.map_values(|id: Id| id_text(id));
    if parts.len() == 0 {
        assert(texts =~= Seq::<Seq<char>>::empty());
    } else {
        let segs = segments_of(parts, ids);
        match parts[0] {
            PathPart::Path(p) => {
                lemma_match_own_segments(parts.drop_first(), ids);
                assert(segs == seq![p@] + segments_of(parts.drop_first(), ids));
                assert(segs.drop_first() =~= segments_of(parts.drop_first(), ids));
            },
            PathPart::Value => {
                lemma_match_own_segments(parts.drop_first(), ids.drop_first());
                assert(segs == seq![id_text(ids[0])] + segments_of(
                    parts.drop_first(),
                    ids.drop_first(),
                ));
                assert(segs.drop_first() =~= segments_of(parts.drop_first(), ids.drop_first()));
                assert(texts =~= seq![id_text(ids[0])] + ids.drop_first().map_values(
                    |id: Id| id_text(id),
                ));
            },
        }
    }
}

/// Law: the path that `to_uri` writes for a specifier is read back by
/// `from_uri` as that same specifier.
pub proof fn lemma_uri_round_trip<S: Specifier>(s: S)
    ensures
        specifier_of_path::<S>(build_path(S::spec_parts(), s.spec_ids())) == Ok::<
            S,
            SpecfierParseError,
        >(s),
{
    S::lemma_parts_plain();
    s.lemma_ids_round_trip();
    let parts = S::spec_parts();
    let ids = s.spec_ids();
    let segs = segments_of(parts, ids);
    lemma_segments_plain(parts, ids);
    let empty = Seq::<char>::empty();
    assert(!empty.contains('/'));
    lemma_split_join_tail(empty, segs);
    assert(empty + join_segments(segs) =~= build_path(parts, ids));
    let split = split_spec(build_path(parts, ids), '/');
    assert(split[0] == empty);
    assert(split.drop_first() =~= segs);
    lemma_match_own_segments(parts, ids);
}

pub proof fn lemma_value_count_push(parts: Seq<PathPart>, p: PathPart)
    ensures
        value_count(parts.push(p)) == value_count(parts) + (if p is Value {
            1nat
        } else {
            0nat
        }),
    decreases parts.len(),
{
    if parts.len() > 0 {
        assert(parts.push(p)[0] == parts[0]);
        assert(parts.push(p).drop_first() == parts.drop_first().push(p));
        lemma_value_count_push(parts.drop_first(), p);
    } else {
        assert(parts.push(p)[0] == p);
        assert(parts.push(p).drop_first() =~= Seq::<PathPart>::empty());
        assert(value_count(Seq::<PathPart>::empty()) == 0);
    }
}

/// A parsed URI (`http::Uri`); the library carries it and never looks inside.
#[verifier::external_type_specification]
#[verifier::external_body]
pub struct ExUri(http::Uri);

/// The error `http::Uri` parsing gives for a text that is no URI.
#[verifier::external_type_specification]
#[verifier::external_body]
pub struct ExInvalidUri(http::uri::InvalidUri);

/// The URI that `http::Uri` parsing makes of a text, where the text is a URI.
pub uninterp spec fn http_uri_parsed(text: Seq<char>) -> Option<http::Uri>;

/// The path of a URI text as `http::Uri` reads it, where the text is a URI.
pub uninterp spec fn http_uri_path(text: Seq<char>) -> Option<Seq<char>>;

/// Calls `str::parse::<http::Uri>` (that is `Uri::from_str`) and, where it
/// succeeds, `Uri::path`. Claims that it succeeds exactly where the text is a
/// URI, that the URI is `http_uri_parsed` of the text, and that its path is
/// `http_uri_path` of the text: the same text always parses to the same URI
/// with the same path, or always fails.
#[verifier::external_body]
pub(crate) fn parse_uri(text: &str) -> (r: Result<(http::Uri, String), http::uri::InvalidUri>)
    ensures
        match r {
            Ok(u) => http_uri_parsed(text@) == Some(u.0) && http_uri_path(text@) == Some(u.1@),
            Err(_) => http_uri_parsed(text@) is None && http_uri_path(text@) is None,
        },
{
    match text.parse::<http::Uri>() {
        Ok(uri) => {
            let path = uri.path().to_string();
            Ok((uri, path))
        },
        Err(e) => Err(e),
    }
}

/// Why a text names no specifier.
#[derive(Debug)]
pub enum SpecifierTextError {
    /// The text is no URI.
    Uri(http::uri::InvalidUri),
    /// The URI's path names no specifier of the kind.
    Specifier(SpecfierParseError),
}

/// Reads specifiers of one kind from texts, as a deserializer does.
pub struct SpecifierParser<S> {
    expecting: &'static str,
    _specifier: core::marker::PhantomData<S>,
}

impl<S> SpecifierParser<S> {
    /// The description of what the parser expects, read in contracts.
    pub closed spec fn spec_expecting(&self) -> &'static str {
        self.expecting
    }

    /// A parser that expects what `expecting` describes.
    pub fn new(expecting: &'static str) -> (r: Self)
        ensures
            r.spec_expecting() == expecting,
    {
        SpecifierParser { expecting, _specifier: core::marker::PhantomData }
    }

    /// What the parser expects, as the deserializer reports it.
    pub fn expecting(&self) -> (r: &'static str)
        ensures
            r == self.spec_expecting(),
    {
        self.expecting
    }
}

impl<S: Specifier> SpecifierParser<S> {
    /// The specifier a text names: the text is read as a URI and its path as a
    /// specifier.
    pub fn visit_str(&self, v: &str) -> (r: Result<S, SpecifierTextError>)
        ensures
            match http_uri_path(v@) {
                None => (r matches Err(SpecifierTextError::Uri(_))),
                Some(path) => match specifier_of_path::<S>(path) {
                    Ok(s) => r == Ok::<S, SpecifierTextError>(s),
                    Err(e) => (r matches Err(SpecifierTextError::Specifier(f)) && f == e),
                },
            },
    {
        match parse_uri(v) {
            Err(e) => Err(SpecifierTextError::Uri(e)),
            Ok((_, path)) => match S::from_uri(path.as_str()) {
                Ok(s) => Ok(s),
                Err(e) => Err(SpecifierTextError::Specifier(e)),
            },
        }
    }
}

} // verus!
