//! Character-level helpers shared by the header, path and token parsers.
use vstd::prelude::*;

verus! {

broadcast use vstd::string::group_string_axioms;

/// The characters of a string slice, in order.
pub fn chars_of(s: &str) -> (r: Vec<char>)
    ensures
        r@ == s@,
{
    let mut v: Vec<char> = Vec::new();
    for c in it: s.chars()
        invariant
            v@ == it.seq().take(it.index() as int),
    {
        v.push(c);
    }
    v
}

/// Appends one character to a string (`String::push`).
#[verifier::external_body]
pub(crate) fn push_char(s: &mut String, c: char)
    ensures
        final(s)@ == old(s)@.push(c),
{
    s.push(c);
}

/// Appends a run of characters to a string.
pub fn push_chars(s: &mut String, cs: &[char])
    ensures
        final(s)@ == old(s)@ + cs@,
{
    let ghost start = s@;
    for i in 0..cs.len()
        invariant
            s@ == start + cs@.take(i as int),
    {
        push_char(s, cs[i]);
        assert(cs@.take(i + 1) == cs@.take(i as int).push(cs@[i as int]));
    }
    assert(cs@.take(cs.len() as int) == cs@);
}

/// A string holding the given characters.
pub fn string_of(cs: &[char]) -> (r: String)
    ensures
        r@ == cs@,
{
    let mut r = String::new();
    push_chars(&mut r, cs);
    r
}

/// The characters `cs[start..end]` as a vector.
pub fn sub_chars(cs: &[char], start: usize, end: usize) -> (r: Vec<char>)
    requires
        start <= end <= cs.len(),
    ensures
        r@ == cs@.subrange(start as int, end as int),
{
    let mut r: Vec<char> = Vec::new();
    let mut i = start;
    while i < end
        invariant
            start <= i <= end <= cs.len(),
            r@ == cs@.subrange(start as int, i as int),
        decreases end - i,
    {
        r.push(cs[i]);
        i = i + 1;
    }
    r
}

/// Whether two character runs are equal.
pub fn chars_eq(a: &[char], b: &[char]) -> (r: bool)
    ensures
        r == (a@ == b@),
{
    if a.len() != b.len() {
        return false;
    }
    let mut i: usize = 0;
    while i < a.len()
        invariant
            a.len() == b.len(),
            i <= a.len(),
            forall|j: int| 0 <= j < i ==> a@[j] == b@[j],
        decreases a.len() - i,
    {
        if a[i] != b[i] {
            return false;
        }
        i = i + 1;
    }
    assert(a@ =~= b@);
    true
}

/// Whether a character run equals the characters of a string slice.
pub fn chars_eq_str(a: &[char], b: &str) -> (r: bool)
    ensures
        r == (a@ == b@),
{
    let bs = chars_of(b);
    chars_eq(a, bs.as_slice())
}

/// Index of the first occurrence of `c` in `s`, or `s.len()` when it does not occur.
pub open spec fn pos_of(s: Seq<char>, c: char) -> int
    decreases s.len(),
{
    if s.len() == 0 {
        0
    } else if s[0] == c {
        0
    } else {
        1 + pos_of(s.drop_first(), c)
    }
}

pub proof fn lemma_pos_of(s: Seq<char>, c: char)
    ensures
        0 <= pos_of(s, c) <= s.len(),
        forall|j: int| 0 <= j < pos_of(s, c) ==> s[j] != c,
        pos_of(s, c) < s.len() ==> s[pos_of(s, c)] == c,
    decreases s.len(),
{
    if s.len() > 0 && s[0] != c {
        lemma_pos_of(s.drop_first(), c);
        assert forall|j: int| 0 <= j < pos_of(s, c) implies s[j] != c by {
            if j > 0 {
                assert(s[j] == s.drop_first()[j - 1]);
            }
        }
    }
}

pub proof fn lemma_pos_of_unique(s: Seq<char>, c: char, k: int)
    requires
        0 <= k <= s.len(),
        forall|j: int| 0 <= j < k ==> s[j] != c,
        k < s.len() ==> s[k] == c,
    ensures
        pos_of(s, c) == k,
    decreases s.len(),
{
    if s.len() > 0 && k > 0 {
        assert forall|j: int| 0 <= j < k - 1 implies s.drop_first()[j] != c by {
            assert(s.drop_first()[j] == s[j + 1]);
        }
        lemma_pos_of_unique(s.drop_first(), c, k - 1);
    }
}

/// The two sides of the first occurrence of `c` (`str::split_once`).
pub open spec fn split_once_spec(s: Seq<char>, c: char) -> Option<(Seq<char>, Seq<char>)> {
    let p = pos_of(s, c);
    if p < s.len() {
        Some((s.take(p), s.skip(p + 1)))
    } else {
        None
    }
}

/// The pieces of `s` between occurrences of `c`, empty pieces included (`str::split`).
pub open spec fn split_spec(s: Seq<char>, c: char) -> Seq<Seq<char>>
    decreases s.len(),
{
    let p = pos_of(s, c);
    if p < s.len() {
        proof {
            lemma_pos_of(s, c);
        }
        seq![s.take(p)] + split_spec(s.skip(p + 1), c)
    } else {
        seq![s]
    }
}

pub proof fn lemma_split_nonempty(s: Seq<char>, c: char)
    ensures
        split_spec(s, c).len() >= 1,
{
}

/// Splitting at the first `c` of `a + [c] + b`, where `a` holds no `c`, gives `a` and `b`.
pub proof fn lemma_split_once_at(a: Seq<char>, c: char, b: Seq<char>)
    requires
        !a.contains(c),
    ensures
        split_once_spec(a + seq![c] + b, c) == Some((a, b)),
{
    let s = a + seq![c] + b;
    assert forall|j: int| 0 <= j < a.len() implies s[j] != c by {
        assert(s[j] == a[j]);
        if a[j] == c {
            assert(a.contains(c));
        }
    }
    assert(s[a.len() as int] == c);
    lemma_pos_of_unique(s, c, a.len() as int);
    assert(s.take(a.len() as int) =~= a);
    assert(s.skip(a.len() as int + 1) =~= b);
}

/// `c` occurs at `j` and at `j + 1`.
pub open spec fn pair_at(s: Seq<char>, c: char, j: int) -> bool {
    s[j] == c && s[j + 1] == c
}

/// Index of the first place where `c` occurs twice in a row, or `s.len()`.
pub open spec fn pos_of_pair(s: Seq<char>, c: char) -> int
    decreases s.len(),
{
    if s.len() < 2 {
        s.len() as int
    } else if s[0] == c && s[1] == c {
        0
    } else {
        1 + pos_of_pair(s.drop_first(), c)
    }
}

/// The two sides of the first `cc` (`str::split_once` with a two-character pattern).
pub open spec fn split_once_pair_spec(s: Seq<char>, c: char) -> Option<(Seq<char>, Seq<char>)> {
    let p = pos_of_pair(s, c);
    if p < s.len() {
        Some((s.take(p), s.skip(p + 2)))
    } else {
        None
    }
}

proof fn lemma_pos_of_pair_unique(s: Seq<char>, c: char, k: int)
    requires
        0 <= k <= s.len(),
        forall|j: int| 0 <= j < k && j + 1 < s.len() ==> !#[trigger] pair_at(s, c, j),
        k < s.len() ==> k + 1 < s.len() && s[k] == c && s[k + 1] == c,
        k == s.len() ==> forall|j: int| 0 <= j && j + 1 < s.len() ==> !#[trigger] pair_at(s, c, j),
    ensures
        pos_of_pair(s, c) == k,
    decreases s.len(),
{
    if s.len() >= 2 && k > 0 {
        let t = s.drop_first();
        assert(!pair_at(s, c, 0));
        assert forall|j: int| 0 <= j < k - 1 && j + 1 < t.len() implies !#[trigger] pair_at(t, c, j) by {
            assert(t[j] == s[j + 1] && t[j + 1] == s[j + 2]);
            assert(!pair_at(s, c, j + 1));
        }
        if k == s.len() {
            assert forall|j: int| 0 <= j && j + 1 < t.len() implies !#[trigger] pair_at(t, c, j) by {
                assert(t[j] == s[j + 1] && t[j + 1] == s[j + 2]);
                assert(!pair_at(s, c, j + 1));
            }
        } else {
            assert(t[k - 1] == s[k] && t[k] == s[k + 1]);
        }
        lemma_pos_of_pair_unique(t, c, k - 1);
    }
}

/// `str::split_once` with the pattern `cc`.
pub fn split_once_pair(cs: &[char], c: char) -> (r: Option<(Vec<char>, Vec<char>)>)
    ensures
        match r {
            Some((a, b)) => split_once_pair_spec(cs@, c) == Some((a@, b@)),
            None => split_once_pair_spec(cs@, c) is None,
        },
{
    let mut i: usize = 0;
    let mut found = false;
    while cs.len() > 0 && i < cs.len() - 1
        invariant
            !found,
            i <= cs.len(),
            forall|j: int| 0 <= j < i && j + 1 < cs.len() ==> !#[trigger] pair_at(cs@, c, j),
        decreases cs.len() - i,
    {
        if cs[i] == c && cs[i + 1] == c {
            proof {
                lemma_pos_of_pair_unique(cs@, c, i as int);
            }
            let a = sub_chars(cs, 0, i);
            let b = sub_chars(cs, i + 2, cs.len());
            return Some((a, b));
        }
        i = i + 1;
    }
    proof {
        lemma_pos_of_pair_unique(cs@, c, cs.len() as int);
    }
    None
}

/// Splitting `a + [c, c] + b` where `a` holds no `c` gives `a` and `b`.
pub proof fn lemma_split_once_pair_at(a: Seq<char>, c: char, b: Seq<char>)
    requires
        !a.contains(c),
    ensures
        split_once_pair_spec(a + seq![c, c] + b, c) == Some((a, b)),
{
    let s = a + seq![c, c] + b;
    assert forall|j: int| 0 <= j < a.len() && j + 1 < s.len() implies !#[trigger] pair_at(s, c, j) by {
        assert(s[j] == a[j]);
        if a[j] == c {
            assert(a.contains(c));
        }
    }
    lemma_pos_of_pair_unique(s, c, a.len() as int);
    assert(s.take(a.len() as int) =~= a);
    assert(s.skip(a.len() as int + 2) =~= b);
}

/// A text without `c` holds no `cc`.
pub proof fn lemma_no_pair(a: Seq<char>, c: char)
    requires
        !a.contains(c),
    ensures
        split_once_pair_spec(a, c) is None,
{
    assert forall|j: int| 0 <= j && j + 1 < a.len() implies !#[trigger] pair_at(a, c, j) by {
        if a[j] == c {
            assert(a.contains(c));
        }
    }
    lemma_pos_of_pair_unique(a, c, a.len() as int);
}

/// Position of the first `c` at or after `start`, or `cs.len()`.
pub fn find_char(cs: &[char], start: usize, c: char) -> (r: usize)
    requires
        start <= cs.len(),
    ensures
        r == start + pos_of(cs@.skip(start as int), c),
        start <= r <= cs.len(),
{
    let mut i = start;
    while i < cs.len() && cs[i] != c
        invariant
            start <= i <= cs.len(),
            forall|j: int| start <= j < i ==> cs@[j] != c,
        decreases cs.len() - i,
    {
        i = i + 1;
    }
    proof {
        let s = cs@.skip(start as int);
        lemma_pos_of_unique(s, c, i - start);
    }
    i
}

/// `str::split_once` on characters.
pub fn split_once(cs: &[char], c: char) -> (r: Option<(Vec<char>, Vec<char>)>)
    ensures
        match r {
            Some((a, b)) => split_once_spec(cs@, c) == Some((a@, b@)),
            None => split_once_spec(cs@, c) is None,
        },
{
    let p = find_char(cs, 0, c);
    assert(cs@.skip(0) == cs@);
    if p < cs.len() {
        let a = sub_chars(cs, 0, p);
        let b = sub_chars(cs, p + 1, cs.len());
        assert(a@ == cs@.take(p as int));
        assert(b@ == cs@.skip(p + 1));
        Some((a, b))
    } else {
        None
    }
}

pub proof fn lemma_split_step(s: Seq<char>, c: char)
    ensures
        pos_of(s, c) < s.len() ==> split_spec(s, c) == seq![s.take(pos_of(s, c))]
            + split_spec(s.skip(pos_of(s, c) + 1), c),
        pos_of(s, c) >= s.len() ==> split_spec(s, c) == seq![s],
{
}

/// The character views of a sequence of character vectors.
pub open spec fn pieces_view(r: Seq<Vec<char>>) -> Seq<Seq<char>> {
    r.map_values(|v: Vec<char>| v@)
}

/// `str::split` on characters: every piece between occurrences of `c`.
pub fn split_chars(cs: &[char], c: char) -> (r: Vec<Vec<char>>)
    ensures
        pieces_view(r@) == split_spec(cs@, c),
{
    let mut r: Vec<Vec<char>> = Vec::new();
    let mut start: usize = 0;
    assert(cs@.skip(0) == cs@);
    loop
        invariant
            start <= cs.len(),
            pieces_view(r@) + split_spec(cs@.skip(start as int), c) == split_spec(cs@, c),
        decreases cs.len() - start,
    {
        let ghost s = cs@.skip(start as int);
        let p = find_char(cs, start, c);
        let piece = sub_chars(cs, start, p);
        proof {
            lemma_pos_of(s, c);
            lemma_split_step(s, c);
            assert(piece@ == s.take(p - start));
        }
        let ghost before = pieces_view(r@);
        r.push(piece);
        assert(pieces_view(r@) =~= before.push(piece@));
        if p < cs.len() {
            assert(cs@.skip(p + 1) == s.skip(p - start + 1));
            assert(pieces_view(r@) + split_spec(cs@.skip(p + 1), c) == before + (seq![piece@]
                + split_spec(s.skip(p - start + 1), c)));
            start = p + 1;
        } else {
            assert(piece@ == s);
            assert(pieces_view(r@) == before + seq![s]);
            return r;
        }
    }
}

/// Unicode `White_Space`, as `char::is_whitespace` tests it.
pub open spec fn is_whitespace(c: char) -> bool {
    let u = c as u32;
    (0x9 <= u && u <= 0xd) || u == 0x20 || u == 0x85 || u == 0xa0 || u == 0x1680 || (0x2000 <= u
        && u <= 0x200a) || u == 0x2028 || u == 0x2029 || u == 0x202f || u == 0x205f || u == 0x3000
}

/// `char::is_whitespace`.
pub fn char_is_whitespace(c: char) -> (r: bool)
    ensures
        r == is_whitespace(c),
{
    let u = c as u32;
    (0x9 <= u && u <= 0xd) || u == 0x20 || u == 0x85 || u == 0xa0 || u == 0x1680 || (0x2000 <= u
        && u <= 0x200a) || u == 0x2028 || u == 0x2029 || u == 0x202f || u == 0x205f || u == 0x3000
}

/// Number of whitespace characters that `s` starts with.
pub open spec fn leading_ws(s: Seq<char>) -> int
    decreases s.len(),
{
    if s.len() == 0 {
        0
    } else if is_whitespace(s[0]) {
        1 + leading_ws(s.drop_first())
    } else {
        0
    }
}

/// Number of whitespace characters that `s` ends with.
pub open spec fn trailing_ws(s: Seq<char>) -> int
    decreases s.len(),
{
    if s.len() == 0 {
        0
    } else if is_whitespace(s.last()) {
        1 + trailing_ws(s.drop_last())
    } else {
        0
    }
}

/// `s` without leading and trailing whitespace (`str::trim`).
pub open spec fn trim_spec(s: Seq<char>) -> Seq<char> {
    if leading_ws(s) >= s.len() {
        Seq::<char>::empty()
    } else {
        s.subrange(leading_ws(s), s.len() - trailing_ws(s))
    }
}

proof fn lemma_leading_ws_unique(s: Seq<char>, k: int)
    requires
        0 <= k <= s.len(),
        forall|j: int| 0 <= j < k ==> is_whitespace(s[j]),
        k < s.len() ==> !is_whitespace(s[k]),
    ensures
        leading_ws(s) == k,
    decreases s.len(),
{
    if s.len() > 0 && k > 0 {
        assert forall|j: int| 0 <= j < k - 1 implies is_whitespace(s.drop_first()[j]) by {
            assert(s.drop_first()[j] == s[j + 1]);
        }
        lemma_leading_ws_unique(s.drop_first(), k - 1);
    }
}

proof fn lemma_trailing_ws_unique(s: Seq<char>, k: int)
    requires
        0 <= k <= s.len(),
        forall|j: int| s.len() - k <= j < s.len() ==> is_whitespace(s[j]),
        k < s.len() ==> !is_whitespace(s[s.len() - k - 1]),
    ensures
        trailing_ws(s) == k,
    decreases s.len(),
{
    if s.len() > 0 && k > 0 {
        assert forall|j: int| s.drop_last().len() - (k - 1) <= j < s.drop_last().len() implies is_whitespace(
            s.drop_last()[j],
        ) by {
            assert(s.drop_last()[j] == s[j]);
        }
        lemma_trailing_ws_unique(s.drop_last(), k - 1);
    }
}

/// `str::trim` on characters.
pub fn trim_chars(cs: &[char]) -> (r: Vec<char>)
    ensures
        r@ == trim_spec(cs@),
{
    let mut a: usize = 0;
    while a < cs.len() && char_is_whitespace(cs[a])
        invariant
            a <= cs.len(),
            forall|j: int| 0 <= j < a ==> is_whitespace(cs@[j]),
        decreases cs.len() - a,
    {
        a = a + 1;
    }
    proof {
        lemma_leading_ws_unique(cs@, a as int);
    }
    if a >= cs.len() {
        return Vec::new();
    }
    let mut b: usize = cs.len();
    while b > a && char_is_whitespace(cs[b - 1])
        invariant
            a < cs.len(),
            a <= b <= cs.len(),
            !is_whitespace(cs@[a as int]),
            forall|j: int| b <= j < cs.len() ==> is_whitespace(cs@[j]),
        decreases b,
    {
        b = b - 1;
    }
    proof {
        lemma_trailing_ws_unique(cs@, (cs.len() - b) as int);
    }
    sub_chars(cs, a, b)
}

/// Whether `part` occurs in `s` as a run of consecutive characters.
pub open spec fn occurs_text(s: Seq<char>, part: Seq<char>) -> bool {
    exists|i: int| 0 <= i && i + part.len() <= s.len() && #[trigger] s.subrange(i, i + part.len()) == part
}

/// A text holds what stands in its middle.
pub proof fn lemma_contains_middle(a: Seq<char>, part: Seq<char>, b: Seq<char>)
    ensures
        occurs_text(a + part + b, part),
{
    let s = a + part + b;
    assert(s.subrange(a.len() as int, (a.len() + part.len()) as int) =~= part);
}

/// What a text holds, a longer text around it holds too.
pub proof fn lemma_contains_within(s: Seq<char>, part: Seq<char>, a: Seq<char>, b: Seq<char>)
    requires
        occurs_text(s, part),
    ensures
        occurs_text(a + s + b, part),
{
    let i = choose|i: int| 0 <= i && i + part.len() <= s.len() && #[trigger] s.subrange(i, i + part.len()) == part;
    let t = a + s + b;
    assert(t.subrange(a.len() + i, a.len() + i + part.len()) =~= s.subrange(i, i + part.len()));
}

/// The joined text of pieces holds each piece.
pub proof fn lemma_flatten_contains(pieces: Seq<Seq<char>>, k: int)
    requires
        0 <= k < pieces.len(),
    ensures
        occurs_text(pieces.flatten(), pieces[k]),
    decreases pieces.len(),
{
    let rest = pieces.drop_first().flatten();
    assert(pieces.flatten() == pieces.first() + rest);
    if k == 0 {
        lemma_contains_middle(Seq::empty(), pieces[0], rest);
        assert(Seq::<char>::empty() + pieces[0] + rest =~= pieces.flatten());
    } else {
        lemma_flatten_contains(pieces.drop_first(), k - 1);
        assert(pieces.drop_first()[k - 1] == pieces[k]);
        lemma_contains_within(rest, pieces[k], pieces.first(), Seq::empty());
        assert(pieces.first() + rest + Seq::<char>::empty() =~= pieces.flatten());
    }
}

} // verus!
