//! Decimal integers: parsing with the rules of `str::parse` for the integer
//! types, and formatting as `Display` writes them.
use vstd::prelude::*;

verus! {

/// Why a decimal integer failed to parse (the kinds of `std::num::ParseIntError`).
#[derive(Debug, Clone, Copy, PartialEq, Eq, Structural)]
pub enum IntErrorKind {
    Empty,
    InvalidDigit,
    PosOverflow,
    NegOverflow,
}

pub open spec fn is_digit(c: char) -> bool {
    '0' <= c && c <= '9'
}

pub open spec fn digit_value(c: char) -> int {
    (c as int) - ('0' as int)
}

pub open spec fn digit_char(d: int) -> char {
    (d + ('0' as int)) as char
}

/// Reads digits left to right into `acc`; a non-digit fails before a value that
/// passes `bound` does, and the first of either decides.
pub open spec fn scan_digits(s: Seq<char>, acc: int, bound: int, overflow: IntErrorKind) -> Result<
    int,
    IntErrorKind,
>
    decreases s.len(),
{
    if s.len() == 0 {
        Ok(acc)
    } else if !is_digit(s[0]) {
        Err(IntErrorKind::InvalidDigit)
    } else if acc * 10 + digit_value(s[0]) > bound {
        Err(overflow)
    } else {
        scan_digits(s.drop_first(), acc * 10 + digit_value(s[0]), bound, overflow)
    }
}

/// The value of a decimal integer in `[min, max]`: an optional sign (`-` only
/// when `min < 0`) followed by digits.
pub open spec fn parse_int_spec(s: Seq<char>, min: int, max: int) -> Result<int, IntErrorKind> {
    if s.len() == 0 {
        Err(IntErrorKind::Empty)
    } else if s.len() == 1 && (s[0] == '+' || s[0] == '-') {
        Err(IntErrorKind::InvalidDigit)
    } else if s[0] == '+' {
        scan_digits(s.drop_first(), 0, max, IntErrorKind::PosOverflow)
    } else if s[0] == '-' && min < 0 {
        match scan_digits(s.drop_first(), 0, -min, IntErrorKind::NegOverflow) {
            Ok(v) => Ok(-v),
            Err(e) => Err(e),
        }
    } else {
        scan_digits(s, 0, max, IntErrorKind::PosOverflow)
    }
}

/// Decimal digits of a natural number, without leading zeros.
pub open spec fn nat_to_dec(n: nat) -> Seq<char>
    decreases n,
{
    if n < 10 {
        seq![digit_char(n as int)]
    } else {
        nat_to_dec(n / 10).push(digit_char((n % 10) as int))
    }
}

/// Decimal text of an integer, with `-` before negative values.
pub open spec fn int_to_dec(n: int) -> Seq<char> {
    if n < 0 {
        seq!['-'] + nat_to_dec((-n) as nat)
    } else {
        nat_to_dec(n as nat)
    }
}

pub open spec fn int_result(r: Result<i128, IntErrorKind>) -> Result<int, IntErrorKind> {
    match r {
        Ok(v) => Ok(v as int),
        Err(e) => Err(e),
    }
}

proof fn lemma_scan_bounded(s: Seq<char>, acc: int, bound: int, overflow: IntErrorKind)
    requires
        0 <= acc <= bound,
    ensures
        scan_digits(s, acc, bound, overflow) matches Ok(v) ==> 0 <= v <= bound,
    decreases s.len(),
{
    if s.len() > 0 && is_digit(s[0]) && acc * 10 + digit_value(s[0]) <= bound {
        lemma_scan_bounded(s.drop_first(), acc * 10 + digit_value(s[0]), bound, overflow);
    }
}

fn scan_exec(cs: &[char], start: usize, bound: i128, overflow: IntErrorKind) -> (r: Result<
    i128,
    IntErrorKind,
>)
    requires
        start <= cs.len(),
        0 <= bound <= 0x1_0000_0000_0000_0000,
    ensures
        int_result(r) == scan_digits(cs@.skip(start as int), 0, bound as int, overflow),
        r matches Ok(v) ==> 0 <= v <= bound,
{
    let mut acc: i128 = 0;
    let mut i = start;
    proof {
        lemma_scan_bounded(cs@.skip(start as int), 0, bound as int, overflow);
    }
    while i < cs.len()
        invariant
            start <= i <= cs.len(),
            0 <= acc <= bound,
            0 <= bound <= 0x1_0000_0000_0000_0000,
            scan_digits(cs@.skip(start as int), 0, bound as int, overflow) == scan_digits(
                cs@.skip(i as int),
                acc as int,
                bound as int,
                overflow,
            ),
        decreases cs.len() - i,
    {
        let c = cs[i];
        assert(cs@.skip(i as int)[0] == c);
        assert(cs@.skip(i as int).drop_first() == cs@.skip(i + 1));
        if !('0' <= c && c <= '9') {
            return Err(IntErrorKind::InvalidDigit);
        }
        let d = (c as u32 - '0' as u32) as i128;
        assert(d == digit_value(c));
        let next = acc * 10 + d;
        if next > bound {
            return Err(overflow);
        }
        acc = next;
        i = i + 1;
    }
    assert(cs@.skip(i as int).len() == 0);
    Ok(acc)
}

/// Parses a decimal integer in `[min, max]` as `str::parse` does for the
/// integer type with those bounds.
pub fn parse_int(cs: &[char], min: i128, max: i128) -> (r: Result<i128, IntErrorKind>)
    requires
        -0x1_0000_0000_0000_0000 <= min <= 0 <= max <= 0x1_0000_0000_0000_0000,
    ensures
        int_result(r) == parse_int_spec(cs@, min as int, max as int),
        r matches Ok(v) ==> min <= v <= max,
{
    if cs.len() == 0 {
        return Err(IntErrorKind::Empty);
    }
    if cs.len() == 1 && (cs[0] == '+' || cs[0] == '-') {
        return Err(IntErrorKind::InvalidDigit);
    }
    assert(cs@.skip(1) == cs@.drop_first());
    assert(cs@.skip(0) == cs@);
    if cs[0] == '+' {
        scan_exec(cs, 1, max, IntErrorKind::PosOverflow)
    } else if cs[0] == '-' && min < 0 {
        match scan_exec(cs, 1, -min, IntErrorKind::NegOverflow) {
            Ok(v) => Ok(-v),
            Err(e) => Err(e),
        }
    } else {
        scan_exec(cs, 0, max, IntErrorKind::PosOverflow)
    }
}

/// `str::parse::<i32>`.
pub open spec fn parse_i32_spec(s: Seq<char>) -> Result<i32, IntErrorKind> {
    match parse_int_spec(s, i32::MIN as int, i32::MAX as int) {
        Ok(v) => Ok(v as i32),
        Err(e) => Err(e),
    }
}

/// `str::parse::<u32>`.
pub open spec fn parse_u32_spec(s: Seq<char>) -> Result<u32, IntErrorKind> {
    match parse_int_spec(s, 0, u32::MAX as int) {
        Ok(v) => Ok(v as u32),
        Err(e) => Err(e),
    }
}

/// `str::parse::<u64>`.
pub open spec fn parse_u64_spec(s: Seq<char>) -> Result<u64, IntErrorKind> {
    match parse_int_spec(s, 0, u64::MAX as int) {
        Ok(v) => Ok(v as u64),
        Err(e) => Err(e),
    }
}

/// `str::parse::<usize>`.
pub open spec fn parse_usize_spec(s: Seq<char>) -> Result<usize, IntErrorKind> {
    match parse_int_spec(s, 0, usize::MAX as int) {
        Ok(v) => Ok(v as usize),
        Err(e) => Err(e),
    }
}

/// Parses an `i32` the way `str::parse::<i32>` does.
pub fn parse_i32(cs: &[char]) -> (r: Result<i32, IntErrorKind>)
    ensures
        r == parse_i32_spec(cs@),
{
    match parse_int(cs, i32::MIN as i128, i32::MAX as i128) {
        Ok(v) => Ok(v as i32),
        Err(e) => Err(e),
    }
}

/// Parses a `u32` the way `str::parse::<u32>` does.
pub fn parse_u32(cs: &[char]) -> (r: Result<u32, IntErrorKind>)
    ensures
        r == parse_u32_spec(cs@),
{
    match parse_int(cs, 0, u32::MAX as i128) {
        Ok(v) => Ok(v as u32),
        Err(e) => Err(e),
    }
}

/// Parses a `u64` the way `str::parse::<u64>` does.
pub fn parse_u64(cs: &[char]) -> (r: Result<u64, IntErrorKind>)
    ensures
        r == parse_u64_spec(cs@),
{
    match parse_int(cs, 0, u64::MAX as i128) {
        Ok(v) => Ok(v as u64),
        Err(e) => Err(e),
    }
}

/// Parses a `usize` the way `str::parse::<usize>` does.
pub fn parse_usize(cs: &[char]) -> (r: Result<usize, IntErrorKind>)
    ensures
        r == parse_usize_spec(cs@),
{
    match parse_int(cs, 0, usize::MAX as i128) {
        Ok(v) => Ok(v as usize),
        Err(e) => Err(e),
    }
}

fn digit_to_char(d: u64) -> (c: char)
    requires
        d < 10,
    ensures
        c == digit_char(d as int),
        is_digit(c),
        digit_value(c) == d,
{
    let c = ((d as u8) + 48u8) as char;
    assert(c as int == d + 48);
    c
}

fn push_nat_digits(n: u64, out: &mut Vec<char>)
    ensures
        final(out)@ == old(out)@ + nat_to_dec(n as nat),
    decreases n,
{
    if n >= 10 {
        push_nat_digits(n / 10, out);
    }
    let c = digit_to_char(n % 10);
    let ghost mid = out@;
    out.push(c);
    proof {
        if n >= 10 {
            assert(nat_to_dec(n as nat) == nat_to_dec((n / 10) as nat).push(c));
            assert(out@ == old(out)@ + nat_to_dec(n as nat));
        } else {
            assert(nat_to_dec(n as nat) == seq![c]);
            assert(out@ =~= old(out)@ + nat_to_dec(n as nat));
        }
    }
}

/// Decimal text of a `u64`, as `Display` writes it.
pub fn format_u64(n: u64) -> (r: Vec<char>)
    ensures
        r@ == int_to_dec(n as int),
{
    let mut out: Vec<char> = Vec::new();
    push_nat_digits(n, &mut out);
    assert(out@ =~= nat_to_dec(n as nat));
    out
}

/// Decimal text of an `i64`, as `Display` writes it.
pub fn format_i64(n: i64) -> (r: Vec<char>)
    ensures
        r@ == int_to_dec(n as int),
{
    let mut out: Vec<char> = Vec::new();
    if n < 0 {
        out.push('-');
        let m: u64 = if n == i64::MIN {
            0x8000_0000_0000_0000u64
        } else {
            (-n) as u64
        };
        push_nat_digits(m, &mut out);
        assert(out@ =~= seq!['-'] + nat_to_dec((-n) as nat));
    } else {
        push_nat_digits(n as u64, &mut out);
        assert(out@ =~= nat_to_dec(n as nat));
    }
    out
}

pub proof fn lemma_nat_to_dec_digits(n: nat)
    ensures
        nat_to_dec(n).len() >= 1,
        forall|j: int| 0 <= j < nat_to_dec(n).len() ==> is_digit(#[trigger] nat_to_dec(n)[j]),
    decreases n,
{
    if n >= 10 {
        lemma_nat_to_dec_digits(n / 10);
    }
}

/// The decimal text of a natural number holds only digits.
pub proof fn lemma_nat_to_dec_lacks(n: nat, c: char)
    requires
        !is_digit(c),
    ensures
        !nat_to_dec(n).contains(c),
        nat_to_dec(n).len() >= 1,
        is_digit(nat_to_dec(n)[0]),
{
    lemma_nat_to_dec_digits(n);
    if nat_to_dec(n).contains(c) {
        let j = choose|j: int| 0 <= j < nat_to_dec(n).len() && nat_to_dec(n)[j] == c;
        assert(is_digit(nat_to_dec(n)[j]));
    }
}

proof fn lemma_scan_concat(a: Seq<char>, b: Seq<char>, acc: int, bound: int, overflow: IntErrorKind)
    ensures
        scan_digits(a + b, acc, bound, overflow) == (match scan_digits(a, acc, bound, overflow) {
            Ok(v) => scan_digits(b, v, bound, overflow),
            Err(e) => Err(e),
        }),
    decreases a.len(),
{
    if a.len() == 0 {
        assert(a + b == b);
    } else {
        assert((a + b)[0] == a[0]);
        assert((a + b).drop_first() == a.drop_first() + b);
        lemma_scan_concat(a.drop_first(), b, acc * 10 + digit_value(a[0]), bound, overflow);
    }
}

proof fn lemma_scan_nat_to_dec(n: nat, bound: int, overflow: IntErrorKind)
    requires
        n <= bound,
    ensures
        scan_digits(nat_to_dec(n), 0, bound, overflow) == Ok::<int, IntErrorKind>(n as int),
    decreases n,
{
    let d = digit_char((n % 10) as int);
    assert(is_digit(d) && digit_value(d) == n % 10);
    let single = seq![d];
    assert(single.drop_first().len() == 0);
    let acc: int = (n / 10) as int;
    assert(acc * 10 + digit_value(d) == n);
    assert(scan_digits(single.drop_first(), n as int, bound, overflow) == Ok::<int, IntErrorKind>(
        n as int,
    ));
    assert(scan_digits(single, acc, bound, overflow) == Ok::<int, IntErrorKind>(n as int));
    if n < 10 {
        assert(nat_to_dec(n) == single);
    } else {
        lemma_scan_nat_to_dec(n / 10, bound, overflow);
        assert(nat_to_dec(n) == nat_to_dec(n / 10) + single);
        lemma_scan_concat(nat_to_dec(n / 10), single, 0, bound, overflow);
        assert((n / 10) * 10 + n % 10 == n);
    }
}

/// Formatting an integer in `[min, max]` and parsing the text back gives the integer.
pub proof fn lemma_parse_int_to_dec(n: int, min: int, max: int)
    requires
        min <= n <= max,
        min <= 0 <= max,
    ensures
        parse_int_spec(int_to_dec(n), min, max) == Ok::<int, IntErrorKind>(n),
{
    if n < 0 {
        let k = (-n) as nat;
        lemma_nat_to_dec_digits(k);
        lemma_scan_nat_to_dec(k, -min, IntErrorKind::NegOverflow);
        let s = int_to_dec(n);
        assert(s[0] == '-');
        assert(s.drop_first() == nat_to_dec(k));
    } else {
        let k = n as nat;
        lemma_nat_to_dec_digits(k);
        lemma_scan_nat_to_dec(k, max, IntErrorKind::PosOverflow);
        assert(is_digit(nat_to_dec(k)[0]));
    }
}

/// `k` zeros.
pub open spec fn zeros(k: int) -> Seq<char> {
    Seq::new(if k < 0 { 0 } else { k as nat }, |i: int| '0')
}

/// Digits padded with leading zeros to at least `w` characters.
pub open spec fn padded(digits: Seq<char>, w: int) -> Seq<char> {
    if digits.len() < w {
        zeros(w - digits.len()) + digits
    } else {
        digits
    }
}

/// Decimal text of an integer with zeros between the sign and the digits up to
/// a width of `w` characters, as the format `{:0w}` writes it.
pub open spec fn zero_padded(n: int, w: int) -> Seq<char> {
    if n < 0 {
        seq!['-'] + padded(nat_to_dec((-n) as nat), w - 1)
    } else {
        padded(nat_to_dec(n as nat), w)
    }
}

fn push_zeros(out: &mut Vec<char>, k: usize)
    ensures
        final(out)@ == old(out)@ + zeros(k as int),
{
    let mut i: usize = 0;
    while i < k
        invariant
            i <= k,
            out@ == old(out)@ + zeros(i as int),
        decreases k - i,
    {
        out.push('0');
        i = i + 1;
        assert(out@ =~= old(out)@ + zeros(i as int));
    }
}

/// Decimal text of an `i64` in a field of `w` characters filled with zeros
/// after the sign.
pub fn format_zero_padded(n: i64, w: usize) -> (r: Vec<char>)
    ensures
        r@ == zero_padded(n as int, w as int),
{
    let mut out: Vec<char> = Vec::new();
    let mut digits: Vec<char> = Vec::new();
    let mut width = w;
    if n < 0 {
        out.push('-');
        let m: u64 = if n == i64::MIN {
            9223372036854775808u64
        } else {
            (-n) as u64
        };
        push_nat_digits(m, &mut digits);
        width = if w == 0 { 0 } else { w - 1 };
    } else {
        push_nat_digits(n as u64, &mut digits);
    }
    assert(digits@ =~= Seq::<char>::empty() + digits@);
    if digits.len() < width {
        push_zeros(&mut out, width - digits.len());
    }
    let mut i: usize = 0;
    let ghost before = out@;
    while i < digits.len()
        invariant
            i <= digits.len(),
            out@ == before + digits@.take(i as int),
        decreases digits.len() - i,
    {
        out.push(digits[i]);
        i = i + 1;
        assert(out@ =~= before + digits@.take(i as int));
    }
    assert(digits@.take(digits.len() as int) =~= digits@);
    proof {
        if n < 0 {
            assert(w == 0 ==> zeros((w as int - 1) - digits@.len()) =~= Seq::<char>::empty());
            assert(out@ =~= zero_padded(n as int, w as int));
        } else {
            assert(out@ =~= zero_padded(n as int, w as int));
        }
    }
    out
}

/// Decimal texts of small numbers are short.
pub proof fn lemma_nat_to_dec_short(n: nat)
    ensures
        n < 10 ==> nat_to_dec(n).len() == 1,
        n < 100 ==> nat_to_dec(n).len() <= 2,
        n < 1000 ==> nat_to_dec(n).len() <= 3,
        n < 10000 ==> nat_to_dec(n).len() <= 4,
{
    reveal_with_fuel(nat_to_dec, 5);
}

proof fn lemma_scan_zeros(k: int, bound: int, overflow: IntErrorKind)
    requires
        0 <= bound,
    ensures
        scan_digits(zeros(k), 0, bound, overflow) == Ok::<int, IntErrorKind>(0),
    decreases k,
{
    if k > 0 {
        assert(zeros(k).drop_first() =~= zeros(k - 1));
        assert(is_digit(zeros(k)[0]) && digit_value(zeros(k)[0]) == 0);
        lemma_scan_zeros(k - 1, bound, overflow);
    } else {
        assert(zeros(k).len() == 0);
    }
}

/// Zero-padded text parses back to its number.
pub proof fn lemma_parse_zero_padded(n: int, w: int, min: int, max: int)
    requires
        min <= n <= max,
        min <= 0 <= max,
    ensures
        parse_int_spec(zero_padded(n, w), min, max) == Ok::<int, IntErrorKind>(n),
{
    let k: nat = if n < 0 { (-n) as nat } else { n as nat };
    let d = nat_to_dec(k);
    let ww = if n < 0 { w - 1 } else { w };
    let bound = if n < 0 { -min } else { max };
    let ov = if n < 0 { IntErrorKind::NegOverflow } else { IntErrorKind::PosOverflow };
    lemma_nat_to_dec_digits(k);
    lemma_scan_nat_to_dec(k, bound, ov);
    let body = padded(d, ww);
    if d.len() < ww {
        lemma_scan_zeros(ww - d.len(), bound, ov);
        lemma_scan_concat(zeros(ww - d.len()), d, 0, bound, ov);
        assert(body[0] == '0');
    } else {
        assert(body[0] == d[0]);
    }
    assert(scan_digits(body, 0, bound, ov) == Ok::<int, IntErrorKind>(k as int));
    assert(body.len() >= 1);
    if n < 0 {
        assert(zero_padded(n, w).drop_first() =~= body);
        assert(zero_padded(n, w)[0] == '-');
    } else {
        assert(zero_padded(n, w) == body);
        assert(body[0] != '+' && body[0] != '-');
    }
}

} // verus!
