//! Character-level text helpers: comparison, decimal rendering and the
//! decimal integer grammar used by every command-line parser of the crate.
use vstd::prelude::*;
use vstd::string::*;

verus! {

/// Appends one character to a string (`String::push`).
/// Trusted: `String::push` appends exactly the given character at the end.
#[verifier::external_body]
pub(crate) fn string_push(s: &mut String, c: char)
    ensures
        final(s)@ == old(s)@.push(c),
{
    s.push(c);
}

/// Text equality of two string slices.
pub fn str_eq(a: &str, b: &str) -> (r: bool)
    ensures
        r == (a@ == b@),
{
    let x = a.to_owned();
    let y = b.to_owned();
    x == y
}

/// The views of a sequence of strings.
pub open spec fn texts(v: Seq<String>) -> Seq<Seq<char>> {
    v.map_values(|s: String| s@)
}

/// The decimal digit character for `d < 10`.
pub open spec fn digit_char(d: int) -> char {
    if d == 0 {
        '0'
    } else if d == 1 {
        '1'
    } else if d == 2 {
        '2'
    } else if d == 3 {
        '3'
    } else if d == 4 {
        '4'
    } else if d == 5 {
        '5'
    } else if d == 6 {
        '6'
    } else if d == 7 {
        '7'
    } else if d == 8 {
        '8'
    } else {
        '9'
    }
}

/// The shortest decimal rendering of `n`, as `u64::to_string` gives it.
pub open spec fn decimal(n: nat) -> Seq<char>
    decreases n,
{
    if n < 10 {
        seq![digit_char(n as int)]
    } else {
        decimal(n / 10) + seq![digit_char((n % 10) as int)]
    }
}

/// `s` left-padded with `'0'` up to `width` characters (`{:0width$}`).
pub open spec fn zero_padded(s: Seq<char>, width: nat) -> Seq<char> {
    if s.len() >= width {
        s
    } else {
        Seq::new((width - s.len()) as nat, |i: int| '0') + s
    }
}

fn digit_of(d: u64) -> (c: char)
    requires
        d < 10,
    ensures
        c == digit_char(d as int),
{
    if d == 0 {
        '0'
    } else if d == 1 {
        '1'
    } else if d == 2 {
        '2'
    } else if d == 3 {
        '3'
    } else if d == 4 {
        '4'
    } else if d == 5 {
        '5'
    } else if d == 6 {
        '6'
    } else if d == 7 {
        '7'
    } else if d == 8 {
        '8'
    } else {
        '9'
    }
}

/// Appends the decimal rendering of `n`.
pub fn push_decimal(out: &mut String, n: u64)
    ensures
        final(out)@ == old(out)@ + decimal(n as nat),
    decreases n,
{
    if n >= 10 {
        push_decimal(out, n / 10);
    }
    string_push(out, digit_of(n % 10));
    proof {
        assert(final(out)@ =~= old(out)@ + decimal(n as nat));
    }
}

/// A copy of a vector of strings, element by element.
pub fn copy_strings(v: &Vec<String>) -> (r: Vec<String>)
    ensures
        r@ == v@,
{
    let mut r: Vec<String> = Vec::new();
    let mut i: usize = 0;
    while i < v.len()
        invariant
            i <= v.len(),
            r@ == v@.take(i as int),
        decreases v.len() - i,
    {
        r.push(v[i].clone());
        i = i + 1;
        assert(r@ =~= v@.take(i as int));
    }
    assert(v@.take(v.len() as int) =~= v@);
    r
}

/// The decimal rendering of a signed number, as `i64::to_string` gives it.
pub open spec fn signed_decimal(n: int) -> Seq<char> {
    if n < 0 {
        seq!['-'] + decimal((-n) as nat)
    } else {
        decimal(n as nat)
    }
}

/// Appends the decimal rendering of the signed number `n`.
pub fn push_signed_decimal(out: &mut String, n: i64)
    ensures
        final(out)@ == old(out)@ + signed_decimal(n as int),
{
    if n < 0 {
        string_push(out, '-');
        let magnitude: u64 = (-(n + 1)) as u64 + 1;
        push_decimal(out, magnitude);
        proof {
            assert(final(out)@ =~= old(out)@ + signed_decimal(n as int));
        }
    } else {
        push_decimal(out, n as u64);
    }
}

/// The number of characters of the decimal rendering of `n`.
pub fn decimal_len(n: u64) -> (r: usize)
    ensures
        r == decimal(n as nat).len(),
    decreases n,
{
    if n >= 10 {
        let k = decimal_len(n / 10);
        proof {
            lemma_pow10_20();
            lemma_decimal_len_bound((n / 10) as nat, 19);
        }
        k + 1
    } else {
        1
    }
}

spec fn pow10(k: nat) -> nat
    decreases k,
{
    if k == 0 {
        1
    } else {
        10 * pow10((k - 1) as nat)
    }
}

proof fn lemma_pow10_20()
    ensures
        pow10(19) == 10_000_000_000_000_000_000nat,
{
    reveal_with_fuel(pow10, 20);
}

proof fn lemma_decimal_len_bound(n: nat, k: nat)
    requires
        k >= 1,
        n < pow10(k),
    ensures
        decimal(n).len() <= k,
    decreases k,
{
    if n >= 10 {
        assert(k >= 2) by {
            if k == 1 {
                reveal_with_fuel(pow10, 2);
            }
        }
        assert(n / 10 < pow10((k - 1) as nat));
        lemma_decimal_len_bound(n / 10, (k - 1) as nat);
    }
}

/// Appends the decimal rendering of `n`, zero-padded to `width` characters.
pub fn push_zero_padded(out: &mut String, n: u64, width: usize)
    ensures
        final(out)@ == old(out)@ + zero_padded(decimal(n as nat), width as nat),
{
    let len = decimal_len(n);
    let mut k: usize = len;
    while k < width
        invariant
            len == decimal(n as nat).len(),
            len <= k,
            k <= width || len > width,
            len >= width ==> k == len,
            out@ == old(out)@ + Seq::new((k - len) as nat, |i: int| '0'),
        decreases width - k,
    {
        string_push(out, '0');
        k = k + 1;
        proof {
            assert(out@ =~= old(out)@ + Seq::new((k - len) as nat, |i: int| '0'));
        }
    }
    let ghost pad = out@;
    push_decimal(out, n);
    proof {
        if len >= width {
            assert(k == len);
            assert(out@ =~= old(out)@ + zero_padded(decimal(n as nat), width as nat));
        } else {
            assert(out@ =~= old(out)@ + zero_padded(decimal(n as nat), width as nat));
        }
    }
}

/// Why a decimal integer could not be read, as `core::num::IntErrorKind` names it.
#[derive(Debug, Clone, Copy, PartialEq, Eq)]
pub enum IntErrorKind {
    Empty,
    InvalidDigit,
    PosOverflow,
    NegOverflow,
}

/// The text that `ParseIntError` displays for each kind.
pub open spec fn int_error_text(k: IntErrorKind) -> Seq<char> {
    match k {
        IntErrorKind::Empty => "cannot parse integer from empty string"@,
        IntErrorKind::InvalidDigit => "invalid digit found in string"@,
        IntErrorKind::PosOverflow => "number too large to fit in target type"@,
        IntErrorKind::NegOverflow => "number too small to fit in target type"@,
    }
}

/// The display text of a parse failure.
pub fn int_error_str(k: IntErrorKind) -> (s: &'static str)
    ensures
        s@ == int_error_text(k),
{
    match k {
        IntErrorKind::Empty => "cannot parse integer from empty string",
        IntErrorKind::InvalidDigit => "invalid digit found in string",
        IntErrorKind::PosOverflow => "number too large to fit in target type",
        IntErrorKind::NegOverflow => "number too small to fit in target type",
    }
}

/// A spec reading result as a machine integer.
pub open spec fn to_u64(r: Result<int, IntErrorKind>) -> Result<u64, IntErrorKind> {
    match r {
        Ok(v) => Ok(v as u64),
        Err(e) => Err(e),
    }
}

/// A spec reading result as a machine integer.
pub open spec fn to_i64(r: Result<int, IntErrorKind>) -> Result<i64, IntErrorKind> {
    match r {
        Ok(v) => Ok(v as i64),
        Err(e) => Err(e),
    }
}

pub open spec fn is_digit(c: char) -> bool {
    '0' <= c && c <= '9'
}

pub open spec fn digit_value(c: char) -> int {
    c as int - '0' as int
}

/// Reads the digits of `s` left to right onto `acc`; the first non-digit
/// gives `InvalidDigit`, the first step above `hi` gives `PosOverflow`.
pub open spec fn accumulate_up(acc: int, s: Seq<char>, hi: int) -> Result<int, IntErrorKind>
    decreases s.len(),
{
    if s.len() == 0 {
        Ok(acc)
    } else if !is_digit(s[0]) {
        Err(IntErrorKind::InvalidDigit)
    } else if acc * 10 + digit_value(s[0]) > hi {
        Err(IntErrorKind::PosOverflow)
    } else {
        accumulate_up(acc * 10 + digit_value(s[0]), s.drop_first(), hi)
    }
}

/// The negative counterpart of [`accumulate_up`]: digits are subtracted and
/// the first step below `lo` gives `NegOverflow`.
pub open spec fn accumulate_down(acc: int, s: Seq<char>, lo: int) -> Result<int, IntErrorKind>
    decreases s.len(),
{
    if s.len() == 0 {
        Ok(acc)
    } else if !is_digit(s[0]) {
        Err(IntErrorKind::InvalidDigit)
    } else if acc * 10 - digit_value(s[0]) < lo {
        Err(IntErrorKind::NegOverflow)
    } else {
        accumulate_down(acc * 10 - digit_value(s[0]), s.drop_first(), lo)
    }
}

/// Decimal reading of an unsigned integer type whose largest value is `hi`:
/// an optional `+`, then one or more ASCII digits.
pub open spec fn parse_unsigned(s: Seq<char>, hi: int) -> Result<int, IntErrorKind> {
    if s.len() == 0 {
        Err(IntErrorKind::Empty)
    } else if (s[0] == '+' || s[0] == '-') && s.len() == 1 {
        Err(IntErrorKind::InvalidDigit)
    } else if s[0] == '+' {
        accumulate_up(0, s.drop_first(), hi)
    } else {
        accumulate_up(0, s, hi)
    }
}

/// Decimal reading of a signed integer type with range `lo..=hi`:
/// an optional `+` or `-`, then one or more ASCII digits.
pub open spec fn parse_signed(s: Seq<char>, lo: int, hi: int) -> Result<int, IntErrorKind> {
    if s.len() == 0 {
        Err(IntErrorKind::Empty)
    } else if (s[0] == '+' || s[0] == '-') && s.len() == 1 {
        Err(IntErrorKind::InvalidDigit)
    } else if s[0] == '+' {
        accumulate_up(0, s.drop_first(), hi)
    } else if s[0] == '-' {
        accumulate_down(0, s.drop_first(), lo)
    } else {
        accumulate_up(0, s, hi)
    }
}

proof fn lemma_accumulate_up_range(acc: int, s: Seq<char>, hi: int)
    requires
        0 <= acc <= hi,
    ensures
        accumulate_up(acc, s, hi) matches Ok(v) ==> 0 <= v <= hi,
    decreases s.len(),
{
    if s.len() > 0 && is_digit(s[0]) && acc * 10 + digit_value(s[0]) <= hi {
        lemma_accumulate_up_range(acc * 10 + digit_value(s[0]), s.drop_first(), hi);
    }
}

proof fn lemma_accumulate_down_range(acc: int, s: Seq<char>, lo: int)
    requires
        lo <= acc <= 0,
    ensures
        accumulate_down(acc, s, lo) matches Ok(v) ==> lo <= v <= 0,
    decreases s.len(),
{
    if s.len() > 0 && is_digit(s[0]) && acc * 10 - digit_value(s[0]) >= lo {
        lemma_accumulate_down_range(acc * 10 - digit_value(s[0]), s.drop_first(), lo);
    }
}

/// A successful unsigned reading lies in `0..=hi`.
pub proof fn lemma_parse_unsigned_range(s: Seq<char>, hi: int)
    requires
        0 <= hi,
    ensures
        parse_unsigned(s, hi) matches Ok(v) ==> 0 <= v <= hi,
{
    if s.len() > 0 {
        lemma_accumulate_up_range(0, s.drop_first(), hi);
        lemma_accumulate_up_range(0, s, hi);
    }
}

/// A successful signed reading lies in `lo..=hi`.
pub proof fn lemma_parse_signed_range(s: Seq<char>, lo: int, hi: int)
    requires
        lo <= 0 <= hi,
    ensures
        parse_signed(s, lo, hi) matches Ok(v) ==> lo <= v <= hi,
{
    if s.len() > 0 {
        lemma_accumulate_up_range(0, s.drop_first(), hi);
        lemma_accumulate_up_range(0, s, hi);
        lemma_accumulate_down_range(0, s.drop_first(), lo);
    }
}

fn char_digit(c: char) -> (r: Option<u64>)
    ensures
        r is Some <==> is_digit(c),
        r matches Some(d) ==> d == digit_value(c) && d < 10,
{
    if c == '0' {
        Some(0)
    } else if c == '1' {
        Some(1)
    } else if c == '2' {
        Some(2)
    } else if c == '3' {
        Some(3)
    } else if c == '4' {
        Some(4)
    } else if c == '5' {
        Some(5)
    } else if c == '6' {
        Some(6)
    } else if c == '7' {
        Some(7)
    } else if c == '8' {
        Some(8)
    } else if c == '9' {
        Some(9)
    } else {
        None
    }
}

/// Reads digits of `s` from index `start` upward, as [`accumulate_up`].
fn read_digits_up(s: &str, start: usize, hi: u64) -> (r: Result<u64, IntErrorKind>)
    requires
        start <= s@.len(),
    ensures
        r == to_u64(accumulate_up(0, s@.skip(start as int), hi as int)),
        r matches Ok(v) ==> accumulate_up(0, s@.skip(start as int), hi as int) == Ok::<int, IntErrorKind>(v as int) && v <= hi,
{
    let n = s.unicode_len();
    let mut i = start;
    let mut acc: u64 = 0;
    proof {
        lemma_accumulate_up_range(0, s@.skip(start as int), hi as int);
    }
    while i < n
        invariant
            n == s@.len(),
            start <= i <= n,
            acc <= hi,
            accumulate_up(acc as int, s@.skip(i as int), hi as int) == accumulate_up(
                0,
                s@.skip(start as int),
                hi as int,
            ),
        decreases n - i,
    {
        let c = s.get_char(i);
        assert(s@.skip(i as int)[0] == c);
        assert(s@.skip(i as int).drop_first() =~= s@.skip(i + 1));
        match char_digit(c) {
            None => {
                return Err(IntErrorKind::InvalidDigit);
            },
            Some(d) => {
                let next: u128 = acc as u128 * 10 + d as u128;
                if next > hi as u128 {
                    return Err(IntErrorKind::PosOverflow);
                }
                acc = next as u64;
            },
        }
        i = i + 1;
    }
    assert(s@.skip(i as int).len() == 0);
    Ok(acc)
}

/// Reads digits of `s` from index `start` downward, as [`accumulate_down`].
fn read_digits_down(s: &str, start: usize, lo: i64) -> (r: Result<i64, IntErrorKind>)
    requires
        start <= s@.len(),
        lo <= 0,
    ensures
        r == to_i64(accumulate_down(0, s@.skip(start as int), lo as int)),
        r matches Ok(v) ==> accumulate_down(0, s@.skip(start as int), lo as int) == Ok::<int, IntErrorKind>(v as int),
{
    let n = s.unicode_len();
    let mut i = start;
    let mut acc: i64 = 0;
    proof {
        lemma_accumulate_down_range(0, s@.skip(start as int), lo as int);
    }
    while i < n
        invariant
            n == s@.len(),
            start <= i <= n,
            lo <= acc <= 0,
            accumulate_down(acc as int, s@.skip(i as int), lo as int) == accumulate_down(
                0,
                s@.skip(start as int),
                lo as int,
            ),
        decreases n - i,
    {
        let c = s.get_char(i);
        assert(s@.skip(i as int)[0] == c);
        assert(s@.skip(i as int).drop_first() =~= s@.skip(i + 1));
        match char_digit(c) {
            None => {
                return Err(IntErrorKind::InvalidDigit);
            },
            Some(d) => {
                let next: i128 = acc as i128 * 10 - d as i128;
                if next < lo as i128 {
                    return Err(IntErrorKind::NegOverflow);
                }
                acc = next as i64;
            },
        }
        i = i + 1;
    }
    assert(s@.skip(i as int).len() == 0);
    Ok(acc)
}

/// Reads an unsigned decimal integer no larger than `hi` (`str::parse` for
/// the unsigned type whose maximum is `hi`).
pub fn read_unsigned(s: &str, hi: u64) -> (r: Result<u64, IntErrorKind>)
    ensures
        r == to_u64(parse_unsigned(s@, hi as int)),
        r matches Ok(v) ==> parse_unsigned(s@, hi as int) == Ok::<int, IntErrorKind>(v as int),
        r is Err <==> parse_unsigned(s@, hi as int) is Err,
{
    let n = s.unicode_len();
    if n == 0 {
        return Err(IntErrorKind::Empty);
    }
    let c = s.get_char(0);
    if (c == '+' || c == '-') && n == 1 {
        return Err(IntErrorKind::InvalidDigit);
    }
    assert(s@.skip(0) =~= s@);
    if c == '+' {
        assert(s@.skip(1) =~= s@.drop_first());
        read_digits_up(s, 1, hi)
    } else {
        read_digits_up(s, 0, hi)
    }
}

/// Reads a signed decimal integer in `lo..=hi` (`str::parse` for the signed
/// type with that range).
pub fn read_signed(s: &str, lo: i64, hi: i64) -> (r: Result<i64, IntErrorKind>)
    requires
        lo <= 0 <= hi,
    ensures
        r == to_i64(parse_signed(s@, lo as int, hi as int)),
        r matches Ok(v) ==> parse_signed(s@, lo as int, hi as int) == Ok::<int, IntErrorKind>(v as int),
        r is Err <==> parse_signed(s@, lo as int, hi as int) is Err,
{
    let n = s.unicode_len();
    if n == 0 {
        return Err(IntErrorKind::Empty);
    }
    let c = s.get_char(0);
    if (c == '+' || c == '-') && n == 1 {
        return Err(IntErrorKind::InvalidDigit);
    }
    assert(s@.skip(0) =~= s@);
    assert(s@.skip(1) =~= s@.drop_first());
    if c == '+' {
        match read_digits_up(s, 1, hi as u64) {
            Ok(v) => Ok(v as i64),
            Err(e) => Err(e),
        }
    } else if c == '-' {
        read_digits_down(s, 1, lo)
    } else {
        match read_digits_up(s, 0, hi as u64) {
            Ok(v) => Ok(v as i64),
            Err(e) => Err(e),
        }
    }
}

} // verus!
