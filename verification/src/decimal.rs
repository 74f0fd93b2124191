//! Numbers written in decimal: how they are printed and how they are read.

use vstd::prelude::*;

verus! {

/// The character that stands for the digit `d`.
pub open spec fn digit_char(d: nat) -> char
    recommends
        d < 10,
{
    (('0' as nat) + d) as char
}

/// Whether `c` is one of the ten decimal digits.
pub open spec fn is_digit(c: char) -> bool {
    '0' <= c <= '9'
}

/// The decimal text of `n`, without leading zeros.
pub open spec fn decimal(n: nat) -> Seq<char>
    decreases n,
{
    if n < 10 {
        seq![digit_char(n)]
    } else {
        decimal(n / 10).push(digit_char(n % 10))
    }
}

/// The number that a row of digits stands for.
pub open spec fn digits_value(s: Seq<char>) -> nat
    decreases s.len(),
{
    if s.len() == 0 {
        0
    } else {
        digits_value(s.drop_last()) * 10 + (s.last() as nat - '0' as nat) as nat
    }
}

/// Whether `s` is made of digits only.
pub open spec fn all_digits(s: Seq<char>) -> bool {
    forall|i: int| 0 <= i < s.len() ==> is_digit(#[trigger] s[i])
}

/// `s` without the plus sign that it may begin with.
pub open spec fn without_plus(s: Seq<char>) -> Seq<char> {
    if s.len() > 0 && s[0] == '+' {
        s.skip(1)
    } else {
        s
    }
}

/// Why a text is read as no number.
#[derive(Clone, Copy, PartialEq, Eq, Structural, Debug)]
pub enum NumberError {
    /// There is no text.
    Empty,
    /// Something that is no digit stands before the text gets too large a number.
    InvalidDigit,
    /// The text begins with too large a number.
    TooLarge,
}

impl NumberError {
    /// What is said of the error.
    pub open spec fn spec_message(self) -> Seq<char> {
        match self {
            NumberError::Empty => "cannot parse integer from empty string"@,
            NumberError::InvalidDigit => "invalid digit found in string"@,
            NumberError::TooLarge => "number too large to fit in target type"@,
        }
    }

    /// What is said of the error.
    pub fn message(self) -> (text: String)
        ensures
            text@ == self.spec_message(),
    {
        match self {
            NumberError::Empty => "cannot parse integer from empty string".to_owned(),
            NumberError::InvalidDigit => "invalid digit found in string".to_owned(),
            NumberError::TooLarge => "number too large to fit in target type".to_owned(),
        }
    }
}

/// Whether the first `k` of `digits` are digits that stand for a number too
/// large for a `u64`.
pub open spec fn too_large(digits: Seq<char>, k: int) -> bool {
    &&& 0 <= k <= digits.len()
    &&& all_digits(digits.take(k))
    &&& digits_value(digits.take(k)) > u64::MAX
}

/// What a `u64` is read as from `s`: an optional plus sign and at least one
/// digit, standing for a number that fits.
pub open spec fn read_u64(s: Seq<char>) -> Result<u64, NumberError> {
    let digits = without_plus(s);
    if s.len() == 0 {
        Err(NumberError::Empty)
    } else if exists|k: int| #[trigger] too_large(digits, k) {
        Err(NumberError::TooLarge)
    } else if digits.len() == 0 || !all_digits(digits) {
        Err(NumberError::InvalidDigit)
    } else {
        Ok(digits_value(digits) as u64)
    }
}

/// Printing a number gives digits, at least one, that stand for that number.
pub proof fn lemma_decimal_value(n: nat)
    ensures
        decimal(n).len() > 0,
        all_digits(decimal(n)),
        digits_value(decimal(n)) == n,
    decreases n,
{
    if n < 10 {
        let s = decimal(n);
        assert(s.drop_last() =~= Seq::<char>::empty());
        assert(digits_value(s.drop_last()) == 0);
    } else {
        lemma_decimal_value(n / 10);
        let s = decimal(n);
        assert(s.drop_last() =~= decimal(n / 10));
        assert(s.last() == digit_char(n % 10));
    }
}

/// A printed number reads back as itself.
pub proof fn law_decimal_reads_back(n: u64)
    ensures
        read_u64(decimal(n as nat)) == Ok::<u64, NumberError>(n),
{
    let text = decimal(n as nat);
    lemma_decimal_value(n as nat);
    assert(is_digit(text[0]));
    assert forall|k: int| !#[trigger] too_large(text, k) by {
        if too_large(text, k) {
            lemma_value_of_prefix(text, k);
        }
    }
}

/// Where all before `k` are digits of a number that fits, and `k` is the end
/// or no digit, no beginning is too large a number.
proof fn lemma_none_too_large(digits: Seq<char>, k: int)
    requires
        0 <= k <= digits.len(),
        all_digits(digits.take(k)),
        digits_value(digits.take(k)) <= u64::MAX,
        k < digits.len() ==> !is_digit(digits[k]),
    ensures
        forall|j: int| !#[trigger] too_large(digits, j),
{
    assert forall|j: int| !#[trigger] too_large(digits, j) by {
        if too_large(digits, j) {
            if j > k {
                assert(digits.take(j)[k] == digits[k]);
            }
            assert(digits.take(k).take(j) =~= digits.take(j));
            lemma_value_of_prefix(digits.take(k), j);
        }
    }
}

/// Two numbers with one text are one number.
pub proof fn law_decimal_injective(m: nat, n: nat)
    requires
        decimal(m) == decimal(n),
    ensures
        m == n,
{
    lemma_decimal_value(m);
    lemma_decimal_value(n);
}

/// The value of a row of digits grows with each digit that is added.
proof fn lemma_value_of_prefix(s: Seq<char>, k: int)
    requires
        0 <= k <= s.len(),
        all_digits(s),
    ensures
        digits_value(s.take(k)) <= digits_value(s),
    decreases s.len() - k,
{
    if k == s.len() {
        assert(s.take(k) =~= s);
    } else {
        lemma_value_of_prefix(s, k + 1);
        assert(s.take(k + 1).drop_last() =~= s.take(k));
    }
}

/// The text of one digit.
fn digit_text(d: u8) -> (text: &'static str)
    requires
        d < 10,
    ensures
        text@ == seq![digit_char(d as nat)],
{
    proof {
        reveal_strlit("0");
        reveal_strlit("1");
        reveal_strlit("2");
        reveal_strlit("3");
        reveal_strlit("4");
        reveal_strlit("5");
        reveal_strlit("6");
        reveal_strlit("7");
        reveal_strlit("8");
        reveal_strlit("9");
    }
    match d {
        0 => "0",
        1 => "1",
        2 => "2",
        3 => "3",
        4 => "4",
        5 => "5",
        6 => "6",
        7 => "7",
        8 => "8",
        _ => "9",
    }
}

/// Prints `n` in decimal.
pub fn to_decimal(n: u128) -> (text: String)
    ensures
        text@ == decimal(n as nat),
    decreases n,
{
    let last: u8 = (n % 10) as u8;
    if n < 10 {
        digit_text(last).to_owned()
    } else {
        to_decimal(n / 10).concat(digit_text(last))
    }
}

/// Reads a `u64`: an optional plus sign followed by digits.
pub fn parse_u64(text: &str) -> (number: Result<u64, NumberError>)
    ensures
        number == read_u64(text@),
{
    let ghost digits = without_plus(text@);
    let mut value: u64 = 0;
    let mut seen: bool = false;
    let mut at_start: bool = true;
    for c in it: text.chars()
        invariant
            digits == without_plus(text@),
            it.seq() == text@,
            at_start == (it.index() == 0),
            ({
                let done = it.index() - (text@.len() - digits.len());
                if it.index() == 0 {
                    value == 0 && !seen
                } else {
                    &&& 0 <= done <= digits.len()
                    &&& all_digits(digits.take(done))
                    &&& value == digits_value(digits.take(done))
                    &&& seen == (done > 0)
                }
            }),
    {
        let ghost done = it.index() - (text@.len() - digits.len());
        if at_start && c == '+' {
            proof {
                assert(digits.take(0) =~= Seq::<char>::empty());
            }
        } else {
            proof {
                assert(c == text@[it.index()]);
                assert(c == digits[done]);
                assert(digits.take(done + 1).drop_last() =~= digits.take(done));
                if it.index() == 0 {
                    assert(digits.take(0) =~= Seq::<char>::empty());
                }
            }
            if c < '0' || c > '9' {
                proof {
                    lemma_none_too_large(digits, done);
                }
                return Err(NumberError::InvalidDigit);
            }
            let d: u64 = (c as u32 - '0' as u32) as u64;
            if value > (u64::MAX - d) / 10 {
                assert(too_large(digits, done + 1));
                return Err(NumberError::TooLarge);
            }
            value = value * 10 + d;
            seen = true;
        }
        at_start = false;
    }
    proof {
        assert(digits.take(digits.len() as int) =~= digits);
        assert(digits.take(0) =~= Seq::<char>::empty());
        lemma_none_too_large(digits, digits.len() as int);
    }
    if seen {
        Ok(value)
    } else if at_start {
        Err(NumberError::Empty)
    } else {
        Err(NumberError::InvalidDigit)
    }
}

/// A printed number is its digits, one after the other: a number below ten is
/// one character, and every further digit stands behind those before it.
pub proof fn law_decimal_digit_by_digit(n: nat, d: nat)
    requires
        d < 10,
    ensures
        decimal(d) == seq![('0' as nat + d) as char],
        n > 0 ==> decimal(10 * n + d) == decimal(n).push(('0' as nat + d) as char),
{
    assert((10 * n + d) / 10 == n && (10 * n + d) % 10 == d) by (nonlinear_arith)
        requires
            d < 10,
    ;
}

/// A printed number has no leading zeros.
pub proof fn law_decimal_has_no_leading_zero(n: nat)
    ensures
        decimal(n).len() > 0,
        n > 0 ==> decimal(n)[0] != '0',
        n == 0 ==> decimal(n) == seq!['0'],
    decreases n,
{
    lemma_decimal_value(n);
    if n >= 10 {
        law_decimal_has_no_leading_zero(n / 10);
        assert(decimal(n)[0] == decimal(n / 10)[0]);
    }
}

/// Each digit that is added makes a number ten times what it was, and the
/// digit more.
pub proof fn law_digits_weigh_ten_times(s: Seq<char>, c: char)
    requires
        '0' <= c <= '9',
    ensures
        digits_value(Seq::empty()) == 0,
        digits_value(s.push(c)) == 10 * digits_value(s) + (c as nat - '0' as nat),
{
    assert(s.push(c).drop_last() =~= s);
}

/// A text is read as a number where it is digits of a number that fits, with
/// at most a plus sign before them, and only there; and then as that number.
pub proof fn law_digits_are_read(digits: Seq<char>)
    requires
        digits.len() > 0,
        forall|i: int| 0 <= i < digits.len() ==> '0' <= #[trigger] digits[i] <= '9',
        digits_value(digits) <= u64::MAX,
    ensures
        read_u64(digits) matches Ok(number) && number == digits_value(digits),
        read_u64(seq!['+'] + digits) == read_u64(digits),
{
    assert(all_digits(digits));
    assert('0' <= digits[0] <= '9');
    assert((seq!['+'] + digits).skip(1) =~= digits);
    assert(digits.take(digits.len() as int) =~= digits);
    lemma_none_too_large(digits, digits.len() as int);
}

/// What is read as a number is digits that stand for it, with at most a plus
/// sign before them.
pub proof fn law_only_digits_are_read(text: Seq<char>, digits: Seq<char>)
    requires
        read_u64(text) is Ok,
        text[0] == '+' ==> digits == text.skip(1),
        text[0] != '+' ==> digits == text,
    ensures
        digits.len() > 0,
        forall|i: int| 0 <= i < digits.len() ==> '0' <= #[trigger] digits[i] <= '9',
        digits_value(digits) == read_u64(text)->Ok_0,
{
    assert(digits == without_plus(text));
    assert(digits.take(digits.len() as int) =~= digits);
    assert(!too_large(digits, digits.len() as int));
    assert forall|i: int| 0 <= i < digits.len() implies '0' <= #[trigger] digits[i] <= '9' by {
        assert(is_digit(digits[i]));
    }
}

/// Nothing at all is refused as empty. Digits up to something else are refused
/// for that, where they are a number that fits, and for their size where they
/// are not, whatever follows.
pub proof fn law_first_fault_is_named(digits: Seq<char>, rest: Seq<char>)
    requires
        forall|i: int| 0 <= i < digits.len() ==> '0' <= #[trigger] digits[i] <= '9',
    ensures
        read_u64(Seq::empty()) == Err::<u64, NumberError>(NumberError::Empty),
        digits_value(digits) > u64::MAX ==> read_u64(digits + rest) == Err::<u64, NumberError>(
            NumberError::TooLarge,
        ),
        digits_value(digits) <= u64::MAX && rest.len() > 0 && !('0' <= rest[0] <= '9') && !(
        digits.len() == 0 && rest[0] == '+') ==> read_u64(digits + rest) == Err::<u64, NumberError>(
            NumberError::InvalidDigit,
        ),
        read_u64(seq!['+']) == Err::<u64, NumberError>(NumberError::InvalidDigit),
{
    let text = digits + rest;
    let k = digits.len() as int;
    assert(text.take(k) =~= digits);
    assert(all_digits(digits));
    if k > 0 {
        assert(text[0] == digits[0]);
        assert('0' <= digits[0] <= '9');
    } else {
        assert(digits =~= Seq::<char>::empty());
        assert(digits_value(digits) == 0);
        if rest.len() > 0 {
            assert(text[0] == rest[0]);
        }
    }
    if digits_value(digits) > u64::MAX {
        assert(too_large(text, k));
    } else if rest.len() > 0 && !('0' <= rest[0] <= '9') {
        assert(text[k] == rest[0]);
        lemma_none_too_large(text, k);
        assert(!is_digit(text[k]));
    }
    assert(seq!['+'].skip(1) =~= Seq::<char>::empty());
    assert(Seq::<char>::empty().take(0) =~= Seq::<char>::empty());
    lemma_none_too_large(Seq::<char>::empty(), 0);
}

} // verus!
