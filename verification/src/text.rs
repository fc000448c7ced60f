//! Building and reading the small texts that the service writes: paths,
//! decimal numbers and lower-case hexadecimal.
use vstd::prelude::*;

verus! {

/// `left` followed by `right`.
pub fn cat(left: &str, right: &str) -> (r: String)
    ensures
        r@ == left@ + right@,
{
    let mut out: String = left.to_string();
    out.append(right);
    out
}

/// `dir/name`.
pub open spec fn joined(dir: Seq<char>, name: Seq<char>) -> Seq<char> {
    dir + "/"@ + name
}

/// The path of `name` inside `dir`: `dir/name`.
pub fn join_path(dir: &str, name: &str) -> (r: String)
    ensures
        r@ == joined(dir@, name@),
{
    let mut out: String = dir.to_string();
    out.append("/");
    out.append(name);
    out
}

/// `s` without a leading `0x`.
pub open spec fn without_0x(s: Seq<char>) -> Seq<char> {
    if s.len() >= 2 && s[0] == '0' && s[1] == 'x' {
        s.skip(2)
    } else {
        s
    }
}

/// `s` without a leading `0x`.
pub fn strip_0x(s: &str) -> (r: &str)
    ensures
        r@ == without_0x(s@),
{
    let n: usize = s.unicode_len();
    if n >= 2 && s.get_char(0) == '0' && s.get_char(1) == 'x' {
        let rest: &str = s.substring_char(2, n);
        assert(rest@ =~= s@.skip(2));
        rest
    } else {
        s
    }
}

// ---------------------------------------------------------------------------
// Decimal numbers
// ---------------------------------------------------------------------------

/// The character of one decimal digit.
pub open spec fn digit(d: nat) -> char
    recommends
        d < 10,
{
    (48 + d) as char
}

/// `n` in decimal, without leading zeros.
pub open spec fn decimal(n: nat) -> Seq<char>
    decreases n,
{
    if n < 10 {
        seq![digit(n)]
    } else {
        decimal(n / 10).push(digit(n % 10))
    }
}

/// Is `c` one of `0` to `9`?
pub open spec fn is_digit(c: char) -> bool {
    '0' <= c <= '9'
}

/// Is every character of `s` a decimal digit?
pub open spec fn all_digits(s: Seq<char>) -> bool {
    forall|i: int| 0 <= i < s.len() ==> is_digit(#[trigger] s[i])
}

/// The number that the decimal digits `s` stand for.
pub open spec fn digits_value(s: Seq<char>) -> nat
    decreases s.len(),
{
    if s.len() == 0 {
        0
    } else {
        digits_value(s.drop_last()) * 10 + (s.last() as nat - 48) as nat
    }
}

/// The number that `s` stands for: an optional `+` and then at least one
/// decimal digit, with nothing before or after.
pub open spec fn parsed(s: Seq<char>) -> Option<nat> {
    let digits = if s.len() > 0 && s[0] == '+' {
        s.skip(1)
    } else {
        s
    };
    if digits.len() > 0 && all_digits(digits) {
        Some(digits_value(digits))
    } else {
        None
    }
}

/// The number that `s` stands for, if it fits in a `usize`.
pub open spec fn parsed_usize(s: Seq<char>) -> Option<usize> {
    match parsed(s) {
        Some(n) => if n <= usize::MAX {
            Some(n as usize)
        } else {
            None
        },
        None => None,
    }
}

/// Reads a `usize` with `str::parse` of the standard library.
///
/// Claimed of it: it accepts an optional `+` followed by decimal digits and
/// nothing else, and fails on every other text and on a number that is too
/// large.
#[verifier::external_body]
pub(crate) fn parse_usize(text: &str) -> (r: Option<usize>)
    ensures
        r == parsed_usize(text@),
{
    text.parse::<usize>().ok()
}

/// One decimal digit as text.
fn digit_text(d: u64) -> (r: &'static str)
    requires
        d < 10,
    ensures
        r@ == seq![digit(d as nat)],
{
    proof {
        reveal_strlit("0");
        reveal_strlit("1");
        reveal_strlit("2");
        reveal_strlit("3");
        reveal_strlit("4");
        reveal_strlit("5");
        reveal_strlit("6");
        reveal_strlit("7");
        reveal_strlit("8");
        reveal_strlit("9");
    }
    match d {
        0 => "0",
        1 => "1",
        2 => "2",
        3 => "3",
        4 => "4",
        5 => "5",
        6 => "6",
        7 => "7",
        8 => "8",
        _ => "9",
    }
}

/// `n` in decimal.
pub fn decimal_text(n: u64) -> (r: String)
    ensures
        r@ == decimal(n as nat),
    decreases n,
{
    if n < 10 {
        digit_text(n).to_string()
    } else {
        let mut out: String = decimal_text(n / 10);
        out.append(digit_text(n % 10));
        proof {
            let d: nat = (n % 10) as nat;
            assert(out@ =~= decimal(n as nat / 10).push(digit(d)));
        }
        out
    }
}

/// A decimal number consists of digits, at least one, and stands for itself.
pub proof fn lemma_decimal(n: nat)
    ensures
        decimal(n).len() > 0,
        all_digits(decimal(n)),
        digits_value(decimal(n)) == n,
    decreases n,
{
    if n < 10 {
        let s = decimal(n);
        assert(s.drop_last() =~= Seq::<char>::empty());
        assert(digits_value(s.drop_last()) == 0);
    } else {
        lemma_decimal(n / 10);
        let s = decimal(n);
        assert(s.drop_last() =~= decimal(n / 10));
        assert(s.last() == digit(n % 10));
    }
}

/// What is written in decimal is read back: the text of `n` parses to `n`.
pub proof fn law_decimal_round_trip(n: nat)
    ensures
        parsed(decimal(n)) == Some(n),
        n <= usize::MAX ==> parsed_usize(decimal(n)) == Some(n as usize),
{
    lemma_decimal(n);
    assert(is_digit(decimal(n)[0]));
}

// ---------------------------------------------------------------------------
// Hexadecimal
// ---------------------------------------------------------------------------

/// The lower-case hexadecimal digit of `d`.
pub open spec fn hex_digit(d: nat) -> char
    recommends
        d < 16,
{
    if d < 10 {
        (48 + d) as char
    } else {
        (87 + d) as char
    }
}

/// `bytes` in lower-case hexadecimal: two digits per byte, the high half first.
pub open spec fn lower_hex(bytes: Seq<u8>) -> Seq<char> {
    Seq::new(
        2 * bytes.len(),
        |i: int|
            if i % 2 == 0 {
                hex_digit((bytes[i / 2] / 16) as nat)
            } else {
                hex_digit((bytes[i / 2] % 16) as nat)
            },
    )
}

/// The value of a hexadecimal digit of either case.
pub open spec fn hex_value(c: char) -> Option<u8> {
    if '0' <= c <= '9' {
        Some((c as int - 48) as u8)
    } else if 'a' <= c <= 'f' {
        Some((c as int - 87) as u8)
    } else if 'A' <= c <= 'F' {
        Some((c as int - 55) as u8)
    } else {
        None
    }
}

/// The bytes that the hexadecimal text `s` stands for; nothing where its length
/// is odd or a character is no hexadecimal digit.
pub open spec fn hex_bytes(s: Seq<char>) -> Option<Seq<u8>> {
    if s.len() % 2 == 0 && (forall|i: int| 0 <= i < s.len() ==> hex_value(#[trigger] s[i]) is Some) {
        Some(
            Seq::new(
                s.len() / 2,
                |i: int| (16 * hex_value(s[2 * i])->0 + hex_value(s[2 * i + 1])->0) as u8,
            ),
        )
    } else {
        None
    }
}

/// What is written in lower-case hexadecimal is read back.
pub proof fn law_hex_round_trip(bytes: Seq<u8>)
    ensures
        hex_bytes(lower_hex(bytes)) == Some(bytes),
{
    let s = lower_hex(bytes);
    assert forall|i: int| 0 <= i < s.len() implies hex_value(#[trigger] s[i]) is Some by {
        let b = bytes[i / 2];
        assert(b / 16 < 16 && b % 16 < 16);
    }
    let back = hex_bytes(s)->0;
    assert forall|i: int| 0 <= i < bytes.len() implies back[i] == bytes[i] by {
        let b = bytes[i];
        assert(s[2 * i] == hex_digit((b / 16) as nat));
        assert(s[2 * i + 1] == hex_digit((b % 16) as nat));
        assert(hex_value(s[2 * i]) == Some((b / 16) as u8));
        assert(hex_value(s[2 * i + 1]) == Some((b % 16) as u8));
    }
    assert(back =~= bytes);
}

/// A path holds its directory, one `/` and its name, and nothing else.
pub proof fn law_path_holds_its_parts(dir: Seq<char>, name: Seq<char>)
    ensures
        joined(dir, name).len() == dir.len() + 1 + name.len(),
        joined(dir, name).take(dir.len() as int) == dir,
        joined(dir, name)[dir.len() as int] == '/',
        joined(dir, name).skip(dir.len() as int + 1) == name,
{
    reveal_strlit("/");
    assert(joined(dir, name).take(dir.len() as int) =~= dir);
    assert(joined(dir, name).skip(dir.len() as int + 1) =~= name);
}

/// One `0x` in front makes no difference to a text that has none; a text without it is left
/// as it is.
pub proof fn law_one_0x_is_stripped(s: Seq<char>)
    ensures
        without_0x(seq!['0', 'x'] + s) == s,
        !(s.len() >= 2 && s[0] == '0' && s[1] == 'x') ==> without_0x(s) == s,
{
    assert((seq!['0', 'x'] + s).skip(2) =~= s);
}

/// A decimal number has no needless zero in front, and one more digit behind it makes it
/// ten times as large and that digit larger.
pub proof fn law_decimal_digits(n: nat, d: nat)
    requires
        d < 10,
    ensures
        all_digits(decimal(n)),
        decimal(n).len() >= 1,
        decimal(n)[0] == '0' ==> n == 0,
        n < 10 ==> decimal(n).len() == 1,
        n > 0 ==> decimal(10 * n + d).drop_last() == decimal(n),
        decimal(10 * n + d).last() as nat == 48 + d,
{
    lemma_decimal(n);
    lemma_no_zero_in_front(n);
    let more = 10 * n + d;
    assert(more / 10 == n && more % 10 == d);
    if n > 0 {
        assert(decimal(more) == decimal(n).push(digit(d)));
        assert(decimal(more).drop_last() =~= decimal(n));
    }
}

proof fn lemma_no_zero_in_front(n: nat)
    ensures
        decimal(n).len() >= 1,
        decimal(n)[0] == '0' ==> n == 0,
    decreases n,
{
    if n >= 10 {
        lemma_no_zero_in_front(n / 10);
    }
}

/// Hexadecimal text has two characters for every byte, each a digit or a lower-case letter
/// up to `f`.
pub proof fn law_hex_is_lower_case(bytes: Seq<u8>)
    ensures
        lower_hex(bytes).len() == 2 * bytes.len(),
        forall|i: int|
            0 <= i < lower_hex(bytes).len() ==> '0' <= #[trigger] lower_hex(bytes)[i] <= '9'
                || 'a' <= lower_hex(bytes)[i] <= 'f',
{
    let s = lower_hex(bytes);
    assert forall|i: int| 0 <= i < s.len() implies '0' <= #[trigger] s[i] <= '9' || 'a' <= s[i]
        <= 'f' by {
        let b = bytes[i / 2];
        assert(b / 16 < 16 && b % 16 < 16);
    }
}

/// A number is read only from a text of digits, with a `+` in front at most, and a digit
/// behind the text counts as one.
pub proof fn law_number_is_read_from_digits(s: Seq<char>, c: char)
    ensures
        parsed(s) is Some ==> s.len() > 0 && forall|i: int|
            0 <= i < s.len() ==> '0' <= #[trigger] s[i] <= '9' || (i == 0 && s[i] == '+'),
        parsed(s) is Some && '0' <= c <= '9' ==> parsed(s.push(c)) == Some(
            (10 * parsed(s)->0 + (c as nat - 48)) as nat,
        ),
        s.len() > 0 && s[0] != '+' ==> parsed(seq!['+'] + s) == parsed(s),
        parsed_usize(s) matches Some(n) ==> parsed(s) == Some(n as nat),
        parsed(s) matches Some(n) ==> (n <= usize::MAX <==> parsed_usize(s) is Some),
{
    if parsed(s) is Some {
        let plus = s[0] == '+';
        let digits = if plus {
            s.skip(1)
        } else {
            s
        };
        assert forall|i: int| 0 <= i < s.len() implies '0' <= #[trigger] s[i] <= '9' || (i == 0
            && s[i] == '+') by {
            if plus && i > 0 {
                assert(s[i] == digits[i - 1]);
                assert(is_digit(digits[i - 1]));
            } else if !plus {
                assert(is_digit(digits[i]));
            }
        }
        if '0' <= c <= '9' {
            let more = if plus {
                s.push(c).skip(1)
            } else {
                s.push(c)
            };
            assert(more =~= digits.push(c));
            assert(more.drop_last() =~= digits);
            assert forall|i: int| 0 <= i < more.len() implies is_digit(#[trigger] more[i]) by {
                if i < digits.len() {
                    assert(is_digit(digits[i]));
                }
            }
        }
    }
    if s.len() > 0 && s[0] != '+' {
        assert((seq!['+'] + s).skip(1) =~= s);
    }
}

/// A hexadecimal digit has the same value in either case: that of a decimal digit is its
/// own, those of the letters are ten to fifteen, and nothing else has one.
pub proof fn law_hex_digits_of_either_case(c: char, high: char, low: char)
    ensures
        hex_value(c) is Some <==> '0' <= c <= '9' || 'a' <= c <= 'f' || 'A' <= c <= 'F',
        '0' <= c <= '9' ==> hex_value(c) == Some((c as int - '0' as int) as u8),
        'a' <= c <= 'f' ==> hex_value(c) == Some((10 + (c as int - 'a' as int)) as u8),
        'A' <= c <= 'F' ==> hex_value(c) == hex_value((c as int + 32) as char),
        hex_bytes(seq![c]) is None,
        hex_bytes(seq![high, low]) is Some <==> hex_value(high) is Some && hex_value(low) is Some,
        hex_bytes(seq![high, low]) matches Some(bytes) ==> bytes.len() == 1 && bytes[0] == 16
            * hex_value(high)->0 + hex_value(low)->0,
{
    let pair = seq![high, low];
    assert(pair[0] == high && pair[1] == low);
    if hex_value(high) is Some && hex_value(low) is Some {
        assert forall|i: int| 0 <= i < pair.len() implies hex_value(#[trigger] pair[i]) is Some by {
        }
    }
}

} // verus!
