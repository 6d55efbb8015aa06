//! Text primitives: the byte order that strings are compared by, and decimal
//! rendering of integers.

use vstd::prelude::*;
use vstd::string::StringExecFns;
use vstd::string::StringSliceAdditionalSpecFns;

verus! {

/// Lexicographic order of two byte sequences: `-1` when `a` comes first, `0`
/// when they are equal, `1` when `b` comes first. A proper prefix comes before
/// any of its extensions.
pub open spec fn bytes_order(a: Seq<u8>, b: Seq<u8>) -> int
    decreases a.len(),
{
    if a.len() == 0 {
        if b.len() == 0 {
            0
        } else {
            -1
        }
    } else if b.len() == 0 {
        1
    } else if a[0] < b[0] {
        -1
    } else if a[0] > b[0] {
        1
    } else {
        bytes_order(a.drop_first(), b.drop_first())
    }
}

/// Swapping the arguments of the byte order negates it.
pub proof fn lemma_bytes_order_flip(a: Seq<u8>, b: Seq<u8>)
    ensures
        bytes_order(b, a) == -bytes_order(a, b),
        -1 <= bytes_order(a, b) <= 1,
    decreases a.len(),
{
    if a.len() > 0 && b.len() > 0 && a[0] == b[0] {
        lemma_bytes_order_flip(a.drop_first(), b.drop_first());
    }
}

/// Two byte sequences compare as equal exactly when they are the same
/// sequence.
pub proof fn lemma_bytes_order_equal(a: Seq<u8>, b: Seq<u8>)
    ensures
        bytes_order(a, b) == 0 <==> a == b,
    decreases a.len(),
{
    if a.len() > 0 && b.len() > 0 && a[0] == b[0] {
        lemma_bytes_order_equal(a.drop_first(), b.drop_first());
        if a.drop_first() == b.drop_first() {
            assert(a =~= seq![a[0]] + a.drop_first());
            assert(b =~= seq![b[0]] + b.drop_first());
        }
    } else if a.len() == 0 && b.len() == 0 {
        assert(a =~= b);
    }
}

/// The byte order is transitive, and a chain that ends in equality is equal
/// throughout.
pub proof fn lemma_bytes_order_chain(a: Seq<u8>, b: Seq<u8>, c: Seq<u8>)
    requires
        bytes_order(a, b) <= 0,
        bytes_order(b, c) <= 0,
    ensures
        bytes_order(a, c) <= 0,
        bytes_order(a, c) == 0 ==> bytes_order(a, b) == 0 && bytes_order(b, c) == 0,
    decreases a.len(),
{
    if a.len() > 0 && b.len() > 0 && c.len() > 0 && a[0] == b[0] && b[0] == c[0] {
        lemma_bytes_order_chain(a.drop_first(), b.drop_first(), c.drop_first());
    }
}

/// Compare two byte slices lexicographically.
pub fn order_bytes(a: &[u8], b: &[u8]) -> (out: i8)
    ensures
        out as int == bytes_order(a@, b@),
{
    let mut i: usize = 0;
    proof {
        assert(a@.skip(0) =~= a@);
        assert(b@.skip(0) =~= b@);
    }
    while i < a.len() && i < b.len()
        invariant
            i <= a.len(),
            i <= b.len(),
            bytes_order(a@, b@) == bytes_order(a@.skip(i as int), b@.skip(i as int)),
        decreases a.len() - i,
    {
        proof {
            assert(a@.skip(i as int).drop_first() =~= a@.skip(i + 1));
            assert(b@.skip(i as int).drop_first() =~= b@.skip(i + 1));
            assert(a@.skip(i as int)[0] == a@[i as int]);
            assert(b@.skip(i as int)[0] == b@[i as int]);
        }
        if a[i] < b[i] {
            return -1;
        }
        if a[i] > b[i] {
            return 1;
        }
        i += 1;
    }
    if a.len() == b.len() {
        0
    } else if a.len() < b.len() {
        -1
    } else {
        1
    }
}

/// Order of two strings: the lexicographic order of their UTF-8 bytes.
pub open spec fn text_order(a: Seq<char>, b: Seq<char>) -> int {
    bytes_order(vstd::utf8::encode_utf8(a), vstd::utf8::encode_utf8(b))
}

/// Two strings compare as equal exactly when they hold the same characters.
pub proof fn lemma_text_order_equal(a: Seq<char>, b: Seq<char>)
    ensures
        text_order(a, b) == 0 <==> a == b,
{
    lemma_bytes_order_equal(vstd::utf8::encode_utf8(a), vstd::utf8::encode_utf8(b));
    vstd::utf8::encode_utf8_decode_utf8(a);
    vstd::utf8::encode_utf8_decode_utf8(b);
}

/// Compare two strings by their bytes.
pub fn order_text(a: &str, b: &str) -> (out: i8)
    ensures
        out as int == text_order(a@, b@),
{
    order_bytes(a.as_bytes(), b.as_bytes())
}

/// The character that stands for a decimal digit.
pub open spec fn digit_char(d: int) -> char {
    if d == 0 {
        '0'
    } else if d == 1 {
        '1'
    } else if d == 2 {
        '2'
    } else if d == 3 {
        '3'
    } else if d == 4 {
        '4'
    } else if d == 5 {
        '5'
    } else if d == 6 {
        '6'
    } else if d == 7 {
        '7'
    } else if d == 8 {
        '8'
    } else {
        '9'
    }
}

/// Decimal rendering of a natural number, most significant digit first,
/// without leading zeros.
pub open spec fn decimal(n: nat) -> Seq<char>
    decreases n,
{
    if n < 10 {
        seq![digit_char(n as int)]
    } else {
        decimal(n / 10).push(digit_char((n % 10) as int))
    }
}

/// Decimal rendering of an integer: a minus sign for negative values, then
/// the digits of the magnitude.
pub open spec fn signed_decimal(v: int) -> Seq<char> {
    if v < 0 {
        seq!['-'] + decimal((-v) as nat)
    } else {
        decimal(v as nat)
    }
}

/// Decimal rendering of an integer with its sign always written: `+` for
/// zero and positive values, `-` for negative ones.
pub open spec fn explicit_signed_decimal(v: int) -> Seq<char> {
    if v < 0 {
        seq!['-'] + decimal((-v) as nat)
    } else {
        seq!['+'] + decimal(v as nat)
    }
}

/// A rendered number is never empty.
pub proof fn lemma_decimal_nonempty(n: nat)
    ensures
        decimal(n).len() >= 1,
    decreases n,
{
    if n >= 10 {
        lemma_decimal_nonempty(n / 10);
    }
}

fn digit_text(d: u64) -> (out: &'static str)
    requires
        d < 10,
    ensures
        out@ == seq![digit_char(d as int)],
{
    proof {
        reveal_strlit("0");
        reveal_strlit("1");
        reveal_strlit("2");
        reveal_strlit("3");
        reveal_strlit("4");
        reveal_strlit("5");
        reveal_strlit("6");
        reveal_strlit("7");
        reveal_strlit("8");
        reveal_strlit("9");
    }
    let out = if d == 0 {
        "0"
    } else if d == 1 {
        "1"
    } else if d == 2 {
        "2"
    } else if d == 3 {
        "3"
    } else if d == 4 {
        "4"
    } else if d == 5 {
        "5"
    } else if d == 6 {
        "6"
    } else if d == 7 {
        "7"
    } else if d == 8 {
        "8"
    } else {
        "9"
    };
    assert(out@ =~= seq![digit_char(d as int)]);
    out
}

/// Append the decimal rendering of `n` to `out`.
pub fn push_decimal(out: &mut String, n: u64)
    ensures
        final(out)@ == old(out)@ + decimal(n as nat),
    decreases n,
{
    if n >= 10 {
        push_decimal(out, n / 10);
    }
    out.append(digit_text(n % 10));
    proof {
        if n >= 10 {
            assert(final(out)@ =~= old(out)@ + decimal(n as nat));
        }
    }
}

/// Append the decimal rendering of a signed integer to `out`.
pub fn push_signed_decimal(out: &mut String, v: i64)
    ensures
        final(out)@ == old(out)@ + signed_decimal(v as int),
{
    if v < 0 {
        proof {
            reveal_strlit("-");
        }
        out.append("-");
        let magnitude: u64 = if v == i64::MIN {
            0x8000_0000_0000_0000u64
        } else {
            (-v) as u64
        };
        push_decimal(out, magnitude);
        proof {
            assert("-"@ =~= seq!['-']);
            assert(final(out)@ =~= old(out)@ + signed_decimal(v as int));
        }
    } else {
        push_decimal(out, v as u64);
    }
}

/// Append the decimal rendering of a signed integer to `out`, with the sign
/// always written.
pub fn push_explicit_signed_decimal(out: &mut String, v: i64)
    ensures
        final(out)@ == old(out)@ + explicit_signed_decimal(v as int),
{
    if v < 0 {
        push_signed_decimal(out, v);
    } else {
        proof {
            reveal_strlit("+");
        }
        out.append("+");
        push_decimal(out, v as u64);
        proof {
            assert("+"@ =~= seq!['+']);
            assert(final(out)@ =~= old(out)@ + explicit_signed_decimal(v as int));
        }
    }
}

/// The target of a cause that concerns one aspect of a region: `region:`,
/// the region's id in decimal, and a suffix such as `/water`.
pub open spec fn region_target_text(id: u32, suffix: Seq<char>) -> Seq<char> {
    "region:"@ + decimal(id as nat) + suffix
}

/// Build the target of a cause that concerns one aspect of a region.
pub fn region_target(id: u32, suffix: &str) -> (out: String)
    ensures
        out@ == region_target_text(id, suffix@),
{
    let mut out = String::from_str("region:");
    push_decimal(&mut out, id as u64);
    out.append(suffix);
    out
}

/// A label followed by a signed number in decimal, such as `level=42`.
pub open spec fn labelled_text(label: Seq<char>, v: int) -> Seq<char> {
    label + signed_decimal(v)
}

/// Build a label followed by a signed number in decimal.
pub fn labelled(label: &str, v: i64) -> (out: String)
    ensures
        out@ == labelled_text(label@, v as int),
{
    let mut out = String::from_str(label);
    push_signed_decimal(&mut out, v);
    out
}

/// A label followed by a number in decimal with its sign always written,
/// such as `delta_m=+42`.
pub open spec fn labelled_explicit_text(label: Seq<char>, v: int) -> Seq<char> {
    label + explicit_signed_decimal(v)
}

/// Build a label followed by a number in decimal with its sign always
/// written.
pub fn labelled_explicit(label: &str, v: i64) -> (out: String)
    ensures
        out@ == labelled_explicit_text(label@, v as int),
{
    let mut out = String::from_str(label);
    push_explicit_signed_decimal(&mut out, v);
    out
}

/// The value of a decimal digit; none for any other character.
pub open spec fn digit_value(c: char) -> Option<int> {
    if c == '0' {
        Some(0)
    } else if c == '1' {
        Some(1)
    } else if c == '2' {
        Some(2)
    } else if c == '3' {
        Some(3)
    } else if c == '4' {
        Some(4)
    } else if c == '5' {
        Some(5)
    } else if c == '6' {
        Some(6)
    } else if c == '7' {
        Some(7)
    } else if c == '8' {
        Some(8)
    } else if c == '9' {
        Some(9)
    } else {
        None
    }
}

/// Whether every character is a decimal digit.
pub open spec fn all_digits(s: Seq<char>) -> bool {
    forall|i: int| 0 <= i < s.len() ==> digit_value(#[trigger] s[i]) is Some
}

/// The number that a sequence of decimal digits stands for, most
/// significant digit first.
pub open spec fn digits_value(s: Seq<char>) -> nat
    decreases s.len(),
{
    if s.len() == 0 {
        0
    } else {
        match digit_value(s.last()) {
            Some(d) => digits_value(s.drop_last()) * 10 + d as nat,
            None => digits_value(s.drop_last()) * 10,
        }
    }
}

/// The number that a text stands for: an optional plus sign, then at least
/// one decimal digit and nothing else.
pub open spec fn parse_unsigned(s: Seq<char>) -> Option<nat> {
    let body = if s.len() > 0 && s[0] == '+' {
        s.skip(1)
    } else {
        s
    };
    if body.len() > 0 && all_digits(body) {
        Some(digits_value(body))
    } else {
        None
    }
}

/// A rendered number consists of digits and reads back as the number.
pub proof fn lemma_decimal_reads_back(n: nat)
    ensures
        all_digits(decimal(n)),
        digits_value(decimal(n)) == n,
        decimal(n).len() >= 1,
        parse_unsigned(decimal(n)) == Some(n),
    decreases n,
{
    if n < 10 {
        assert(decimal(n).drop_last() =~= Seq::<char>::empty());
        assert(digits_value(decimal(n).drop_last()) == 0);
    } else {
        lemma_decimal_reads_back(n / 10);
        assert(decimal(n).drop_last() =~= decimal(n / 10));
        assert forall|i: int| 0 <= i < decimal(n).len() implies digit_value(
            #[trigger] decimal(n)[i],
        ) is Some by {
            if i < decimal(n).len() - 1 {
                assert(decimal(n)[i] == decimal(n / 10)[i]);
            }
        }
    }
    assert(digit_value(decimal(n)[0]) is Some);
}

/// The value of a digit character.
pub fn digit_of(c: char) -> (out: Option<u8>)
    ensures
        match out {
            Some(d) => digit_value(c) == Some(d as int) && d < 10,
            None => digit_value(c) is None,
        },
{
    if c == '0' {
        Some(0)
    } else if c == '1' {
        Some(1)
    } else if c == '2' {
        Some(2)
    } else if c == '3' {
        Some(3)
    } else if c == '4' {
        Some(4)
    } else if c == '5' {
        Some(5)
    } else if c == '6' {
        Some(6)
    } else if c == '7' {
        Some(7)
    } else if c == '8' {
        Some(8)
    } else if c == '9' {
        Some(9)
    } else {
        None
    }
}

/// Read the number that the characters of `s` from `start` on stand for:
/// at least one decimal digit and nothing else, and a value that fits
/// `usize`.
pub fn read_digits(s: &str, start: usize) -> (out: Option<usize>)
    requires
        start <= s@.len(),
    ensures
        match out {
            Some(v) => {
                &&& start < s@.len()
                &&& all_digits(s@.skip(start as int))
                &&& digits_value(s@.skip(start as int)) == v
            },
            None => {
                ||| start == s@.len()
                ||| !all_digits(s@.skip(start as int))
                ||| digits_value(s@.skip(start as int)) > usize::MAX
            },
        },
{
    let length = s.unicode_len();
    if start == length {
        return None;
    }
    let ghost body = s@.skip(start as int);
    let mut value: u128 = 0;
    let mut overflow = false;
    let mut i: usize = start;
    while i < length
        invariant
            start <= i <= length,
            length == s@.len(),
            body == s@.skip(start as int),
            all_digits(body.take(i - start)),
            overflow ==> digits_value(body.take(i - start)) > usize::MAX,
            !overflow ==> value == digits_value(body.take(i - start)) && value <= usize::MAX,
        decreases length - i,
    {
        let c = s.get_char(i);
        proof {
            assert(body[i - start] == c);
            assert(body.take(i - start + 1).drop_last() =~= body.take(i - start));
            assert(body.take(i - start + 1).last() == c);
        }
        match digit_of(c) {
            None => {
                return None;
            },
            Some(d) => {
                proof {
                    let longer = body.take(i - start + 1);
                    assert forall|k: int| 0 <= k < longer.len() implies digit_value(
                        #[trigger] longer[k],
                    ) is Some by {
                        if k < i - start {
                            assert(longer[k] == body.take(i - start)[k]);
                        }
                    }
                }
                if !overflow {
                    value = value * 10 + d as u128;
                    if value > usize::MAX as u128 {
                        overflow = true;
                    }
                }
            },
        }
        i += 1;
    }
    proof {
        assert(body.take(i - start) =~= body);
    }
    if overflow {
        None
    } else {
        Some(value as usize)
    }
}

} // verus!
