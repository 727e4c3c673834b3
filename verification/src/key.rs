//! The XOR key as the user types it: one byte written in hex, shown as two
//! upper-case hex digits.

use vstd::prelude::*;
use vstd::string::StringSliceAdditionalSpecFns;
use vstd::utf8::encode_utf8;

verus! {

/// Whether `c` has the Unicode `White_Space` property.
pub open spec fn is_white_space(c: char) -> bool {
    let u = c as u32;
    ||| 0x09 <= u <= 0x0d
    ||| u == 0x20
    ||| u == 0x85
    ||| u == 0xa0
    ||| u == 0x1680
    ||| 0x2000 <= u <= 0x200a
    ||| u == 0x2028
    ||| u == 0x2029
    ||| u == 0x202f
    ||| u == 0x205f
    ||| u == 0x3000
}

/// `s` without its leading white space.
pub open spec fn trim_start(s: Seq<char>) -> Seq<char>
    decreases s.len(),
{
    if s.len() > 0 && is_white_space(s[0]) {
        trim_start(s.drop_first())
    } else {
        s
    }
}

/// `s` without its trailing white space.
pub open spec fn trim_end(s: Seq<char>) -> Seq<char>
    decreases s.len(),
{
    if s.len() > 0 && is_white_space(s.last()) {
        trim_end(s.drop_last())
    } else {
        s
    }
}

/// `s` without leading and trailing white space.
pub open spec fn trimmed(s: Seq<char>) -> Seq<char> {
    trim_end(trim_start(s))
}

/// Calls `str::trim`, which its documentation describes as removing leading
/// and trailing whitespace, whitespace being the Unicode `White_Space`
/// property; the contract states exactly that.
#[verifier::external_body]
fn trim_white_space(s: &str) -> (r: &str)
    ensures
        r@ == trimmed(s@),
{
    s.trim()
}

/// The value of the ASCII hex digit `b` (either case), if it is one.
pub open spec fn hex_digit(b: u8) -> Option<nat> {
    if 0x30 <= b <= 0x39 {
        Some((b - 0x30) as nat)
    } else if 0x61 <= b <= 0x66 {
        Some((b - 0x61 + 10) as nat)
    } else if 0x41 <= b <= 0x46 {
        Some((b - 0x41 + 10) as nat)
    } else {
        None
    }
}

/// Every byte of `d` is a hex digit.
pub open spec fn all_hex_digits(d: Seq<u8>) -> bool {
    forall|i: int| 0 <= i < d.len() ==> #[trigger] hex_digit(d[i]) is Some
}

/// The number the hex digits `d` write, most significant first.
pub open spec fn hex_value(d: Seq<u8>) -> nat
    decreases d.len(),
{
    if d.len() == 0 {
        0
    } else {
        hex_value(d.drop_last()) * 16 + match hex_digit(d.last()) {
            Some(v) => v,
            None => 0,
        }
    }
}

/// A byte written in hex, as `u8::from_str_radix(_, 16)` reads it: an
/// optional `+`, then at least one hex digit of either case, for a value of at
/// most 255.
pub open spec fn parse_hex_u8(bytes: Seq<u8>) -> Option<u8> {
    if bytes.len() == 0 {
        None
    } else {
        let digits = if bytes[0] == 0x2b {
            bytes.drop_first()
        } else {
            bytes
        };
        if digits.len() == 0 || !all_hex_digits(digits) || hex_value(digits) > 255 {
            None
        } else {
            Some(hex_value(digits) as u8)
        }
    }
}

/// The key that the text in the key box gives: the text without surrounding
/// white space, read as a byte in hex.
pub open spec fn spec_parse_key(text: Seq<char>) -> Option<u8> {
    parse_hex_u8(encode_utf8(trimmed(text)))
}

proof fn lemma_hex_value_prefix(d: Seq<u8>, k: int)
    requires
        all_hex_digits(d),
        0 <= k <= d.len(),
    ensures
        hex_value(d.take(k)) <= hex_value(d),
    decreases d.len() - k,
{
    if k < d.len() {
        let e = d.drop_last();
        assert(all_hex_digits(e)) by {
            assert forall|i: int| 0 <= i < e.len() implies #[trigger] hex_digit(e[i]) is Some by {
                assert(e[i] == d[i]);
            }
        }
        lemma_hex_value_prefix(e, k);
        assert(e.take(k) =~= d.take(k));
        assert(hex_value(e) <= hex_value(d));
    } else {
        assert(d.take(k) =~= d);
    }
}

fn hex_digit_of(b: u8) -> (r: Option<u8>)
    ensures
        match hex_digit(b) {
            Some(v) => r == Some(v as u8),
            None => r is None,
        },
{
    if 0x30 <= b && b <= 0x39 {
        Some(b - 0x30)
    } else if 0x61 <= b && b <= 0x66 {
        Some(b - 0x61 + 10)
    } else if 0x41 <= b && b <= 0x46 {
        Some(b - 0x41 + 10)
    } else {
        None
    }
}

/// Read `bytes` as a byte written in hex, as `u8::from_str_radix(_, 16)` does.
pub fn parse_hex_byte(bytes: &[u8]) -> (r: Option<u8>)
    ensures
        r == parse_hex_u8(bytes@),
{
    let n = bytes.len();
    if n == 0 {
        return None;
    }
    let start: usize = if bytes[0] == 0x2b {
        1
    } else {
        0
    };
    let ghost digits = if bytes@[0] == 0x2b {
        bytes@.drop_first()
    } else {
        bytes@
    };
    assert(digits =~= bytes@.skip(start as int));
    if start == n {
        return None;
    }
    let mut acc: u32 = 0;
    let mut i: usize = start;
    assert(digits.take(0) =~= Seq::<u8>::empty());
    while i < n
        invariant
            n == bytes@.len(),
            n > 0,
            digits == bytes@.skip(start as int),
            digits == if bytes@[0] == 0x2b {
                bytes@.drop_first()
            } else {
                bytes@
            },
            start <= i <= n,
            acc <= 255,
            acc == hex_value(digits.take(i - start)),
            all_hex_digits(digits.take(i - start)),
        decreases n - i,
    {
        let ghost k = i - start;
        assert(digits[k] == bytes@[i as int]);
        assert(digits.take(k + 1).drop_last() =~= digits.take(k));
        assert(digits.take(k + 1).last() == digits[k]);
        match hex_digit_of(bytes[i]) {
            None => {
                assert(!all_hex_digits(digits)) by {
                    assert(hex_digit(digits[k]) is None);
                }
                return None;
            },
            Some(v) => {
                let next = acc * 16 + v as u32;
                assert(next == hex_value(digits.take(k + 1)));
                assert(all_hex_digits(digits.take(k + 1))) by {
                    assert forall|j: int| 0 <= j < k + 1 implies #[trigger] hex_digit(
                        digits.take(k + 1)[j],
                    ) is Some by {
                        if j < k {
                            assert(digits.take(k + 1)[j] == digits.take(k)[j]);
                        }
                    }
                }
                if next > 255 {
                    proof {
                        if all_hex_digits(digits) {
                            lemma_hex_value_prefix(digits, k + 1);
                        }
                    }
                    return None;
                }
                acc = next;
            },
        }
        i += 1;
    }
    assert(digits.take(n - start) =~= digits);
    Some(acc as u8)
}

/// The key the text in the key box gives, if any: the text is trimmed of
/// surrounding white space and read as one byte in hex.
pub fn parse_key(text: &str) -> (r: Option<u8>)
    ensures
        r == spec_parse_key(text@),
{
    let t = trim_white_space(text);
    parse_hex_byte(t.as_bytes())
}

/// The upper-case hex digit for `n` (below 16).
pub open spec fn upper_hex_digit(n: u8) -> char {
    if n < 10 {
        (0x30 + n) as char
    } else {
        (0x37 + n) as char
    }
}

/// The key as the key box shows it: two upper-case hex digits.
pub open spec fn key_text(key: u8) -> Seq<char> {
    seq![upper_hex_digit(key / 16), upper_hex_digit(key % 16)]
}

fn upper_hex_digit_of(n: u8) -> (c: char)
    requires
        n < 16,
    ensures
        c == upper_hex_digit(n),
{
    if n < 10 {
        (0x30 + n) as char
    } else {
        (0x37 + n) as char
    }
}

/// The two upper-case hex digits that show `key`.
pub fn key_digits(key: u8) -> (d: (char, char))
    ensures
        seq![d.0, d.1] == key_text(key),
{
    (upper_hex_digit_of(key / 16), upper_hex_digit_of(key % 16))
}


proof fn lemma_upper_hex_digit(n: u8)
    requires
        n < 16,
    ensures
        !is_white_space(upper_hex_digit(n)),
        upper_hex_digit(n) as u32 <= 0x7f,
        upper_hex_digit(n) as u8 != 0x2b,
        hex_digit(upper_hex_digit(n) as u8) == Some(n as nat),
{
    if n < 10 {
        assert(((0x30 + n) as char) as u32 == 0x30 + n);
    } else {
        assert(((0x37 + n) as char) as u32 == 0x37 + n);
    }
}

/// The key box round-trips: reading back the two hex digits that show a key
/// gives that key.
pub proof fn lemma_key_text_parses_back(key: u8)
    ensures
        spec_parse_key(key_text(key)) == Some(key),
{
    let hi = key / 16;
    let lo = key % 16;
    lemma_upper_hex_digit(hi);
    lemma_upper_hex_digit(lo);
    let t = key_text(key);
    assert(trim_start(t) == t);
    assert(trim_end(t) == t);
    assert(vstd::utf8::is_ascii_chars(t));
    vstd::utf8::is_ascii_chars_encode_utf8(t);
    let b = encode_utf8(t);
    assert(b[0] == upper_hex_digit(hi) as u8);
    assert(b[1] == upper_hex_digit(lo) as u8);
    assert(all_hex_digits(b));
    assert(b.len() == 2);
    assert(b.drop_last().drop_last() =~= Seq::<u8>::empty());
    assert(hex_value(Seq::<u8>::empty()) == 0);
    assert(b.drop_last().last() == b[0]);
    assert(hex_value(b.drop_last()) == hex_value(b.drop_last().drop_last()) * 16 + hi);
    assert(hex_value(b.drop_last()) == hi as nat);
    assert(hex_value(b) == hi * 16 + lo);
}


/// Each hex digit reads as std's radix-16 digit: `0`-`9` as 0-9, `a`-`f` and
/// `A`-`F` alike as 10-15; no other byte is a digit.
pub proof fn lemma_hex_digit_values(b: u8)
    ensures
        0x30 <= b <= 0x39 ==> hex_digit(b) == Some((b - 0x30) as nat),
        0x61 <= b <= 0x66 ==> hex_digit(b) == Some((b - 0x57) as nat),
        0x41 <= b <= 0x46 ==> hex_digit(b) == Some((b - 0x37) as nat),
        !(0x30 <= b <= 0x39 || 0x61 <= b <= 0x66 || 0x41 <= b <= 0x46) ==> hex_digit(b) is None,
{
}

/// A lone hex digit, with or without a leading `+`, reads as its own value.
pub proof fn lemma_one_digit_reads_as_itself(c: u8, v: nat)
    requires
        (0x30 <= c <= 0x39 && v == c - 0x30) || (0x61 <= c <= 0x66 && v == c - 0x57) || (0x41
            <= c <= 0x46 && v == c - 0x37),
    ensures
        parse_hex_u8(seq![c]) == Some(v as u8),
        parse_hex_u8(seq![0x2bu8, c]) == Some(v as u8),
{
    let d = seq![c];
    assert(d.drop_last() =~= Seq::<u8>::empty());
    assert(hex_value(Seq::<u8>::empty()) == 0);
    assert(d.last() == c);
    assert(hex_digit(c) == Some(v));
    assert(hex_value(d) == hex_value(d.drop_last()) * 16 + v);
    assert(hex_value(d) == v);
    assert(all_hex_digits(d));
    assert(seq![0x2bu8, c].drop_first() =~= d);
}

/// Two hex digits of either case read as the byte they write: the first as
/// the high nibble, the second as the low one.
pub proof fn lemma_two_digits_read_as_a_byte(c1: u8, v1: nat, c2: u8, v2: nat)
    requires
        (0x30 <= c1 <= 0x39 && v1 == c1 - 0x30) || (0x61 <= c1 <= 0x66 && v1 == c1 - 0x57) || (
        0x41 <= c1 <= 0x46 && v1 == c1 - 0x37),
        (0x30 <= c2 <= 0x39 && v2 == c2 - 0x30) || (0x61 <= c2 <= 0x66 && v2 == c2 - 0x57) || (
        0x41 <= c2 <= 0x46 && v2 == c2 - 0x37),
    ensures
        parse_hex_u8(seq![c1, c2]) == Some((16 * v1 + v2) as u8),
{
    lemma_one_digit_reads_as_itself(c1, v1);
    assert(v1 <= 15 && v2 <= 15);
    lemma_digit_appended(seq![c1], v1 as u8, c2, v2);
    assert(seq![c1].push(c2) =~= seq![c1, c2]);
}

/// Reading is positional: appending one hex digit of value `v` to digits that
/// read as `x` reads as `16 * x + v`, or fails when that exceeds a byte.
pub proof fn lemma_digit_appended(d: Seq<u8>, x: u8, c: u8, v: nat)
    requires
        d.len() > 0,
        d[0] != 0x2b,
        parse_hex_u8(d) == Some(x),
        (0x30 <= c <= 0x39 && v == c - 0x30) || (0x61 <= c <= 0x66 && v == c - 0x57) || (0x41
            <= c <= 0x46 && v == c - 0x37),
    ensures
        16 * x + v <= 255 ==> parse_hex_u8(d.push(c)) == Some((16 * x + v) as u8),
        16 * x + v > 255 ==> parse_hex_u8(d.push(c)) is None,
{
    let e = d.push(c);
    assert(e[0] == d[0]);
    assert(e.drop_last() =~= d);
    assert(e.last() == c);
    assert(all_hex_digits(e)) by {
        assert forall|i: int| 0 <= i < e.len() implies #[trigger] hex_digit(e[i]) is Some by {
            if i < d.len() {
                assert(e[i] == d[i]);
            }
        }
    }
    assert(hex_digit(c) == Some(v));
    assert(hex_value(e) == hex_value(d) * 16 + v);
}

} // verus!
