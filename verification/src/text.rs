//! Text helpers: decimal numbers, lower-case hex, string comparison and
//! building.
use vstd::prelude::*;

verus! {

// ---------------------------------------------------------------------------
// Building strings
// ---------------------------------------------------------------------------

/// Appends one character (`String::push`).
#[verifier::external_body]
pub(crate) fn push_char(s: &mut String, c: char)
    ensures
        final(s)@ == old(s)@.push(c),
{
    s.push(c);
}

/// Appends a string slice.
pub fn push_str(s: &mut String, t: &str)
    ensures
        final(s)@ == old(s)@ + t@,
{
    let n = t.unicode_len();
    let ghost start = s@;
    let mut i: usize = 0;
    while i < n
        invariant
            n == t@.len(),
            i <= n,
            s@ == start + t@.take(i as int),
        decreases n - i,
    {
        let c = t.get_char(i);
        push_char(s, c);
        assert(t@.take(i + 1) =~= t@.take(i as int).push(c));
        i += 1;
    }
    assert(t@.take(n as int) =~= t@);
}

/// A new string holding `t`.
pub fn string_of(t: &str) -> (r: String)
    ensures
        r@ == t@,
{
    let mut s = String::new();
    push_str(&mut s, t);
    s
}

/// Two string slices hold the same characters.
pub fn str_equal(a: &str, b: &str) -> (r: bool)
    ensures
        r == (a@ == b@),
{
    let n = a.unicode_len();
    let m = b.unicode_len();
    if n != m {
        return false;
    }
    let mut i: usize = 0;
    while i < n
        invariant
            n == a@.len(),
            n == b@.len(),
            i <= n,
            forall|j: int| 0 <= j < i ==> a@[j] == b@[j],
        decreases n - i,
    {
        if a.get_char(i) != b.get_char(i) {
            return false;
        }
        i += 1;
    }
    assert(a@ =~= b@);
    true
}

/// Whether `u` is exactly `"lovelace"`.
pub fn is_lovelace_str(u: &str) -> (r: bool)
    ensures
        r == (u@ == seq!['l', 'o', 'v', 'e', 'l', 'a', 'c', 'e']),
{
    let r = str_equal(u, "lovelace");
    proof {
        reveal_strlit("lovelace");
        assert("lovelace"@ =~= seq!['l', 'o', 'v', 'e', 'l', 'a', 'c', 'e']);
    }
    r
}

/// The first `k` characters of `s` (all of them when it is shorter).
pub fn take_chars(s: &str, k: usize) -> (r: String)
    ensures
        r@ == s@.take(if k <= s@.len() { k as int } else { s@.len() as int }),
{
    let n = s.unicode_len();
    let end = if k <= n {
        k
    } else {
        n
    };
    string_of(s.substring_char(0, end))
}

/// The characters of `s` after the first `k` (none when it is shorter).
pub fn skip_chars(s: &str, k: usize) -> (r: String)
    ensures
        r@ == s@.skip(if k <= s@.len() { k as int } else { s@.len() as int }),
{
    let n = s.unicode_len();
    let start = if k <= n {
        k
    } else {
        n
    };
    let r = string_of(s.substring_char(start, n));
    assert(s@.subrange(start as int, n as int) =~= s@.skip(start as int));
    r
}

// ---------------------------------------------------------------------------
// Decimal numbers
// ---------------------------------------------------------------------------

pub open spec fn is_decimal_digit(c: char) -> bool {
    '0' <= c <= '9'
}

pub open spec fn all_decimal_digits(s: Seq<char>) -> bool {
    forall|i: int| 0 <= i < s.len() ==> is_decimal_digit(#[trigger] s[i])
}

/// The number written by the decimal digits `s`.
pub open spec fn digits_value(s: Seq<char>) -> nat
    decreases s.len(),
{
    if s.len() == 0 {
        0
    } else {
        (digits_value(s.drop_last()) * 10 + (s.last() as int - '0' as int)) as nat
    }
}

/// The integer written by `s`: an optional sign followed by at least one
/// decimal digit, as Rust's integer parsing reads it.
pub open spec fn parse_decimal(s: Seq<char>) -> Option<int> {
    if s.len() > 0 && (s[0] == '-' || s[0] == '+') {
        let d = s.drop_first();
        if d.len() > 0 && all_decimal_digits(d) {
            Some(
                if s[0] == '-' {
                    -digits_value(d)
                } else {
                    digits_value(d) as int
                },
            )
        } else {
            None
        }
    } else if s.len() > 0 && all_decimal_digits(s) {
        Some(digits_value(s) as int)
    } else {
        None
    }
}

/// What `str::parse::<i128>` gives for `s`.
pub open spec fn parse_i128_spec(s: Seq<char>) -> Option<i128> {
    match parse_decimal(s) {
        Some(v) => if i128::MIN <= v <= i128::MAX {
            Some(v as i128)
        } else {
            None
        },
        None => None,
    }
}

/// What `str::parse::<u64>` gives for `s` (no minus sign allowed).
pub open spec fn parse_u64_spec(s: Seq<char>) -> Option<u64> {
    if s.len() > 0 && s[0] == '-' {
        None
    } else {
        match parse_decimal(s) {
            Some(v) => if 0 <= v <= u64::MAX {
                Some(v as u64)
            } else {
                None
            },
            None => None,
        }
    }
}

proof fn lemma_digits_value_prefix(s: Seq<char>, k: int)
    requires
        0 <= k <= s.len(),
        all_decimal_digits(s),
    ensures
        digits_value(s.take(k)) <= digits_value(s),
    decreases s.len() - k,
{
    if k < s.len() {
        assert(s.take(k + 1).drop_last() =~= s.take(k));
        assert(s.take(k + 1).last() == s[k]);
        assert(is_decimal_digit(s[k]));
        lemma_digits_value_prefix(s, k + 1);
    } else {
        assert(s.take(k) =~= s);
    }
}

/// The digits from position `start` of `s` written as a magnitude, when it
/// does not exceed `limit`; `None` when some character is not a digit or the
/// value exceeds `limit`.
fn parse_magnitude(s: &str, start: usize, limit: u128) -> (r: Option<u128>)
    requires
        start <= s@.len(),
    ensures
        match r {
            Some(m) => all_decimal_digits(s@.skip(start as int)) && m == digits_value(
                s@.skip(start as int),
            ) && m <= limit,
            None => !all_decimal_digits(s@.skip(start as int)) || digits_value(
                s@.skip(start as int),
            ) > limit,
        },
{
    let n = s.unicode_len();
    let ghost d = s@.skip(start as int);
    let mut mag: u128 = 0;
    let mut i: usize = start;
    while i < n
        invariant
            n == s@.len(),
            start <= i <= n,
            d == s@.skip(start as int),
            all_decimal_digits(d.take(i - start)),
            mag == digits_value(d.take(i - start)),
            mag <= limit,
        decreases n - i,
    {
        let c = s.get_char(i);
        let ghost k = i - start;
        assert(d.take(k + 1).drop_last() =~= d.take(k));
        assert(d.take(k + 1).last() == c);
        if !('0' <= c && c <= '9') {
            assert(!is_decimal_digit(d[k]));
            return None;
        }
        let digit = (c as u32 - '0' as u32) as u128;
        let next = match mag.checked_mul(10) {
            Some(t) => t.checked_add(digit),
            None => None,
        };
        match next {
            Some(v) => {
                if v > limit {
                    proof {
                        assert(all_decimal_digits(d.take(k + 1)));
                        if all_decimal_digits(d) {
                            lemma_digits_value_prefix(d, k + 1);
                        }
                    }
                    return None;
                }
                mag = v;
            },
            None => {
                proof {
                    assert(all_decimal_digits(d.take(k + 1)));
                    assert(digits_value(d.take(k + 1)) > u128::MAX);
                    if all_decimal_digits(d) {
                        lemma_digits_value_prefix(d, k + 1);
                    }
                }
                return None;
            },
        }
        i += 1;
    }
    assert(d.take(n - start) =~= d);
    Some(mag)
}

/// `str::parse::<i128>`.
pub fn parse_i128(s: &str) -> (r: Option<i128>)
    ensures
        r == parse_i128_spec(s@),
{
    let n = s.unicode_len();
    if n == 0 {
        return None;
    }
    let first = s.get_char(0);
    let neg = first == '-';
    let signed = first == '-' || first == '+';
    let start: usize = if signed {
        1
    } else {
        0
    };
    assert(s@.skip(1) =~= s@.drop_first());
    assert(s@.skip(0) =~= s@);
    if signed && n == 1 {
        return None;
    }
    let limit: u128 = if neg {
        0x8000_0000_0000_0000_0000_0000_0000_0000
    } else {
        0x7fff_ffff_ffff_ffff_ffff_ffff_ffff_ffff
    };
    match parse_magnitude(s, start, limit) {
        Some(m) => {
            if neg {
                if m == 0x8000_0000_0000_0000_0000_0000_0000_0000 {
                    Some(i128::MIN)
                } else {
                    Some(-(m as i128))
                }
            } else {
                Some(m as i128)
            }
        },
        None => None,
    }
}

/// `str::parse::<u64>`.
pub fn parse_u64(s: &str) -> (r: Option<u64>)
    ensures
        r == parse_u64_spec(s@),
{
    let n = s.unicode_len();
    if n == 0 {
        return None;
    }
    let first = s.get_char(0);
    if first == '-' {
        return None;
    }
    let signed = first == '+';
    let start: usize = if signed {
        1
    } else {
        0
    };
    assert(s@.skip(1) =~= s@.drop_first());
    assert(s@.skip(0) =~= s@);
    if signed && n == 1 {
        return None;
    }
    match parse_magnitude(s, start, 0xffff_ffff_ffff_ffff) {
        Some(m) => Some(m as u64),
        None => None,
    }
}

/// The decimal digit for `d < 10`.
pub open spec fn digit_char(d: nat) -> char {
    (d + '0' as nat) as char
}

/// The decimal writing of `n`, without leading zeros.
pub open spec fn decimal(n: nat) -> Seq<char>
    decreases n,
{
    if n < 10 {
        seq![digit_char(n)]
    } else {
        decimal(n / 10).push(digit_char(n % 10))
    }
}

/// The decimal writing of a signed integer, with a leading `-` when negative.
pub open spec fn signed_decimal(n: int) -> Seq<char> {
    if n < 0 {
        seq!['-'] + decimal((-n) as nat)
    } else {
        decimal(n as nat)
    }
}

fn digit_to_char(d: u128) -> (c: char)
    requires
        d < 10,
    ensures
        c == digit_char(d as nat),
{
    let b: u8 = (d as u8) + 48;
    b as char
}

/// Appends the decimal writing of `n`.
pub fn push_decimal(s: &mut String, n: u128)
    ensures
        final(s)@ == old(s)@ + decimal(n as nat),
    decreases n,
{
    if n < 10 {
        push_char(s, digit_to_char(n));
        assert(decimal(n as nat) =~= seq![digit_char(n as nat)]);
    } else {
        push_decimal(s, n / 10);
        push_char(s, digit_to_char(n % 10));
        assert(decimal(n as nat) == decimal((n / 10) as nat).push(digit_char((n % 10) as nat)));
    }
}

/// Appends the decimal writing of a signed integer.
pub fn push_signed_decimal(s: &mut String, n: i128)
    ensures
        final(s)@ == old(s)@ + signed_decimal(n as int),
{
    if n < 0 {
        push_char(s, '-');
        let m: u128 = if n == i128::MIN {
            0x8000_0000_0000_0000_0000_0000_0000_0000
        } else {
            (-n) as u128
        };
        push_decimal(s, m);
    } else {
        push_decimal(s, n as u128);
    }
}

/// The decimal writing of `n`.
pub fn u64_to_decimal(n: u64) -> (r: String)
    ensures
        r@ == decimal(n as nat),
{
    let mut s = String::new();
    push_decimal(&mut s, n as u128);
    s
}

// ---------------------------------------------------------------------------
// Hex
// ---------------------------------------------------------------------------

/// The lower-case hex digit for a nibble.
pub open spec fn hex_digit(n: nat) -> char {
    if n < 10 {
        (n + '0' as nat) as char
    } else {
        (n - 10 + 'a' as nat) as char
    }
}

/// Lower-case hex encoding, two digits per byte.
pub open spec fn hex_encode_spec(b: Seq<u8>) -> Seq<char>
    decreases b.len(),
{
    if b.len() == 0 {
        Seq::empty()
    } else {
        hex_encode_spec(b.drop_last()).push(hex_digit((b.last() / 16) as nat)).push(
            hex_digit((b.last() % 16) as nat),
        )
    }
}

fn nibble_char(n: u8) -> (c: char)
    requires
        n < 16,
    ensures
        c == hex_digit(n as nat),
{
    if n < 10 {
        (n + 48) as char
    } else {
        (n - 10 + 97) as char
    }
}

/// Appends the lower-case hex encoding of `bytes`.
pub fn push_hex(s: &mut String, bytes: &[u8])
    ensures
        final(s)@ == old(s)@ + hex_encode_spec(bytes@),
{
    let ghost start = s@;
    let n = bytes.len();
    let mut i: usize = 0;
    while i < n
        invariant
            n == bytes@.len(),
            i <= n,
            s@ == start + hex_encode_spec(bytes@.take(i as int)),
        decreases n - i,
    {
        let b = bytes[i];
        push_char(s, nibble_char(b / 16));
        push_char(s, nibble_char(b % 16));
        assert(bytes@.take(i + 1).drop_last() =~= bytes@.take(i as int));
        assert(bytes@.take(i + 1).last() == b);
        assert(s@ =~= start + hex_encode_spec(bytes@.take(i + 1)));
        i += 1;
    }
    assert(bytes@.take(n as int) =~= bytes@);
}

/// Lower-case hex encoding of `bytes` (what `hex::encode` gives).
pub fn hex_encode(bytes: &[u8]) -> (r: String)
    ensures
        r@ == hex_encode_spec(bytes@),
{
    let mut s = String::new();
    push_hex(&mut s, bytes);
    assert(s@ =~= hex_encode_spec(bytes@));
    s
}

/// The value of a hex digit, in either case.
pub open spec fn hex_value(c: char) -> Option<u8> {
    if '0' <= c && c <= '9' {
        Some((c as int - '0' as int) as u8)
    } else if 'a' <= c && c <= 'f' {
        Some((c as int - 'a' as int + 10) as u8)
    } else if 'A' <= c && c <= 'F' {
        Some((c as int - 'A' as int + 10) as u8)
    } else {
        None
    }
}

/// An even number of hex digits.
pub open spec fn is_hex_text(s: Seq<char>) -> bool {
    s.len() % 2 == 0 && forall|i: int| 0 <= i < s.len() ==> (#[trigger] hex_value(s[i])) is Some
}

/// The bytes that a hex text writes, two digits per byte.
pub open spec fn hex_decode_spec(s: Seq<char>) -> Seq<u8> {
    Seq::new(
        s.len() / 2,
        |i: int| (hex_value(s[2 * i])->0 as int * 16 + hex_value(s[2 * i + 1])->0 as int) as u8,
    )
}

/// The message of `hex::decode` refusing a text.
pub uninterp spec fn hex_decode_error(s: Seq<char>) -> Seq<char>;

/// Decodes hex text (`hex::decode`, the error as its message): it succeeds
/// exactly on an even number of hex digits, of either case.
#[verifier::external_body]
pub(crate) fn decode_hex(s: &str) -> (r: Result<Vec<u8>, String>)
    ensures
        r is Ok <==> is_hex_text(s@),
        r matches Ok(v) ==> v@ == hex_decode_spec(s@),
        r matches Err(e) ==> e@ == hex_decode_error(s@),
{
    hex::decode(s).map_err(|e| e.to_string())
}

/// A copy of a byte string.
pub fn copy_bytes(v: &Vec<u8>) -> (r: Vec<u8>)
    ensures
        r@ == v@,
{
    let r = v.clone();
    assert(r@ =~= v@);
    r
}

} // verus!
