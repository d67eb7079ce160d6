//! The calls this library makes into outside crates and into parts of `std`
//! that `vstd` does not specify. Each item's contract is believed, not proved;
//! its doc comment says what it claims of the code it calls.
use vstd::prelude::*;
use vstd::arithmetic::power2::pow2;

verus! {

/// The bytes that `base64`'s `STANDARD` engine (standard alphabet, canonical
/// padding required) decodes `text` to, or none where it refuses `text`.
pub uninterp spec fn base64_decoding(text: Seq<char>) -> Option<Seq<u8>>;

/// The character of the standard base64 alphabet that stands for the 6-bit
/// value `v` (0 to 63): `A`-`Z`, `a`-`z`, `0`-`9`, `+` and `/`.
pub open spec fn base64_digit(v: int) -> char {
    if v < 26 {
        ('A' as int + v) as char
    } else if v < 52 {
        ('a' as int + (v - 26)) as char
    } else if v < 62 {
        ('0' as int + (v - 52)) as char
    } else if v == 62 {
        '+'
    } else {
        '/'
    }
}

/// The standard base64 text of `bytes`, with padding: each group of three
/// bytes becomes four digits of six bits each, most significant first; a
/// last group of one or two bytes is filled with zero bits and padded with
/// `=` to four characters.
pub open spec fn base64_encoding(bytes: Seq<u8>) -> Seq<char>
    decreases bytes.len(),
{
    if bytes.len() == 0 {
        Seq::empty()
    } else if bytes.len() == 1 {
        let b0 = bytes[0] as int;
        seq![base64_digit(b0 / 4), base64_digit((b0 % 4) * 16), '=', '=']
    } else if bytes.len() == 2 {
        let (b0, b1) = (bytes[0] as int, bytes[1] as int);
        seq![
            base64_digit(b0 / 4),
            base64_digit((b0 % 4) * 16 + b1 / 16),
            base64_digit((b1 % 16) * 4),
            '=',
        ]
    } else {
        let (b0, b1, b2) = (bytes[0] as int, bytes[1] as int, bytes[2] as int);
        seq![
            base64_digit(b0 / 4),
            base64_digit((b0 % 4) * 16 + b1 / 16),
            base64_digit((b1 % 16) * 4 + b2 / 64),
            base64_digit(b2 % 64),
        ] + base64_encoding(bytes.skip(3))
    }
}

/// The characters of the Crockford base32 alphabet that `ulid` writes with.
pub open spec fn is_crockford_char(c: char) -> bool {
    ('0' <= c <= '9') || ('A' <= c <= 'Z' && c != 'I' && c != 'L' && c != 'O' && c != 'U')
}

/// The character that stands for the 5-bit group `d` (0 to 31) in Crockford
/// base32: `0`-`9`, then the capital letters without `I`, `L`, `O` and `U`.
pub open spec fn crockford_digit(d: int) -> char {
    if d < 10 {
        ('0' as int + d) as char
    } else if d < 18 {
        ('A' as int + (d - 10)) as char
    } else if d < 20 {
        ('J' as int + (d - 18)) as char
    } else if d < 22 {
        ('M' as int + (d - 20)) as char
    } else if d < 27 {
        ('P' as int + (d - 22)) as char
    } else {
        ('V' as int + (d - 27)) as char
    }
}

/// The text of a ULID with value `value`: 26 Crockford base32 digits, most
/// significant first, each standing for 5 bits of the value (the first for
/// its top 3 bits).
pub open spec fn ulid_text(value: int) -> Seq<char> {
    Seq::new(26, |i: int| crockford_digit((value / pow2((5 * (25 - i)) as nat) as int) % 32))
}

/// The value of the ULID made of the millisecond timestamp `ms` and the
/// random bits `random`: the low 48 bits of `ms` above the low 80 bits of
/// `random`.
pub open spec fn ulid_value(ms: int, random: int) -> int {
    (ms % 0x1_0000_0000_0000) * 0x1_0000_0000_0000_0000_0000 + random % 0x1_0000_0000_0000_0000_0000
}

/// Whether `c` is an ASCII digit.
pub open spec fn is_digit(c: char) -> bool {
    '0' <= c <= '9'
}

/// Whether `t` is an RFC 3339 date and time in UTC as `chrono` writes it for
/// a year from 0 to 9999: `YYYY-MM-DDTHH:MM:SS`, then either nothing or a
/// `.` and 3, 6 or 9 digits of the fraction of a second, then `+00:00`.
pub open spec fn is_rfc3339_utc(t: Seq<char>) -> bool {
    let n = t.len() as int;
    &&& n == 25 || n == 29 || n == 32 || n == 35
    &&& forall|i: int|
        0 <= i < 19 && i != 4 && i != 7 && i != 10 && i != 13 && i != 16 ==> is_digit(#[trigger] t[i])
    &&& t[4] == '-' && t[7] == '-' && t[10] == 'T' && t[13] == ':' && t[16] == ':'
    &&& n > 25 ==> t[19] == '.' && forall|i: int| 20 <= i < n - 6 ==> is_digit(#[trigger] t[i])
    &&& t.subrange(n - 6, n) == seq!['+', '0', '0', ':', '0', '0']
}

/// The last second that `chrono` writes with a four-digit year:
/// 9999-12-31T23:59:59 UTC, in seconds since the Unix epoch.
pub const LAST_FOUR_DIGIT_YEAR_SECOND: i64 = 253402300799;

/// The text that `chrono` gives for the instant `secs` seconds and `nanos`
/// nanoseconds after the Unix epoch: `DateTime::from_timestamp(secs,
/// nanos)` rendered by `to_rfc3339`, or none where `from_timestamp` has no
/// such instant.
pub uninterp spec fn rfc3339_text(secs: i64, nanos: u32) -> Option<Seq<char>>;

/// Calls `base64::engine::general_purpose::STANDARD.decode`. Claims that the
/// call succeeds exactly where `base64_decoding` has a value, and then gives
/// those bytes.
#[verifier::external_body]
pub(crate) fn decode_base64(text: &str) -> (decoded: Result<Vec<u8>, base64::DecodeError>)
    ensures
        match decoded {
            Ok(bytes) => base64_decoding(text@) == Some(bytes@),
            Err(_) => base64_decoding(text@) is None,
        },
{
    base64::Engine::decode(&base64::engine::general_purpose::STANDARD, text)
}

/// Calls `base64::engine::general_purpose::STANDARD.encode`. Claims that it
/// gives `base64_encoding(bytes)` (standard alphabet, with padding), and
/// that decoding that text with the same engine gives `bytes` back. The call panics where the encoded length would
/// overflow `usize`; `requires` leaves those inputs out.
#[verifier::external_body]
pub(crate) fn encode_base64(bytes: &[u8]) -> (text: String)
    requires
        (bytes@.len() / 3 + 1) * 4 <= usize::MAX,
    ensures
        text@ == base64_encoding(bytes@),
        base64_decoding(text@) == Some(bytes@),
{
    base64::Engine::encode(&base64::engine::general_purpose::STANDARD, bytes)
}

/// `std::time::SystemTime`, carried opaquely from reading the clock to
/// measuring it against the Unix epoch.
#[verifier::external_type_specification]
#[verifier::external_body]
pub struct ExSystemTime(std::time::SystemTime);

/// Calls `std::time::SystemTime::now`. Nothing is claimed of the result: it
/// is the time at the call.
#[verifier::external_body]
pub(crate) fn clock_now() -> std::time::SystemTime {
    std::time::SystemTime::now()
}

/// Calls `SystemTime::duration_since(UNIX_EPOCH)` on `t`, and hands out the
/// whole seconds and the nanoseconds of the rest of the `Duration`, or none
/// where `t` lies before the epoch. Claims only what `Duration` documents of
/// the nanoseconds: they are fewer than a billion.
#[verifier::external_body]
pub(crate) fn since_unix_epoch(t: &std::time::SystemTime) -> (since: Option<(u64, u32)>)
    ensures
        since matches Some((_, nanos)) ==> nanos < 1_000_000_000,
{
    match t.duration_since(std::time::UNIX_EPOCH) {
        Ok(d) => Some((d.as_secs(), d.subsec_nanos())),
        Err(_) => None,
    }
}

/// Calls `chrono::DateTime::from_timestamp(secs, nanos)` and renders the
/// instant with `to_rfc3339`. Claims that the result is
/// `rfc3339_text(secs, nanos)`, and that for an instant from the epoch to the
/// end of the year 9999 with fewer than a billion nanoseconds there is one,
/// in the shape `is_rfc3339_utc` describes (the offset of `Utc` is zero,
/// written `+00:00`; the fraction is left out where it is zero and otherwise
/// written with 3, 6 or 9 digits).
#[verifier::external_body]
pub(crate) fn rfc3339_at(secs: i64, nanos: u32) -> (text: Option<String>)
    ensures
        match text {
            Some(t) => {
                &&& rfc3339_text(secs, nanos) == Some(t@)
                &&& 0 <= secs <= LAST_FOUR_DIGIT_YEAR_SECOND && nanos < 1_000_000_000
                    ==> is_rfc3339_utc(t@)
            },
            None => {
                &&& rfc3339_text(secs, nanos) is None
                &&& !(0 <= secs <= LAST_FOUR_DIGIT_YEAR_SECOND && nanos < 1_000_000_000)
            },
        },
{
    match chrono::DateTime::from_timestamp(secs, nanos) {
        Some(d) => Some(d.to_rfc3339()),
        None => None,
    }
}

/// Draws 128 bits from the operating system's random source with
/// `rand_core::OsRng`'s `try_fill_bytes`, or none where the source fails.
/// Nothing is claimed of the bits.
#[verifier::external_body]
pub(crate) fn random_u128() -> Option<u128> {
    let mut bytes = [0u8; 16];
    match rand_core::TryRngCore::try_fill_bytes(&mut rand_core::OsRng, &mut bytes) {
        Ok(()) => Some(u128::from_le_bytes(bytes)),
        Err(_) => None,
    }
}

/// Calls `ulid::Ulid::from_parts(ms, random)` and hands out the ULID's value.
/// Claims that it is `ulid_value(ms, random)`: the low 48 bits of `ms`
/// shifted above the low 80 bits of `random`, as the function's masks and
/// shift compute it.
#[verifier::external_body]
pub(crate) fn ulid_from_parts(ms: u64, random: u128) -> (value: u128)
    ensures
        value == ulid_value(ms as int, random as int),
{
    ulid::Ulid::from_parts(ms, random).0
}

/// Calls `ulid::Ulid::to_string` on the ULID with the given value. Claims
/// that the text is `ulid_text(value)`: `ulid`'s encoder writes the 26
/// Crockford base32 digits of the value, taking 5 bits at a time from the
/// low end and filling the text from its last character.
#[verifier::external_body]
pub(crate) fn ulid_to_text(value: u128) -> (text: String)
    ensures
        text@ == ulid_text(value as int),
{
    ulid::Ulid(value).to_string()
}

/// Calls `dirs::data_dir()` and hands out the path's bytes as
/// `OsString::into_encoded_bytes` gives them (on Unix, the path's own bytes,
/// whether or not they are UTF-8), or none where there is no data directory.
/// Nothing is claimed of the result: it depends on the environment and the
/// operating system.
#[verifier::external_body]
pub(crate) fn os_data_dir() -> Option<Vec<u8>> {
    match dirs::data_dir() {
        Some(p) => Some(p.into_os_string().into_encoded_bytes()),
        None => None,
    }
}

/// Calls `String::push`. Claims that `c` is appended to the characters of `s`.
#[verifier::external_body]
pub(crate) fn push_char(s: &mut String, c: char)
    ensures
        final(s)@ == old(s)@.push(c),
{
    s.push(c)
}

} // verus!
