//! The payload transformer: the pure mapping from an upstream sensor payload
//! to a canonical set of telemetry values.
//!
//! Two payload shapes are supported. The text shape is a string of
//! whitespace-separated decimal integers (the decoded uplink field of a
//! JSON-enveloped message); the binary shape reads payload bytes
//! positionally. In both, the first value is an unsigned reading that is
//! offset-adjusted by 50 to recover a signed temperature; the remaining
//! values are humidity, rain height, wind direction and wind intensity, in
//! that order. Malformed input yields a typed [`DecodeError`], never a
//! panic: the receive loop treats it as skip-and-continue.

use vstd::prelude::*;

use crate::telemetry::{Values, ValuesModel};

verus! {

/// Why a single inbound payload could not be turned into telemetry values.
/// Every variant is recoverable: the session skips the message and goes on.
#[derive(Clone, Copy, PartialEq, Eq, Structural, Debug)]
pub enum DecodeError {
    /// The payload is not the expected envelope: not valid JSON, or a
    /// required field is absent or has the wrong type.
    MissingField,
    /// A whitespace-separated token is not a decimal integer in range.
    NonNumericToken,
    /// The payload does not carry exactly the expected number of values.
    WrongTokenCount,
    /// The readings parsed, but the offset-adjusted temperature falls
    /// outside the representable range.
    ValueOutOfRange,
}

/// The temperature reading arrives shifted by this offset so that an
/// unsigned byte can carry a signed range.
pub const TEMPERATURE_OFFSET: i16 = 50;

/// The number of sensor readings a payload must carry.
pub const VALUE_COUNT: usize = 5;

/// The characters `str::split_ascii_whitespace` splits on.
pub open spec fn is_space(c: char) -> bool {
    c == ' ' || c == '\t' || c == '\n' || c == '\r' || c == '\x0c'
}

/// Left-to-right tokenizer: `cur` is the token being read, `acc` the tokens
/// already read.
pub open spec fn split_ws_rec(s: Seq<char>, cur: Seq<char>, acc: Seq<Seq<char>>) -> Seq<Seq<char>>
    decreases s.len(),
{
    if s.len() == 0 {
        if cur.len() == 0 {
            acc
        } else {
            acc.push(cur)
        }
    } else if is_space(s[0]) {
        if cur.len() == 0 {
            split_ws_rec(s.drop_first(), Seq::empty(), acc)
        } else {
            split_ws_rec(s.drop_first(), Seq::empty(), acc.push(cur))
        }
    } else {
        split_ws_rec(s.drop_first(), cur.push(s[0]), acc)
    }
}

/// The maximal whitespace-free tokens of `s`, in order.
pub open spec fn split_whitespace(s: Seq<char>) -> Seq<Seq<char>> {
    split_ws_rec(s, Seq::empty(), Seq::empty())
}

pub open spec fn is_digit(c: char) -> bool {
    '0' <= c && c <= '9'
}

pub open spec fn digit_val(c: char) -> int {
    c as int - 48
}

pub open spec fn all_digits(s: Seq<char>) -> bool {
    forall|i: int| 0 <= i < s.len() ==> is_digit(#[trigger] s[i])
}

/// The integer a digit string denotes, most significant digit first.
pub open spec fn digits_val(s: Seq<char>) -> int
    decreases s.len(),
{
    if s.len() == 0 {
        0
    } else {
        digits_val(s.drop_last()) * 10 + digit_val(s.last())
    }
}

/// The sign a token's optional leading sign character denotes.
pub open spec fn token_sign(t: Seq<char>) -> int {
    if t.len() > 0 && t[0] == '-' {
        -1
    } else {
        1
    }
}

/// The token with its optional leading sign character stripped.
pub open spec fn token_digits(t: Seq<char>) -> Seq<char> {
    if t.len() > 0 && (t[0] == '-' || t[0] == '+') {
        t.drop_first()
    } else {
        t
    }
}

/// The value a signed token denotes, ignoring range.
pub open spec fn token_val(t: Seq<char>) -> int {
    if token_sign(t) == -1 {
        -digits_val(token_digits(t))
    } else {
        digits_val(token_digits(t))
    }
}

/// What `str::parse::<i16>` accepts: an optional sign, then at least one
/// digit, denoting a value within the `i16` range.
pub open spec fn spec_parse_i16(t: Seq<char>) -> Option<int> {
    if token_digits(t).len() > 0 && all_digits(token_digits(t)) && -32768 <= token_val(t)
        <= 32767 {
        Some(token_val(t))
    } else {
        None
    }
}

proof fn lemma_digits_val_nonneg(s: Seq<char>)
    requires
        all_digits(s),
    ensures
        digits_val(s) >= 0,
    decreases s.len(),
{
    if s.len() > 0 {
        assert(all_digits(s.drop_last())) by {
            assert(forall|i: int|
                0 <= i < s.drop_last().len() ==> s.drop_last()[i] == #[trigger] s[i]);
        }
        lemma_digits_val_nonneg(s.drop_last());
    }
}

/// Appending digits never decreases the denoted value: a prefix that is
/// already too large condemns the whole token.
proof fn lemma_digits_val_prefix_le(s: Seq<char>, k: int)
    requires
        all_digits(s),
        0 <= k <= s.len(),
    ensures
        digits_val(s.subrange(0, k)) <= digits_val(s),
    decreases s.len() - k,
{
    if k == s.len() {
        assert(s.subrange(0, k) =~= s);
    } else {
        let t = s.subrange(0, k + 1);
        assert(t.drop_last() =~= s.subrange(0, k));
        assert(all_digits(t)) by {
            assert(forall|i: int| 0 <= i < t.len() ==> t[i] == #[trigger] s[i]);
        }
        lemma_digits_val_nonneg(t.drop_last());
        assert(digits_val(t) == digits_val(t.drop_last()) * 10 + digit_val(t.last()));
        assert(digits_val(t.drop_last()) * 10 >= digits_val(t.drop_last()));
        assert(is_digit(s[k]));
        lemma_digits_val_prefix_le(s, k + 1);
    }
}

/// Parse one token exactly as `str::parse::<i16>` would.
pub fn parse_i16(t: &Vec<char>) -> (r: Option<i16>)
    ensures
        match r {
            Some(v) => spec_parse_i16(t@) == Some(v as int),
            None => spec_parse_i16(t@) is None,
        },
{
    let mut start: usize = 0;
    let mut neg = false;
    if t.len() > 0 && (t[0] == '-' || t[0] == '+') {
        neg = t[0] == '-';
        start = 1;
    }
    let ghost digs = token_digits(t@);
    proof {
        assert(digs =~= t@.subrange(start as int, t@.len() as int));
    }
    if start == t.len() {
        assert(digs.len() == 0);
        return None;
    }
    let mut acc: u32 = 0;
    let mut j: usize = start;
    while j < t.len()
        invariant
            start <= j <= t.len(),
            start <= 1,
            t@.len() > start,
            digs == token_digits(t@),
            digs == t@.subrange(start as int, t@.len() as int),
            neg == (t@[0] == '-' && start == 1),
            start == 1 ==> t@[0] == '-' || t@[0] == '+',
            acc == digits_val(digs.subrange(0, j - start)),
            all_digits(digs.subrange(0, j - start)),
            acc <= 32768,
        decreases t.len() - j,
    {
        let c = t[j];
        let ghost prefix = digs.subrange(0, j - start);
        let ghost prefix2 = digs.subrange(0, j + 1 - start);
        proof {
            assert(prefix2.drop_last() =~= prefix);
            assert(prefix2.last() == digs[j - start]);
            assert(digs[j - start] == t@[j as int]);
        }
        if !(c >= '0' && c <= '9') {
            proof {
                assert(digs[j - start] == c);
                assert(!is_digit(c));
                assert(!all_digits(digs));
                assert(spec_parse_i16(t@) is None);
            }
            return None;
        }
        let d: u32 = (c as u32) - 48;
        assert(d <= 9) by {
            assert(is_digit(c));
        }
        let next: u32 = acc * 10 + d;
        assert(next == digits_val(prefix2));
        if next > 32768 {
            proof {
                assert(all_digits(prefix2));
                if all_digits(digs) {
                    lemma_digits_val_prefix_le(digs, j + 1 - start);
                    assert(digits_val(digs) > 32768);
                    assert(token_sign(t@) == 1 || token_sign(t@) == -1);
                    assert(token_val(t@) > 32767 || token_val(t@) < -32768);
                }
                assert(spec_parse_i16(t@) is None);
            }
            return None;
        }
        acc = next;
        j += 1;
    }
    proof {
        assert(digs.subrange(0, j - start) =~= digs);
        assert(acc == digits_val(digs));
    }
    if neg {
        assert(t@[0] == '-' && start == 1);
        let v: i32 = -(acc as i32);
        assert(token_val(t@) == v as int);
        assert(spec_parse_i16(t@) == Some(v as int));
        Some(v as i16)
    } else {
        proof {
            assert(token_sign(t@) == 1);
            assert(token_val(t@) == acc as int);
        }
        if acc > 32767 {
            assert(spec_parse_i16(t@) is None);
            return None;
        }
        assert(spec_parse_i16(t@) == Some(acc as int));
        Some(acc as i16)
    }
}

/// The character sequences a vector of tokens stands for.
pub open spec fn tokens_view(ts: Seq<Vec<char>>) -> Seq<Seq<char>> {
    ts.map_values(|t: Vec<char>| t@)
}

/// The tokens of `s`, as vectors of characters.
pub fn tokenize(s: &str) -> (r: Vec<Vec<char>>)
    ensures
        tokens_view(r@) == split_whitespace(s@),
{
    let n = s.unicode_len();
    let mut cur: Vec<char> = Vec::new();
    let mut acc: Vec<Vec<char>> = Vec::new();
    let mut i: usize = 0;
    proof {
        assert(s@.skip(0) =~= s@);
        assert(tokens_view(acc@) =~= Seq::<Seq<char>>::empty());
    }
    while i < n
        invariant
            0 <= i <= n,
            n == s@.len(),
            split_ws_rec(s@.skip(i as int), cur@, tokens_view(acc@)) == split_whitespace(s@),
        decreases n - i,
    {
        let c = s.get_char(i);
        let ghost rest = s@.skip(i as int);
        proof {
            assert(rest[0] == s@[i as int]);
            assert(rest.drop_first() =~= s@.skip(i + 1));
        }
        let ghost accv = tokens_view(acc@);
        if c == ' ' || c == '\t' || c == '\n' || c == '\r' || c == '\x0c' {
            if cur.len() > 0 {
                let done = cur;
                cur = Vec::new();
                acc.push(done);
                assert(tokens_view(acc@) =~= accv.push(done@));
            }
            assert(cur@ =~= Seq::<char>::empty());
        } else {
            assert(!is_space(c));
            let ghost curv = cur@;
            cur.push(c);
            assert(cur@ =~= curv.push(c));
        }
        i += 1;
    }
    proof {
        assert(s@.skip(n as int) =~= Seq::<char>::empty());
    }
    if cur.len() > 0 {
        let ghost accv = tokens_view(acc@);
        let done = cur;
        acc.push(done);
        assert(tokens_view(acc@) =~= accv.push(done@));
    }
    acc
}

/// The transformation of a decoded text payload, end to end: tokenize,
/// parse five integers, offset-adjust the first.
pub open spec fn spec_decode_values(s: Seq<char>) -> Result<ValuesModel, DecodeError> {
    let toks = split_whitespace(s);
    if toks.len() != 5 {
        Err(DecodeError::WrongTokenCount)
    } else if spec_parse_i16(toks[0]) is None || spec_parse_i16(toks[1]) is None
        || spec_parse_i16(toks[2]) is None || spec_parse_i16(toks[3]) is None
        || spec_parse_i16(toks[4]) is None {
        Err(DecodeError::NonNumericToken)
    } else {
        let t = spec_parse_i16(toks[0])->Some_0;
        if t - 50 < -32768 {
            Err(DecodeError::ValueOutOfRange)
        } else {
            Ok(ValuesModel {
                temperature: t - 50,
                humidity: spec_parse_i16(toks[1])->Some_0,
                rain_height: spec_parse_i16(toks[2])->Some_0,
                wind_direction: spec_parse_i16(toks[3])->Some_0,
                wind_intensity: spec_parse_i16(toks[4])->Some_0,
            })
        }
    }
}

/// Decode a text payload of five whitespace-separated readings into
/// canonical values.
pub fn decode_values(s: &str) -> (r: Result<Values, DecodeError>)
    ensures
        match r {
            Ok(v) => spec_decode_values(s@) == Ok::<ValuesModel, DecodeError>(v@),
            Err(e) => spec_decode_values(s@) == Err::<ValuesModel, DecodeError>(e),
        },
{
    let toks = tokenize(s);
    if toks.len() != VALUE_COUNT {
        return Err(DecodeError::WrongTokenCount);
    }
    let raw0 = parse_i16(&toks[0]);
    let raw1 = parse_i16(&toks[1]);
    let raw2 = parse_i16(&toks[2]);
    let raw3 = parse_i16(&toks[3]);
    let raw4 = parse_i16(&toks[4]);
    match (raw0, raw1, raw2, raw3, raw4) {
        (Some(t), Some(h), Some(r), Some(wd), Some(wi)) => {
            if t < i16::MIN + TEMPERATURE_OFFSET {
                Err(DecodeError::ValueOutOfRange)
            } else {
                Ok(Values::new(t - TEMPERATURE_OFFSET, h, wd, wi, r))
            }
        }
        _ => Err(DecodeError::NonNumericToken),
    }
}

/// The transformation of a binary fixed-width payload: each byte is one
/// reading, the first offset-adjusted.
pub open spec fn spec_decode_binary(p: Seq<u8>) -> Result<ValuesModel, DecodeError> {
    if p.len() != 5 {
        Err(DecodeError::WrongTokenCount)
    } else {
        Ok(ValuesModel {
            temperature: p[0] - 50,
            humidity: p[1] as int,
            rain_height: p[2] as int,
            wind_direction: p[3] as int,
            wind_intensity: p[4] as int,
        })
    }
}

/// Decode a binary fixed-width payload of five readings, one byte each.
/// When the upstream prefixes a device-index byte, the caller strips it
/// first (see [`split_device_index`]).
pub fn decode_binary(p: &[u8]) -> (r: Result<Values, DecodeError>)
    ensures
        match r {
            Ok(v) => spec_decode_binary(p@) == Ok::<ValuesModel, DecodeError>(v@),
            Err(e) => spec_decode_binary(p@) == Err::<ValuesModel, DecodeError>(e),
        },
{
    if p.len() != VALUE_COUNT {
        return Err(DecodeError::WrongTokenCount);
    }
    let t: i16 = p[0] as i16 - TEMPERATURE_OFFSET;
    Ok(Values::new(t, p[1] as i16, p[3] as i16, p[4] as i16, p[2] as i16))
}

/// Split a binary payload whose first byte is a device index from the
/// readings that follow it.
pub fn split_device_index(p: &[u8]) -> (r: Option<(u8, Vec<u8>)>)
    ensures
        match r {
            Some((ix, rest)) => p@.len() > 0 && ix == p@[0] && rest@ == p@.skip(1),
            None => p@.len() == 0,
        },
{
    if p.len() == 0 {
        return None;
    }
    let ix = p[0];
    let mut rest: Vec<u8> = Vec::new();
    let mut i: usize = 1;
    while i < p.len()
        invariant
            1 <= i <= p@.len(),
            rest@ == p@.subrange(1, i as int),
        decreases p@.len() - i,
    {
        rest.push(p[i]);
        i += 1;
    }
    assert(rest@ =~= p@.skip(1));
    Some((ix, rest))
}

/// The temperature of a well-formed text payload is the first reading
/// minus the fixed offset.
pub proof fn lemma_temperature_offset(s: Seq<char>)
    requires
        spec_decode_values(s) is Ok,
    ensures
        spec_decode_values(s)->Ok_0.temperature == spec_parse_i16(split_whitespace(s)[0])->Some_0
            - 50,
{
}

/// The temperature of a well-formed binary payload is the first byte minus
/// the fixed offset.
pub proof fn lemma_temperature_offset_binary(p: Seq<u8>)
    requires
        spec_decode_binary(p) is Ok,
    ensures
        spec_decode_binary(p)->Ok_0.temperature == p[0] - 50,
{
}

} // verus!
