//! Plain values in the encoding of the `bincode` crate: integers little-endian
//! in full width, a boolean as one byte, a string or byte vector behind its
//! length in eight bytes.
use crate::bytes::{le_bytes, le_value};
use crate::error::WireError;
use vstd::prelude::*;
use vstd::slice::slice_subrange;
use vstd::utf8::{decode_utf8, encode_utf8, valid_utf8};

verus! {

/// What `bincode` reports on failure. Nothing of its contents is used.
#[verifier::external_type_specification]
#[verifier::external_body]
pub struct ExBincodeErrorKind(bincode::ErrorKind);

/// A boolean as the byte that encodes it.
pub open spec fn bool_byte(b: bool) -> u8 {
    if b {
        1
    } else {
        0
    }
}

/// The encoding of a byte vector: its length in eight bytes, then the bytes.
pub open spec fn blob_bytes(s: Seq<u8>) -> Seq<u8> {
    le_bytes(s.len(), 8) + s
}

/// The encoding of a string: that of its UTF-8 bytes.
pub open spec fn string_bytes(s: Seq<char>) -> Seq<u8> {
    blob_bytes(encode_utf8(s))
}

/// `bincode::serialize` of a `u8`: the byte itself, and never an error.
#[verifier::external_body]
fn serialize_u8(x: u8) -> (r: Result<Vec<u8>, bincode::Error>)
    ensures
        r is Ok,
        r->Ok_0@ == seq![x],
{
    bincode::serialize(&x)
}

/// `bincode::serialize` of a `bool`: one byte, 1 for true, and never an error.
#[verifier::external_body]
fn serialize_bool(x: bool) -> (r: Result<Vec<u8>, bincode::Error>)
    ensures
        r is Ok,
        r->Ok_0@ == seq![bool_byte(x)],
{
    bincode::serialize(&x)
}

/// `bincode::serialize` of a `u16`: two bytes, least significant first, and
/// never an error.
#[verifier::external_body]
fn serialize_u16(x: u16) -> (r: Result<Vec<u8>, bincode::Error>)
    ensures
        r is Ok,
        r->Ok_0@ == le_bytes(x as nat, 2),
{
    bincode::serialize(&x)
}

/// `bincode::serialize` of a `u32`: four bytes, least significant first, and
/// never an error.
#[verifier::external_body]
fn serialize_u32(x: u32) -> (r: Result<Vec<u8>, bincode::Error>)
    ensures
        r is Ok,
        r->Ok_0@ == le_bytes(x as nat, 4),
{
    bincode::serialize(&x)
}

/// `bincode::serialize` of a `u64`: eight bytes, least significant first, and
/// never an error.
#[verifier::external_body]
fn serialize_u64(x: u64) -> (r: Result<Vec<u8>, bincode::Error>)
    ensures
        r is Ok,
        r->Ok_0@ == le_bytes(x as nat, 8),
{
    bincode::serialize(&x)
}

/// `bincode::serialize` of a `str`: the length of its UTF-8 bytes as a `u64`,
/// then those bytes, and never an error.
#[verifier::external_body]
fn serialize_str(x: &str) -> (r: Result<Vec<u8>, bincode::Error>)
    ensures
        r is Ok,
        r->Ok_0@ == string_bytes(x@),
{
    bincode::serialize(x)
}

/// `bincode::serialize` of a byte slice: its length as a `u64`, then its bytes,
/// and never an error.
#[verifier::external_body]
fn serialize_blob(x: &[u8]) -> (r: Result<Vec<u8>, bincode::Error>)
    ensures
        r is Ok,
        r->Ok_0@ == blob_bytes(x@),
{
    bincode::serialize(x)
}

/// `bincode::deserialize` to a `u8`: the first byte, whatever follows it; an
/// error where there is none.
#[verifier::external_body]
fn deserialize_u8(data: &[u8]) -> (r: Result<u8, bincode::Error>)
    ensures
        match r {
            Ok(x) => data@.len() >= 1 && x == data@[0],
            Err(_) => data@.len() < 1,
        },
{
    bincode::deserialize(data)
}

/// `bincode::deserialize` to a `bool`: false for a first byte of 0 and true for
/// 1, whatever follows; an error for any other byte, and where there is none.
#[verifier::external_body]
fn deserialize_bool(data: &[u8]) -> (r: Result<bool, bincode::Error>)
    ensures
        match r {
            Ok(x) => data@.len() >= 1 && data@[0] == bool_byte(x),
            Err(_) => data@.len() < 1 || data@[0] > 1,
        },
{
    bincode::deserialize(data)
}

/// `bincode::deserialize` to a `u16`: the value of the first two bytes, least
/// significant first, whatever follows; an error where there are fewer.
#[verifier::external_body]
fn deserialize_u16(data: &[u8]) -> (r: Result<u16, bincode::Error>)
    ensures
        match r {
            Ok(x) => data@.len() >= 2 && x == le_value(data@.take(2)),
            Err(_) => data@.len() < 2,
        },
{
    bincode::deserialize(data)
}

/// `bincode::deserialize` to a `u32`: the value of the first four bytes, least
/// significant first, whatever follows; an error where there are fewer.
#[verifier::external_body]
fn deserialize_u32(data: &[u8]) -> (r: Result<u32, bincode::Error>)
    ensures
        match r {
            Ok(x) => data@.len() >= 4 && x == le_value(data@.take(4)),
            Err(_) => data@.len() < 4,
        },
{
    bincode::deserialize(data)
}

/// `bincode::deserialize` to a `u64`: the value of the first eight bytes, least
/// significant first, whatever follows; an error where there are fewer.
#[verifier::external_body]
fn deserialize_u64(data: &[u8]) -> (r: Result<u64, bincode::Error>)
    ensures
        match r {
            Ok(x) => data@.len() >= 8 && x == le_value(data@.take(8)),
            Err(_) => data@.len() < 8,
        },
{
    bincode::deserialize(data)
}

/// Whether `s` starts with a length of eight bytes and that many bytes.
pub open spec fn has_blob(s: Seq<u8>) -> bool {
    s.len() >= 8 && s.len() - 8 >= le_value(s.take(8))
}

/// The bytes behind the length at the start of `s`.
pub open spec fn blob_of(s: Seq<u8>) -> Seq<u8> {
    s.subrange(8, 8 + le_value(s.take(8)) as int)
}

/// Number of bytes up to which `s` is UTF-8: the longest part from the start on
/// that is.
pub open spec fn valid_prefix(s: Seq<u8>) -> nat
    decreases s.len(),
{
    if s.len() == 0 || valid_utf8(s) {
        s.len()
    } else {
        valid_prefix(s.drop_last())
    }
}

/// What `std::str::Utf8Error::error_len` gives for bytes that are not UTF-8: the
/// length of what is wrong at the first such place; nothing where they end too early.
pub uninterp spec fn utf8_error_len(s: Seq<u8>) -> Option<usize>;

/// `bincode::deserialize` to a `String`: the string whose UTF-8 bytes follow
/// their length, whatever comes behind. Where those bytes are not UTF-8, the error
/// says up to where they are, and how long the wrong part is; the latter is named
/// and not described. Any other error means that the bytes end too early.
#[verifier::external_body]
fn deserialize_string(data: &[u8]) -> (r: Result<String, Option<(usize, Option<usize>)>>)
    ensures
        match r {
            Ok(x) => has_blob(data@) && valid_utf8(blob_of(data@)) && x@ == decode_utf8(
                blob_of(data@),
            ),
            Err(Some((valid_up_to, error_len))) => has_blob(data@) && !valid_utf8(blob_of(data@))
                && valid_up_to == valid_prefix(blob_of(data@)) && error_len == utf8_error_len(
                blob_of(data@),
            ),
            Err(None) => !has_blob(data@),
        },
{
    match bincode::deserialize(data) {
        Ok(x) => Ok(x),
        Err(e) => match *e {
            bincode::ErrorKind::InvalidUtf8Encoding(u) => {
                Err(Some((u.valid_up_to(), u.error_len())))
            },
            _ => Err(None),
        },
    }
}

/// `bincode::deserialize` to a `Vec<u8>`: the bytes that follow their length,
/// whatever comes behind; an error where they end too early.
#[verifier::external_body]
fn deserialize_blob(data: &[u8]) -> (r: Result<Vec<u8>, bincode::Error>)
    ensures
        match r {
            Ok(x) => has_blob(data@) && x@ == blob_of(data@),
            Err(_) => !has_blob(data@),
        },
{
    bincode::deserialize(data)
}

/// Appends the encoding of a `u8`.
pub fn put_u8(out: &mut Vec<u8>, x: u8)
    ensures
        final(out)@ == old(out)@ + seq![x],
{
    match serialize_u8(x) {
        Ok(mut v) => out.append(&mut v),
        Err(_) => {},
    }
}

/// Appends the encoding of a `bool`.
pub fn put_bool(out: &mut Vec<u8>, x: bool)
    ensures
        final(out)@ == old(out)@ + seq![bool_byte(x)],
{
    match serialize_bool(x) {
        Ok(mut v) => out.append(&mut v),
        Err(_) => {},
    }
}

/// Appends the encoding of a `u16`.
pub fn put_u16(out: &mut Vec<u8>, x: u16)
    ensures
        final(out)@ == old(out)@ + le_bytes(x as nat, 2),
{
    match serialize_u16(x) {
        Ok(mut v) => out.append(&mut v),
        Err(_) => {},
    }
}

/// Appends the encoding of a `u32`.
pub fn put_u32(out: &mut Vec<u8>, x: u32)
    ensures
        final(out)@ == old(out)@ + le_bytes(x as nat, 4),
{
    match serialize_u32(x) {
        Ok(mut v) => out.append(&mut v),
        Err(_) => {},
    }
}

/// Appends the encoding of a `u64`.
pub fn put_u64(out: &mut Vec<u8>, x: u64)
    ensures
        final(out)@ == old(out)@ + le_bytes(x as nat, 8),
{
    match serialize_u64(x) {
        Ok(mut v) => out.append(&mut v),
        Err(_) => {},
    }
}

/// Appends the encoding of a string.
pub fn put_str(out: &mut Vec<u8>, x: &str)
    ensures
        final(out)@ == old(out)@ + string_bytes(x@),
{
    match serialize_str(x) {
        Ok(mut v) => out.append(&mut v),
        Err(_) => {},
    }
}

/// Appends the encoding of a byte vector.
pub fn put_blob(out: &mut Vec<u8>, x: &[u8])
    ensures
        final(out)@ == old(out)@ + blob_bytes(x@),
{
    match serialize_blob(x) {
        Ok(mut v) => out.append(&mut v),
        Err(_) => {},
    }
}

/// The number in the `n` bytes of `s` from `pos` on, least significant first.
pub open spec fn int_at(s: Seq<u8>, pos: int, n: nat) -> nat {
    le_value(s.subrange(pos, pos + n))
}

/// The boolean at `pos`.
pub open spec fn bool_at(s: Seq<u8>, pos: int) -> bool {
    s[pos] == 1
}

/// Reads the `u8` at `pos`.
pub fn get_u8(data: &[u8], pos: usize) -> (r: Result<u8, WireError>)
    requires
        pos <= data@.len(),
    ensures
        r == (if pos + 1 <= data@.len() {
            Ok::<u8, WireError>(data@[pos as int])
        } else {
            Err(WireError::UnexpectedEnd)
        }),
{
    match deserialize_u8(slice_subrange(data, pos, data.len())) {
        Ok(x) => Ok(x),
        Err(_) => Err(WireError::UnexpectedEnd),
    }
}

/// Reads the `bool` at `pos`.
pub fn get_bool(data: &[u8], pos: usize) -> (r: Result<bool, WireError>)
    requires
        pos <= data@.len(),
    ensures
        r == (if pos + 1 > data@.len() {
            Err::<bool, WireError>(WireError::UnexpectedEnd)
        } else if data@[pos as int] > 1 {
            Err(WireError::InvalidBool(data@[pos as int]))
        } else {
            Ok(bool_at(data@, pos as int))
        }),
{
    match deserialize_bool(slice_subrange(data, pos, data.len())) {
        Ok(x) => Ok(x),
        Err(_) => if pos < data.len() {
            Err(WireError::InvalidBool(data[pos]))
        } else {
            Err(WireError::UnexpectedEnd)
        },
    }
}

/// Reads the `u16` at `pos`.
pub fn get_u16(data: &[u8], pos: usize) -> (r: Result<u16, WireError>)
    requires
        pos <= data@.len(),
    ensures
        match r {
            Ok(x) => pos + 2 <= data@.len() && x == int_at(data@, pos as int, 2),
            Err(e) => pos + 2 > data@.len() && e == WireError::UnexpectedEnd,
        },
{
    let rest = slice_subrange(data, pos, data.len());
    proof {
        if rest@.len() >= 2 {
            assert(rest@.take(2) =~= data@.subrange(pos as int, pos + 2));
        }
    }
    match deserialize_u16(rest) {
        Ok(x) => Ok(x),
        Err(_) => Err(WireError::UnexpectedEnd),
    }
}

/// Reads the `u32` at `pos`.
pub fn get_u32(data: &[u8], pos: usize) -> (r: Result<u32, WireError>)
    requires
        pos <= data@.len(),
    ensures
        match r {
            Ok(x) => pos + 4 <= data@.len() && x == int_at(data@, pos as int, 4),
            Err(e) => pos + 4 > data@.len() && e == WireError::UnexpectedEnd,
        },
{
    let rest = slice_subrange(data, pos, data.len());
    proof {
        if rest@.len() >= 4 {
            assert(rest@.take(4) =~= data@.subrange(pos as int, pos + 4));
        }
    }
    match deserialize_u32(rest) {
        Ok(x) => Ok(x),
        Err(_) => Err(WireError::UnexpectedEnd),
    }
}

/// Reads the `u64` at `pos`.
pub fn get_u64(data: &[u8], pos: usize) -> (r: Result<u64, WireError>)
    requires
        pos <= data@.len(),
    ensures
        match r {
            Ok(x) => pos + 8 <= data@.len() && x == int_at(data@, pos as int, 8),
            Err(e) => pos + 8 > data@.len() && e == WireError::UnexpectedEnd,
        },
{
    let rest = slice_subrange(data, pos, data.len());
    proof {
        if rest@.len() >= 8 {
            assert(rest@.take(8) =~= data@.subrange(pos as int, pos + 8));
        }
    }
    match deserialize_u64(rest) {
        Ok(x) => Ok(x),
        Err(_) => Err(WireError::UnexpectedEnd),
    }
}

/// What stops the string at the start of `s` from being read, if anything.
pub open spec fn string_error(s: Seq<u8>) -> Option<WireError> {
    if s.len() < 8 {
        Some(WireError::UnexpectedEnd)
    } else if le_value(s.take(8)) > usize::MAX {
        Some(WireError::InvalidSize(le_value(s.take(8)) as u64))
    } else if !has_blob(s) {
        Some(WireError::StringCutShort)
    } else if !valid_utf8(blob_of(s)) {
        Some(
            WireError::InvalidUtf8 {
                valid_up_to: valid_prefix(blob_of(s)) as usize,
                error_len: utf8_error_len(blob_of(s)),
            },
        )
    } else {
        None
    }
}

/// What stops the byte vector at the start of `s` from being read, if anything.
pub open spec fn blob_error(s: Seq<u8>) -> Option<WireError> {
    if s.len() < 8 {
        Some(WireError::UnexpectedEnd)
    } else if le_value(s.take(8)) > usize::MAX {
        Some(WireError::InvalidSize(le_value(s.take(8)) as u64))
    } else if !has_blob(s) {
        Some(WireError::UnexpectedEnd)
    } else {
        None
    }
}

/// Reads the string at `pos`, and gives the position behind it.
pub fn get_string(data: &[u8], pos: usize) -> (r: Result<(String, usize), WireError>)
    requires
        pos <= data@.len(),
    ensures
        ({
            let s = data@.skip(pos as int);
            match r {
                Ok((x, end)) => string_error(s) is None && x@ == decode_utf8(blob_of(s)) && end
                    == pos + 8 + blob_of(s).len() && end <= data@.len(),
                Err(e) => string_error(s) == Some(e),
            }
        }),
{
    let rest = slice_subrange(data, pos, data.len());
    assert(rest@ =~= data@.skip(pos as int));
    let n: u64 = match deserialize_u64(rest) {
        Ok(n) => n,
        Err(_) => {
            return Err(WireError::UnexpectedEnd);
        },
    };
    if n > usize::MAX as u64 {
        return Err(WireError::InvalidSize(n));
    }
    match deserialize_string(rest) {
        Ok(x) => Ok((x, pos + 8 + n as usize)),
        Err(Some((valid_up_to, error_len))) => Err(
            WireError::InvalidUtf8 { valid_up_to, error_len },
        ),
        Err(None) => Err(WireError::StringCutShort),
    }
}

/// Reads the byte vector at `pos`, and gives the position behind it.
pub fn get_blob(data: &[u8], pos: usize) -> (r: Result<(Vec<u8>, usize), WireError>)
    requires
        pos <= data@.len(),
    ensures
        ({
            let s = data@.skip(pos as int);
            match r {
                Ok((x, end)) => blob_error(s) is None && x@ == blob_of(s) && end == pos + 8
                    + blob_of(s).len() && end <= data@.len(),
                Err(e) => blob_error(s) == Some(e),
            }
        }),
{
    let rest = slice_subrange(data, pos, data.len());
    assert(rest@ =~= data@.skip(pos as int));
    let n: u64 = match deserialize_u64(rest) {
        Ok(n) => n,
        Err(_) => {
            return Err(WireError::UnexpectedEnd);
        },
    };
    if n > usize::MAX as u64 {
        return Err(WireError::InvalidSize(n));
    }
    match deserialize_blob(rest) {
        Ok(x) => {
            let end: usize = pos + 8 + x.len();
            Ok((x, end))
        },
        Err(_) => Err(WireError::UnexpectedEnd),
    }
}

/// A number of one, two or four bytes is read with its least significant byte first.
pub proof fn law_numbers_are_read_least_significant_first(s: Seq<u8>, pos: int)
    requires
        0 <= pos,
        pos + 4 <= s.len(),
    ensures
        int_at(s, pos, 1) == s[pos],
        int_at(s, pos, 2) == s[pos] + 256 * s[pos + 1],
        int_at(s, pos, 4) == s[pos] + 256 * s[pos + 1] + 65536 * s[pos + 2] + 16777216 * s[pos + 3],
        bool_at(s, pos) <==> s[pos] == 1,
{
    reveal_with_fuel(le_value, 5);
    let a = s.subrange(pos, pos + 1);
    let b = s.subrange(pos, pos + 2);
    let c = s.subrange(pos, pos + 4);
    assert(a.skip(1).len() == 0);
    assert(b.skip(1)[0] == s[pos + 1]);
    assert(b.skip(1).skip(1).len() == 0);
    crate::bytes::lemma_le_value_4(c);
}

/// A string can be read exactly where its length is there, fits in memory, and is
/// followed by as many bytes of UTF-8. What is missing is told apart: the length, the
/// bytes, or their form.
pub proof fn law_strings_are_refused_for_a_reason(s: Seq<u8>)
    ensures
        ({
            let n = le_value(s.take(8));
            let whole = s.len() >= 8 && n <= usize::MAX && 8 + n <= s.len();
            &&& string_error(s) is None <==> whole && valid_utf8(s.subrange(8, 8 + n as int))
            &&& string_error(s) == Some(WireError::UnexpectedEnd) <==> s.len() < 8
            &&& string_error(s) is Some && string_error(s)->0 is InvalidSize <==> s.len() >= 8 && n
                > usize::MAX
            &&& string_error(s) == Some(WireError::StringCutShort) <==> s.len() >= 8 && n
                <= usize::MAX && 8 + n > s.len()
            &&& string_error(s) is Some && string_error(s)->0 is InvalidUtf8 <==> whole
                && !valid_utf8(s.subrange(8, 8 + n as int))
            &&& blob_error(s) is None <==> whole
        }),
{
}

/// The valid part of bytes is the longest part from the start on that is UTF-8.
pub proof fn law_valid_part_is_the_longest(s: Seq<u8>, n: nat)
    ensures
        valid_prefix(s) <= s.len(),
        valid_prefix(s) > 0 ==> valid_utf8(s.take(valid_prefix(s) as int)),
        valid_prefix(s) < n <= s.len() ==> !valid_utf8(s.take(n as int)),
    decreases s.len(),
{
    assert(s.take(s.len() as int) =~= s);
    if s.len() > 0 && !valid_utf8(s) {
        let t = s.drop_last();
        law_valid_part_is_the_longest(t, n);
        assert(t.take(valid_prefix(s) as int) =~= s.take(valid_prefix(s) as int));
        if n < s.len() {
            assert(t.take(n as int) =~= s.take(n as int));
        }
    }
}

} // verus!
