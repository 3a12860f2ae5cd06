//! The building blocks of the wire encodings: big-endian integers,
//! length-prefixed byte strings, and lines.
//!
//! Every block is written as a specification function on `Seq<u8>`, with
//! the executable writer and reader proved against it, and with the two
//! lemmas that make the block invertible.

use vstd::prelude::*;
use vstd::slice::*;
use vstd::string::*;
use vstd::utf8::*;

verus! {

/// The eight bytes of `x`, most significant first.
pub open spec fn u64_bytes(x: u64) -> Seq<u8> {
    seq![
        (x / 0x100_0000_0000_0000) as u8,
        (x / 0x1_0000_0000_0000 % 0x100) as u8,
        (x / 0x100_0000_0000 % 0x100) as u8,
        (x / 0x1_0000_0000 % 0x100) as u8,
        (x / 0x100_0000 % 0x100) as u8,
        (x / 0x1_0000 % 0x100) as u8,
        (x / 0x100 % 0x100) as u8,
        (x % 0x100) as u8,
    ]
}

/// The number that eight bytes spell, most significant first.
pub open spec fn u64_join(b0: u8, b1: u8, b2: u8, b3: u8, b4: u8, b5: u8, b6: u8, b7: u8) -> u64 {
    (b0 * 0x100_0000_0000_0000 + b1 * 0x1_0000_0000_0000 + b2 * 0x100_0000_0000 + b3
        * 0x1_0000_0000 + b4 * 0x100_0000 + b5 * 0x1_0000 + b6 * 0x100 + b7) as u64
}

/// The number that the first eight bytes of `b` spell, most significant first.
pub open spec fn u64_value(b: Seq<u8>) -> u64
    recommends
        b.len() >= 8,
{
    u64_join(b[0], b[1], b[2], b[3], b[4], b[5], b[6], b[7])
}

proof fn lemma_u64_join_of_split(x: u64)
    by (bit_vector)
    ensures
        u64_join(
            (x / 0x100_0000_0000_0000) as u8,
            (x / 0x1_0000_0000_0000 % 0x100) as u8,
            (x / 0x100_0000_0000 % 0x100) as u8,
            (x / 0x1_0000_0000 % 0x100) as u8,
            (x / 0x100_0000 % 0x100) as u8,
            (x / 0x1_0000 % 0x100) as u8,
            (x / 0x100 % 0x100) as u8,
            (x % 0x100) as u8,
        ) == x,
{
}

proof fn lemma_u64_split_of_join(b0: u8, b1: u8, b2: u8, b3: u8, b4: u8, b5: u8, b6: u8, b7: u8)
    by (bit_vector)
    ensures
        ({
            let x = u64_join(b0, b1, b2, b3, b4, b5, b6, b7);
            &&& (x / 0x100_0000_0000_0000) as u8 == b0
            &&& (x / 0x1_0000_0000_0000 % 0x100) as u8 == b1
            &&& (x / 0x100_0000_0000 % 0x100) as u8 == b2
            &&& (x / 0x1_0000_0000 % 0x100) as u8 == b3
            &&& (x / 0x100_0000 % 0x100) as u8 == b4
            &&& (x / 0x1_0000 % 0x100) as u8 == b5
            &&& (x / 0x100 % 0x100) as u8 == b6
            &&& (x % 0x100) as u8 == b7
        }),
{
}

/// Reading back what was written gives the number.
pub proof fn lemma_u64_value_of_bytes(x: u64)
    ensures
        u64_bytes(x).len() == 8,
        u64_value(u64_bytes(x)) == x,
{
    lemma_u64_join_of_split(x);
}

/// Writing what was read gives the bytes.
pub proof fn lemma_u64_bytes_of_value(b: Seq<u8>)
    requires
        b.len() == 8,
    ensures
        u64_bytes(u64_value(b)) == b,
{
    lemma_u64_split_of_join(b[0], b[1], b[2], b[3], b[4], b[5], b[6], b[7]);
    assert(u64_bytes(u64_value(b)) =~= b);
}

/// The four bytes of `x`, most significant first.
pub open spec fn u32_bytes(x: u32) -> Seq<u8> {
    seq![
        (x / 0x100_0000) as u8,
        (x / 0x1_0000 % 0x100) as u8,
        (x / 0x100 % 0x100) as u8,
        (x % 0x100) as u8,
    ]
}

/// The number that four bytes spell, most significant first.
pub open spec fn u32_join(b0: u8, b1: u8, b2: u8, b3: u8) -> u32 {
    (b0 * 0x100_0000 + b1 * 0x1_0000 + b2 * 0x100 + b3) as u32
}

/// The number that the first four bytes of `b` spell, most significant first.
pub open spec fn u32_value(b: Seq<u8>) -> u32
    recommends
        b.len() >= 4,
{
    u32_join(b[0], b[1], b[2], b[3])
}

proof fn lemma_u32_join_of_split(x: u32)
    by (bit_vector)
    ensures
        u32_join(
            (x / 0x100_0000) as u8,
            (x / 0x1_0000 % 0x100) as u8,
            (x / 0x100 % 0x100) as u8,
            (x % 0x100) as u8,
        ) == x,
{
}

proof fn lemma_u32_split_of_join(b0: u8, b1: u8, b2: u8, b3: u8)
    by (bit_vector)
    ensures
        ({
            let x = u32_join(b0, b1, b2, b3);
            &&& (x / 0x100_0000) as u8 == b0
            &&& (x / 0x1_0000 % 0x100) as u8 == b1
            &&& (x / 0x100 % 0x100) as u8 == b2
            &&& (x % 0x100) as u8 == b3
        }),
{
}

/// The two's-complement image of `x` in 32 bits.
pub open spec fn i32_bits(x: i32) -> u32 {
    if x >= 0 {
        x as u32
    } else {
        (x + 0x1_0000_0000) as u32
    }
}

/// The signed number whose two's-complement image is `u`.
pub open spec fn i32_of_bits(u: u32) -> i32 {
    if u < 0x8000_0000 {
        u as i32
    } else {
        (u - 0x1_0000_0000) as i32
    }
}

/// The four bytes of `x` in two's complement, most significant first.
pub open spec fn i32_bytes(x: i32) -> Seq<u8> {
    u32_bytes(i32_bits(x))
}

/// The signed number that the first four bytes of `b` spell.
pub open spec fn i32_value(b: Seq<u8>) -> i32
    recommends
        b.len() >= 4,
{
    i32_of_bits(u32_value(b))
}

/// Reading back what was written gives the number.
pub proof fn lemma_i32_value_of_bytes(x: i32)
    ensures
        i32_bytes(x).len() == 4,
        i32_value(i32_bytes(x)) == x,
{
    lemma_u32_join_of_split(i32_bits(x));
}

/// Writing what was read gives the bytes.
pub proof fn lemma_i32_bytes_of_value(b: Seq<u8>)
    requires
        b.len() == 4,
    ensures
        i32_bytes(i32_value(b)) == b,
{
    lemma_u32_split_of_join(b[0], b[1], b[2], b[3]);
    assert(i32_bits(i32_of_bits(u32_value(b))) == u32_value(b));
    assert(i32_bytes(i32_value(b)) =~= b);
}

/// A byte string preceded by its length as eight bytes.
pub open spec fn field_bytes(s: Seq<u8>) -> Seq<u8> {
    u64_bytes(s.len() as u64) + s
}

/// Splits `b` into its leading length-prefixed byte string and what follows
/// it, where `b` starts with one.
pub open spec fn take_field(b: Seq<u8>) -> Option<(Seq<u8>, Seq<u8>)> {
    if b.len() >= 8 && b.len() - 8 >= u64_value(b) {
        let end = 8 + u64_value(b);
        Some((b.subrange(8, end), b.subrange(end, b.len() as int)))
    } else {
        None
    }
}

/// A field followed by anything splits into the field and what follows.
pub proof fn lemma_take_field_of_bytes(s: Seq<u8>, rest: Seq<u8>)
    requires
        s.len() <= u64::MAX,
    ensures
        take_field(field_bytes(s) + rest) == Some((s, rest)),
{
    let b = field_bytes(s) + rest;
    lemma_u64_value_of_bytes(s.len() as u64);
    assert(u64_value(b) == u64_value(u64_bytes(s.len() as u64))) by {
        assert(forall|i: int| 0 <= i < 8 ==> b[i] == u64_bytes(s.len() as u64)[i]);
    }
    assert(b.subrange(8, 8 + s.len() as int) =~= s);
    assert(b.subrange(8 + s.len() as int, b.len() as int) =~= rest);
}

/// What splits into a field and a rest is that field followed by that rest.
pub proof fn lemma_bytes_of_take_field(b: Seq<u8>)
    ensures
        take_field(b) matches Some((s, rest)) ==> b == field_bytes(s) + rest && s.len()
            <= u64::MAX,
{
    if let Some((s, rest)) = take_field(b) {
        let head = b.subrange(0, 8);
        lemma_u64_bytes_of_value(head);
        assert(u64_value(head) == u64_value(b));
        assert(b =~= field_bytes(s) + rest);
    }
}

/// Appends the eight bytes of `x` to `out`.
pub fn put_u64(out: &mut Vec<u8>, x: u64)
    ensures
        final(out)@ == old(out)@ + u64_bytes(x),
{
    out.push((x / 0x100_0000_0000_0000) as u8);
    out.push((x / 0x1_0000_0000_0000 % 0x100) as u8);
    out.push((x / 0x100_0000_0000 % 0x100) as u8);
    out.push((x / 0x1_0000_0000 % 0x100) as u8);
    out.push((x / 0x100_0000 % 0x100) as u8);
    out.push((x / 0x1_0000 % 0x100) as u8);
    out.push((x / 0x100 % 0x100) as u8);
    out.push((x % 0x100) as u8);
    assert(out@ =~= old(out)@ + u64_bytes(x));
}

/// Reads the eight bytes at `at` as a number.
pub fn get_u64(bytes: &[u8], at: usize) -> (x: u64)
    requires
        at + 8 <= bytes@.len(),
    ensures
        x == u64_value(bytes@.subrange(at as int, bytes@.len() as int)),
{
    let b0: u64 = bytes[at] as u64;
    let b1: u64 = bytes[at + 1] as u64;
    let b2: u64 = bytes[at + 2] as u64;
    let b3: u64 = bytes[at + 3] as u64;
    let b4: u64 = bytes[at + 4] as u64;
    let b5: u64 = bytes[at + 5] as u64;
    let b6: u64 = bytes[at + 6] as u64;
    let b7: u64 = bytes[at + 7] as u64;
    b0 * 0x100_0000_0000_0000 + b1 * 0x1_0000_0000_0000 + b2 * 0x100_0000_0000 + b3
        * 0x1_0000_0000 + b4 * 0x100_0000 + b5 * 0x1_0000 + b6 * 0x100 + b7
}

/// Appends the four bytes of `x` to `out`.
pub fn put_i32(out: &mut Vec<u8>, x: i32)
    ensures
        final(out)@ == old(out)@ + i32_bytes(x),
{
    let wide: i64 = x as i64;
    let u: u32 = if wide >= 0 {
        wide as u32
    } else {
        (wide + 0x1_0000_0000) as u32
    };
    out.push((u / 0x100_0000) as u8);
    out.push((u / 0x1_0000 % 0x100) as u8);
    out.push((u / 0x100 % 0x100) as u8);
    out.push((u % 0x100) as u8);
    assert(out@ =~= old(out)@ + i32_bytes(x));
}

/// Reads the four bytes at `at` as a signed number.
pub fn get_i32(bytes: &[u8], at: usize) -> (x: i32)
    requires
        at + 4 <= bytes@.len(),
    ensures
        x == i32_value(bytes@.subrange(at as int, bytes@.len() as int)),
{
    let b0: i64 = bytes[at] as i64;
    let b1: i64 = bytes[at + 1] as i64;
    let b2: i64 = bytes[at + 2] as i64;
    let b3: i64 = bytes[at + 3] as i64;
    let u: i64 = b0 * 0x100_0000 + b1 * 0x1_0000 + b2 * 0x100 + b3;
    if u < 0x8000_0000 {
        u as i32
    } else {
        (u - 0x1_0000_0000) as i32
    }
}

/// Appends `s` to `out`.
pub fn put_bytes(out: &mut Vec<u8>, s: &[u8])
    ensures
        final(out)@ == old(out)@ + s@,
{
    let mut i: usize = 0;
    while i < s.len()
        invariant
            i <= s@.len(),
            out@ == old(out)@ + s@.subrange(0, i as int),
        decreases s@.len() - i,
    {
        out.push(s[i]);
        i += 1;
        assert(out@ =~= old(out)@ + s@.subrange(0, i as int));
    }
    assert(s@.subrange(0, i as int) =~= s@);
}

/// Appends `s`, preceded by its length, to `out`.
pub fn put_field(out: &mut Vec<u8>, s: &[u8])
    ensures
        final(out)@ == old(out)@ + field_bytes(s@),
{
    put_u64(out, s.len() as u64);
    put_bytes(out, s);
    assert(out@ =~= old(out)@ + field_bytes(s@));
}

/// Finds the length-prefixed byte string that starts at `at`: the position
/// just behind it, where `bytes` holds all of it.
///
/// The string itself then lies from `at + 8` up to the position returned.
pub fn find_field(bytes: &[u8], at: usize) -> (end: Option<usize>)
    requires
        at <= bytes@.len(),
    ensures
        match end {
            Some(end) => {
                &&& at + 8 <= end <= bytes@.len()
                &&& take_field(bytes@.subrange(at as int, bytes@.len() as int)) == Some(
                    (
                        bytes@.subrange(at + 8, end as int),
                        bytes@.subrange(end as int, bytes@.len() as int),
                    ),
                )
            },
            None => take_field(bytes@.subrange(at as int, bytes@.len() as int)) is None,
        },
{
    let ghost tail = bytes@.subrange(at as int, bytes@.len() as int);
    if bytes.len() - at < 8 {
        return None;
    }
    let n: u64 = get_u64(bytes, at);
    let room: usize = bytes.len() - at - 8;
    if n > room as u64 {
        return None;
    }
    let end: usize = at + 8 + n as usize;
    assert(tail.subrange(8, 8 + n) =~= bytes@.subrange(at + 8, end as int));
    assert(tail.subrange(8 + n, tail.len() as int) =~= bytes@.subrange(
        end as int,
        bytes@.len() as int,
    ));
    Some(end)
}

/// The error of `String::from_utf8`.
#[verifier::external_type_specification]
#[verifier::external_body]
pub struct ExFromUtf8Error(std::string::FromUtf8Error);

/// Calls `String::from_utf8` of the standard library, which takes the bytes
/// as the contents of a string. Its documentation says that it fails exactly
/// where the bytes are not well-formed UTF-8, and that the string otherwise
/// holds the very bytes it was given; the contract says no more than that.
#[verifier::external_body]
fn string_from_utf8(bytes: Vec<u8>) -> (r: Result<String, std::string::FromUtf8Error>)
    ensures
        r is Ok <==> valid_utf8(bytes@),
        r matches Ok(s) ==> encode_utf8(s@) == bytes@,
{
    String::from_utf8(bytes)
}

/// Appends the UTF-8 bytes of `s`, preceded by their number, to `out`.
pub fn put_text(out: &mut Vec<u8>, s: &str)
    ensures
        encode_utf8(s@).len() <= usize::MAX,
        final(out)@ == old(out)@ + field_bytes(encode_utf8(s@)),
{
    let raw = s.as_bytes();
    assert(raw@.len() == raw.len());
    put_field(out, raw);
}

/// Reads the bytes from `from` up to `to` as text, where they are
/// well-formed UTF-8.
pub fn get_text(bytes: &[u8], from: usize, to: usize) -> (r: Option<String>)
    requires
        from <= to <= bytes@.len(),
    ensures
        match r {
            Some(s) => valid_utf8(bytes@.subrange(from as int, to as int)) && s@ == decode_utf8(
                bytes@.subrange(from as int, to as int),
            ),
            None => !valid_utf8(bytes@.subrange(from as int, to as int)),
        },
{
    let raw = slice_to_vec(slice_subrange(bytes, from, to));
    match string_from_utf8(raw) {
        Ok(s) => {
            proof {
                encode_utf8_decode_utf8(s@);
            }
            Some(s)
        },
        Err(_) => None,
    }
}

/// The byte that ends a line.
pub const NEWLINE: u8 = 0x0A;

/// `b` holds no byte that ends a line.
pub open spec fn no_newline(b: Seq<u8>) -> bool {
    forall|i: int| 0 <= i < b.len() ==> b[i] != NEWLINE
}

/// A text followed by the byte that ends its line.
pub open spec fn line_bytes(text: Seq<u8>) -> Seq<u8> {
    text.push(NEWLINE)
}

/// The first line of `b` ends at `i`.
pub open spec fn is_line_end(b: Seq<u8>, i: int) -> bool {
    &&& 0 <= i < b.len()
    &&& b[i] == NEWLINE
    &&& forall|j: int| 0 <= j < i ==> b[j] != NEWLINE
}

/// Splits `b` into its first line, without the byte that ends it, and what
/// follows that byte, where `b` holds a whole line.
pub open spec fn take_line(b: Seq<u8>) -> Option<(Seq<u8>, Seq<u8>)> {
    if exists|i: int| is_line_end(b, i) {
        let end = choose|i: int| is_line_end(b, i);
        Some((b.subrange(0, end), b.subrange(end + 1, b.len() as int)))
    } else {
        None
    }
}

/// Where the first line of `b` ends at `i`, `b` splits there.
pub proof fn lemma_take_line_at(b: Seq<u8>, i: int)
    requires
        is_line_end(b, i),
    ensures
        take_line(b) == Some((b.subrange(0, i), b.subrange(i + 1, b.len() as int))),
{
    let end = choose|k: int| is_line_end(b, k);
    assert(end == i) by {
        if end < i {
            assert(b[end] != NEWLINE);
        }
        if i < end {
            assert(b[i] != NEWLINE);
        }
    }
}

/// A line followed by anything splits into its text and what follows.
pub proof fn lemma_take_line_of_bytes(text: Seq<u8>, rest: Seq<u8>)
    requires
        no_newline(text),
    ensures
        take_line(line_bytes(text) + rest) == Some((text, rest)),
{
    let b = line_bytes(text) + rest;
    let i = text.len() as int;
    assert(is_line_end(b, i)) by {
        assert(forall|j: int| 0 <= j < i ==> b[j] == text[j]);
    }
    lemma_take_line_at(b, i);
    assert(b.subrange(0, i) =~= text);
    assert(b.subrange(i + 1, b.len() as int) =~= rest);
}

/// What splits into a line and a rest is that line, ended, and that rest;
/// and the line holds no byte that ends a line.
pub proof fn lemma_bytes_of_take_line(b: Seq<u8>)
    ensures
        take_line(b) matches Some((text, rest)) ==> b == line_bytes(text) + rest && no_newline(
            text,
        ),
        take_line(b) is None ==> no_newline(b),
{
    if let Some((text, rest)) = take_line(b) {
        let end = choose|i: int| is_line_end(b, i);
        assert(b =~= line_bytes(text) + rest);
    } else {
        assert forall|i: int| 0 <= i < b.len() implies b[i] != NEWLINE by {
            if b[i] == NEWLINE {
                lemma_first_newline(b, i);
            }
        }
    }
}

/// Where `b` holds a byte that ends a line, its first line ends somewhere.
proof fn lemma_first_newline(b: Seq<u8>, i: int)
    requires
        0 <= i < b.len(),
        b[i] == NEWLINE,
    ensures
        exists|k: int| is_line_end(b, k),
    decreases i,
{
    if forall|j: int| 0 <= j < i ==> b[j] != NEWLINE {
        assert(is_line_end(b, i));
    } else {
        let j = choose|j: int| 0 <= j < i && b[j] == NEWLINE;
        lemma_first_newline(b, j);
    }
}

/// Appends `text` and the byte that ends its line to `out`.
pub fn put_line(out: &mut Vec<u8>, text: &[u8])
    ensures
        final(out)@ == old(out)@ + line_bytes(text@),
{
    put_bytes(out, text);
    out.push(NEWLINE);
    assert(out@ =~= old(out)@ + line_bytes(text@));
}

/// Finds where the first line of `bytes` ends, where `bytes` holds a whole
/// line.
pub fn find_line(bytes: &[u8]) -> (end: Option<usize>)
    ensures
        match end {
            Some(end) => end < bytes@.len() && take_line(bytes@) == Some(
                (
                    bytes@.subrange(0, end as int),
                    bytes@.subrange(end + 1, bytes@.len() as int),
                ),
            ),
            None => take_line(bytes@) is None,
        },
{
    let mut i: usize = 0;
    while i < bytes.len()
        invariant
            i <= bytes@.len(),
            forall|j: int| 0 <= j < i ==> bytes@[j] != NEWLINE,
        decreases bytes@.len() - i,
    {
        if bytes[i] == NEWLINE {
            proof {
                lemma_take_line_at(bytes@, i as int);
            }
            return Some(i);
        }
        i += 1;
    }
    proof {
        assert forall|k: int| !is_line_end(bytes@, k) by {}
    }
    None
}

} // verus!
