//! Lines of text in a buffer of bytes.
//!
//! A line ends at the newline byte. A carriage return is text like any other.

use crate::error::{Error, ErrorView};
use std::collections::VecDeque;
use vstd::prelude::*;
use vstd::utf8::{decode_utf8, encode_scalar, encode_utf8, valid_utf8};

verus! {

/// The byte that ends a line.
pub const NEWLINE: u8 = 10;

/// How many bytes stand before the first newline, or all of them where there is none.
pub open spec fn line_len(data: Seq<u8>) -> nat
    decreases data.len(),
{
    if data.len() == 0 || data[0] == NEWLINE {
        0
    } else {
        1 + line_len(data.drop_first())
    }
}

/// The bytes of the first line, without its newline.
pub open spec fn line_bytes(data: Seq<u8>) -> Seq<u8> {
    data.take(line_len(data) as int)
}

/// What bytes say as text: the characters that they encode in UTF-8, or a failure with the bytes.
pub open spec fn text(bytes: Seq<u8>) -> Result<Seq<char>, ErrorView> {
    if valid_utf8(bytes) {
        Ok(decode_utf8(bytes))
    } else {
        Err(ErrorView::Utf8(bytes))
    }
}

/// The first line of `data`, if a newline has arrived.
pub open spec fn first_line(data: Seq<u8>) -> Result<Option<Seq<char>>, ErrorView> {
    if data.contains(NEWLINE) {
        some_text(line_bytes(data))
    } else {
        Ok(None)
    }
}

/// The bytes as a line of text that is there.
pub open spec fn some_text(bytes: Seq<u8>) -> Result<Option<Seq<char>>, ErrorView> {
    match text(bytes) {
        Ok(chars) => Ok(Some(chars)),
        Err(error) => Err(error),
    }
}

/// What remains of `data` once its first line and the newline behind it are gone.
pub open spec fn after_line(data: Seq<u8>) -> Seq<u8> {
    if data.contains(NEWLINE) {
        data.skip(line_len(data) as int + 1)
    } else {
        data
    }
}

/// The mathematical value of the outcome of reading text.
pub open spec fn text_view(outcome: Result<String, Error>) -> Result<Seq<char>, ErrorView> {
    match outcome {
        Ok(string) => Ok(string@),
        Err(error) => Err(error@),
    }
}

/// The mathematical value of the outcome of reading a line.
pub open spec fn line_view(outcome: Result<Option<String>, Error>) -> Result<
    Option<Seq<char>>,
    ErrorView,
> {
    match outcome {
        Ok(Some(string)) => Ok(Some(string@)),
        Ok(None) => Ok(None),
        Err(error) => Err(error@),
    }
}

/// The mathematical value of the outcome of reading bytes.
pub open spec fn bytes_view(outcome: Result<Vec<u8>, Error>) -> Result<Seq<u8>, ErrorView> {
    match outcome {
        Ok(bytes) => Ok(bytes@),
        Err(error) => Err(error@),
    }
}

/// The line length is where the first newline stands, or the whole length.
pub proof fn lemma_line_len(data: Seq<u8>)
    ensures
        line_len(data) <= data.len(),
        forall|i: int| 0 <= i < line_len(data) ==> data[i] != NEWLINE,
        line_len(data) < data.len() ==> data[line_len(data) as int] == NEWLINE,
        data.contains(NEWLINE) <==> line_len(data) < data.len(),
    decreases data.len(),
{
    if data.len() != 0 && data[0] != NEWLINE {
        let rest = data.drop_first();
        lemma_line_len(rest);
        assert(forall|i: int| 0 <= i < rest.len() ==> #[trigger] rest[i] == data[i + 1]);
        assert forall|i: int| 0 <= i < line_len(data) implies data[i] != NEWLINE by {
            if i > 0 {
                assert(data[i] == rest[i - 1]);
            }
        }
    }
    if line_len(data) < data.len() {
        assert(data.contains(data[line_len(data) as int]));
    }
}

/// A place that holds the first newline is the line length.
proof fn lemma_line_len_is(data: Seq<u8>, at: int)
    requires
        0 <= at <= data.len(),
        forall|i: int| 0 <= i < at ==> data[i] != NEWLINE,
        at < data.len() ==> data[at] == NEWLINE,
    ensures
        line_len(data) == at,
{
    lemma_line_len(data);
}

/// Where the first newline stands in `buffer`.
fn find_newline(buffer: &VecDeque<u8>) -> (at: Option<usize>)
    ensures
        match at {
            Some(i) => buffer@.contains(NEWLINE) && i == line_len(buffer@) && i < buffer@.len(),
            None => !buffer@.contains(NEWLINE),
        },
{
    let len: usize = buffer.len();
    let mut i: usize = 0;
    while i < len
        invariant
            len == buffer@.len(),
            i <= len,
            forall|j: int| 0 <= j < i ==> buffer@[j] != NEWLINE,
        decreases len - i,
    {
        if buffer[i] == NEWLINE {
            proof {
                lemma_line_len_is(buffer@, i as int);
                lemma_line_len(buffer@);
            }
            return Some(i);
        }
        i = i + 1;
    }
    None
}

/// The bytes of `buffer` in order.
pub fn into_bytes(buffer: VecDeque<u8>) -> (bytes: Vec<u8>)
    ensures
        bytes@ == buffer@,
{
    let len: usize = buffer.len();
    let mut bytes: Vec<u8> = Vec::with_capacity(len);
    let mut i: usize = 0;
    while i < len
        invariant
            len == buffer@.len(),
            i <= len,
            bytes@ == buffer@.take(i as int),
        decreases len - i,
    {
        bytes.push(buffer[i]);
        i = i + 1;
        assert(bytes@ =~= buffer@.take(i as int));
    }
    assert(buffer@.take(len as int) =~= buffer@);
    bytes
}

/// Add `data` behind what `buffer` holds.
pub fn append(buffer: &mut VecDeque<u8>, data: Vec<u8>)
    ensures
        final(buffer)@ == old(buffer)@ + data@,
{
    let len: usize = data.len();
    let mut i: usize = 0;
    assert(data@.take(0) =~= Seq::empty());
    while i < len
        invariant
            len == data@.len(),
            i <= len,
            buffer@ == old(buffer)@ + data@.take(i as int),
        decreases len - i,
    {
        buffer.push_back(data[i]);
        i = i + 1;
        assert(buffer@ =~= old(buffer)@ + data@.take(i as int));
    }
    assert(data@.take(len as int) =~= data@);
}

/// Remove the first `len` bytes from the head of the buffer.
pub fn take_bytes(buffer: &mut VecDeque<u8>, len: usize) -> (bytes: Vec<u8>)
    requires
        len <= old(buffer)@.len(),
    ensures
        bytes@ == old(buffer)@.take(len as int),
        final(buffer)@ == old(buffer)@.skip(len as int),
{
    let mut tail = buffer.split_off(len);
    std::mem::swap(buffer, &mut tail);
    into_bytes(tail)
}

/// Remove everything from the buffer.
pub fn take_all(buffer: &mut VecDeque<u8>) -> (bytes: Vec<u8>)
    ensures
        bytes@ == old(buffer)@,
        final(buffer)@ == Seq::<u8>::empty(),
{
    let mut taken = VecDeque::new();
    std::mem::swap(buffer, &mut taken);
    into_bytes(taken)
}

/// `String::from_utf8` of the standard library: text where the bytes are valid UTF-8, which then
/// encodes to those bytes, and otherwise a failure that hands the bytes back.
#[verifier::external_body]
fn string_from_utf8(bytes: Vec<u8>) -> (outcome: Result<String, Vec<u8>>)
    ensures
        match outcome {
            Ok(string) => valid_utf8(bytes@) && string@ == decode_utf8(bytes@),
            Err(same) => !valid_utf8(bytes@) && same@ == bytes@,
        },
{
    match String::from_utf8(bytes) {
        Ok(string) => Ok(string),
        Err(error) => Err(error.into_bytes()),
    }
}

/// Read bytes as text.
pub fn into_text(bytes: Vec<u8>) -> (outcome: Result<String, Error>)
    ensures
        text_view(outcome) == text(bytes@),
        match outcome {
            Ok(string) => valid_utf8(bytes@) && string@ == decode_utf8(bytes@),
            Err(Error::Utf8(same)) => !valid_utf8(bytes@) && same@ == bytes@,
            Err(_) => false,
        },
{
    match string_from_utf8(bytes) {
        Ok(string) => Ok(string),
        Err(bytes) => Err(Error::Utf8(bytes)),
    }
}

/// Split off one line from the head of the buffer.
///
/// The line is consumed even where it is not UTF-8.
pub fn read_line(buffer: &mut VecDeque<u8>) -> (outcome: Result<Option<String>, Error>)
    ensures
        line_view(outcome) == first_line(old(buffer)@),
        final(buffer)@ == after_line(old(buffer)@),
        // A line and the rest are the data, and the line ends at the first newline.
        old(buffer)@.contains(NEWLINE) ==> match outcome {
            Ok(Some(line)) => {
                &&& !encode_utf8(line@).contains(NEWLINE)
                &&& encode_utf8(line@).push(NEWLINE) + final(buffer)@ == old(buffer)@
            },
            Err(Error::Utf8(bytes)) => {
                &&& !valid_utf8(bytes@)
                &&& !bytes@.contains(NEWLINE)
                &&& bytes@.push(NEWLINE) + final(buffer)@ == old(buffer)@
            },
            _ => false,
        },
        !old(buffer)@.contains(NEWLINE) ==> {
            &&& outcome matches Ok(None)
            &&& final(buffer)@ == old(buffer)@
        },
{
    proof {
        let data = buffer@;
        lemma_line_len(data);
        if data.contains(NEWLINE) {
            assert(line_bytes(data).push(NEWLINE) + after_line(data) =~= data);
            if valid_utf8(line_bytes(data)) {
                vstd::utf8::decode_utf8_encode_utf8(line_bytes(data));
            }
        }
    }
    match find_newline(buffer) {
        Some(newline) => {
            let mut tail = buffer.split_off(newline);
            // Discard the separating newline character.
            let _ = tail.pop_front();
            std::mem::swap(buffer, &mut tail);
            let line = into_text(into_bytes(tail))?;
            Ok(Some(line))
        },
        None => Ok(None),
    }
}

/// Whether a message already ends with a newline.
pub open spec fn ends_line(message: Seq<char>) -> bool {
    message.len() > 0 && message.last() == '\n'
}

/// The bytes that sending a message as a line amounts to: the message in UTF-8, with a newline
/// behind it unless it already ends with one.
pub open spec fn line_payload(message: Seq<char>) -> Seq<u8> {
    if ends_line(message) {
        encode_utf8(message)
    } else {
        encode_utf8(message).push(NEWLINE)
    }
}

/// A newline is encoded as the newline byte, and no other character's encoding holds that byte.
proof fn lemma_scalar_newline(c: char)
    ensures
        encode_scalar(c as u32).len() >= 1,
        c == '\n' ==> encode_scalar(c as u32) == seq![NEWLINE],
        c != '\n' ==> !encode_scalar(c as u32).contains(NEWLINE),
{
    let v = c as u32;
    assert(forall|x: u8| #[trigger] (0xC0u8 | x) >= 0x80) by (bit_vector);
    assert(forall|x: u8| #[trigger] (0xE0u8 | x) >= 0x80) by (bit_vector);
    assert(forall|x: u8| #[trigger] (0xF0u8 | x) >= 0x80) by (bit_vector);
    assert(forall|x: u8| #[trigger] (0x80u8 | x) >= 0x80) by (bit_vector);
    assert(v <= 0x7F ==> (v & 0x7F) as u8 == v) by (bit_vector);
}

/// Encoding takes a sequence apart at any place.
pub proof fn lemma_encode_concat(front: Seq<char>, back: Seq<char>)
    ensures
        encode_utf8(front + back) == encode_utf8(front) + encode_utf8(back),
    decreases front.len(),
{
    if front.len() == 0 {
        assert(front + back =~= back);
        assert(encode_utf8(front) + encode_utf8(back) =~= encode_utf8(back));
    } else {
        assert((front + back).drop_first() =~= front.drop_first() + back);
        lemma_encode_concat(front.drop_first(), back);
        assert(encode_utf8(front + back) =~= encode_utf8(front) + encode_utf8(back));
    }
}

/// The bytes of a text hold the newline byte exactly where the text holds a newline.
pub proof fn lemma_encode_newline(chars: Seq<char>)
    ensures
        encode_utf8(chars).contains(NEWLINE) <==> chars.contains('\n'),
        chars.len() > 0 ==> encode_utf8(chars).len() > 0,
    decreases chars.len(),
{
    if chars.len() > 0 {
        let head = encode_scalar(chars[0] as u32);
        let tail = encode_utf8(chars.drop_first());
        lemma_scalar_newline(chars[0]);
        lemma_encode_newline(chars.drop_first());
        assert(encode_utf8(chars) == head + tail);
        if head.contains(NEWLINE) {
            assert(chars.contains(chars[0]));
            let i = choose|i: int| 0 <= i < head.len() && head[i] == NEWLINE;
            assert((head + tail)[i] == NEWLINE);
        }
        if tail.contains(NEWLINE) {
            let i = choose|i: int| 0 <= i < tail.len() && tail[i] == NEWLINE;
            assert((head + tail)[head.len() + i] == NEWLINE);
            let j = choose|j: int|
                0 <= j < chars.drop_first().len() && chars.drop_first()[j] == '\n';
            assert(chars[j + 1] == '\n');
        }
        if encode_utf8(chars).contains(NEWLINE) {
            let i = choose|i: int| 0 <= i < (head + tail).len() && (head + tail)[i] == NEWLINE;
            if i < head.len() {
                assert(head[i] == NEWLINE);
            } else {
                assert(tail[i - head.len()] == NEWLINE);
            }
        }
        if chars.contains('\n') {
            let j = choose|j: int| 0 <= j < chars.len() && chars[j] == '\n';
            if j > 0 {
                assert(chars.drop_first()[j - 1] == '\n');
            } else {
                assert(head[0] == NEWLINE);
            }
        }
    }
}

/// The last byte of a text is the newline byte exactly where its last character is a newline.
pub proof fn lemma_encode_last(chars: Seq<char>)
    requires
        chars.len() > 0,
    ensures
        encode_utf8(chars).len() > 0,
        encode_utf8(chars).last() == NEWLINE <==> chars.last() == '\n',
{
    let last = seq![chars.last()];
    assert(chars =~= chars.drop_last() + last);
    lemma_encode_concat(chars.drop_last(), last);
    lemma_scalar_newline(chars.last());
    assert(last.drop_first() =~= Seq::<char>::empty());
    reveal_with_fuel(encode_utf8, 2);
    let bytes = encode_scalar(chars.last() as u32);
    assert(encode_utf8(last) =~= bytes);
    assert(encode_utf8(chars).last() == bytes.last());
    assert(bytes.contains(bytes.last()));
}

/// Whether a message already ends with a newline.
pub fn ends_with_newline(message: &str) -> (ends: bool)
    ensures
        ends == ends_line(message@),
        ends <==> message@.len() > 0 && message@.last() == '\n',
{
    let bytes = message.as_bytes();
    let len: usize = bytes.len();
    proof {
        if message@.len() > 0 {
            lemma_encode_last(message@);
        }
    }
    len > 0 && bytes[len - 1] == NEWLINE
}

} // verus!
