//! Laws of lines: how data falls into lines, and what a line that was sent reads back as.

use crate::line::{
    after_line, ends_line, first_line, lemma_encode_concat, lemma_encode_last,
    lemma_encode_newline, lemma_line_len, line_bytes, line_len, line_payload, some_text, text,
    NEWLINE,
};
use crate::error::ErrorView;
use vstd::prelude::*;
use vstd::utf8::{
    decode_utf8, decode_utf8_encode_utf8, encode_utf8, encode_utf8_decode_utf8,
    encode_utf8_valid_utf8, valid_utf8,
};

verus! {

/// Bytes without a newline, a newline and anything behind it are a first line and a rest.
pub proof fn law_first_line_is_split_off(line: Seq<u8>, rest: Seq<u8>)
    requires
        !line.contains(NEWLINE),
    ensures
        first_line(line.push(NEWLINE) + rest) == some_text(line),
        after_line(line.push(NEWLINE) + rest) == rest,
{
    let data = line.push(NEWLINE) + rest;
    lemma_line_len(data);
    assert(data[line.len() as int] == NEWLINE);
    assert(data.contains(NEWLINE));
    let len = line_len(data) as int;
    if len < line.len() {
        assert(data[len] == line[len]);
        assert(line.contains(line[len]));
    }
    assert(len == line.len());
    assert(line_bytes(data) =~= line);
    assert(after_line(data) =~= rest);
}

/// Splitting off a line loses nothing: the line, its newline and the rest are the data.
pub proof fn law_line_and_rest_are_the_data(data: Seq<u8>)
    requires
        data.contains(NEWLINE),
    ensures
        line_bytes(data).push(NEWLINE) + after_line(data) == data,
        !line_bytes(data).contains(NEWLINE),
{
    lemma_line_len(data);
    assert(line_bytes(data).push(NEWLINE) + after_line(data) =~= data);
}

/// It does not matter in which pieces data arrives: once a line is complete, what comes behind it
/// does not change it.
pub proof fn law_later_data_leaves_first_line(front: Seq<u8>, back: Seq<u8>)
    requires
        front.contains(NEWLINE),
    ensures
        first_line(front + back) == first_line(front),
        after_line(front + back) == after_line(front) + back,
{
    law_line_and_rest_are_the_data(front);
    let line = line_bytes(front);
    law_first_line_is_split_off(line, after_line(front));
    law_first_line_is_split_off(line, after_line(front) + back);
    assert(front + back =~= line.push(NEWLINE) + (after_line(front) + back));
}

/// The text of bytes without a newline has no newline.
proof fn lemma_text_without_newline(bytes: Seq<u8>)
    requires
        valid_utf8(bytes),
        !bytes.contains(NEWLINE),
    ensures
        !decode_utf8(bytes).contains('\n'),
{
    decode_utf8_encode_utf8(bytes);
    lemma_encode_newline(decode_utf8(bytes));
}

/// A line that is received has no newline in it.
pub proof fn law_received_line_has_no_newline(data: Seq<u8>)
    ensures
        first_line(data) matches Ok(Some(line)) ==> !line.contains('\n'),
{
    if data.contains(NEWLINE) && valid_utf8(line_bytes(data)) {
        law_line_and_rest_are_the_data(data);
        lemma_text_without_newline(line_bytes(data));
    }
}

/// A message that is sent as a line ends with a newline, and a newline that it already ends with is
/// not doubled.
pub proof fn law_sent_line_ends_with_newline(message: Seq<char>)
    ensures
        line_payload(message).len() > 0,
        line_payload(message).last() == NEWLINE,
        ends_line(message) ==> line_payload(message) == encode_utf8(message),
        !ends_line(message) ==> line_payload(message) == encode_utf8(message).push(NEWLINE),
{
    if ends_line(message) {
        lemma_encode_last(message);
    }
}

/// A line that was sent is received as it was sent, and nothing behind it is touched.
pub proof fn law_sent_line_reads_back(message: Seq<char>, rest: Seq<u8>)
    requires
        !message.contains('\n'),
    ensures
        first_line(line_payload(message) + rest) == Ok::<Option<Seq<char>>, ErrorView>(
            Some(message),
        ),
        after_line(line_payload(message) + rest) == rest,
{
    let bytes = encode_utf8(message);
    lemma_encode_newline(message);
    if ends_line(message) {
        assert(message.contains(message.last()));
    }
    law_first_line_is_split_off(bytes, rest);
    encode_utf8_valid_utf8(message);
    encode_utf8_decode_utf8(message);
}

/// The lines that are complete in this data, in order.
pub open spec fn all_lines(data: Seq<u8>) -> Seq<Result<Option<Seq<char>>, ErrorView>>
    decreases data.len(),
    via all_lines_shrink
{
    if data.contains(NEWLINE) {
        seq![first_line(data)] + all_lines(after_line(data))
    } else {
        Seq::empty()
    }
}

/// What remains of this data once all its complete lines are gone.
pub open spec fn after_all_lines(data: Seq<u8>) -> Seq<u8>
    decreases data.len(),
    via after_all_lines_shrink
{
    if data.contains(NEWLINE) {
        after_all_lines(after_line(data))
    } else {
        data
    }
}

#[via_fn]
proof fn all_lines_shrink(data: Seq<u8>) {
    lemma_line_len(data);
}

#[via_fn]
proof fn after_all_lines_shrink(data: Seq<u8>) {
    lemma_line_len(data);
}

/// How many characters stand before the first newline of a text, or all of them where there is
/// none.
pub open spec fn text_line_len(message: Seq<char>) -> nat
    decreases message.len(),
{
    if message.len() == 0 || message[0] == '\n' {
        0
    } else {
        1 + text_line_len(message.drop_first())
    }
}

proof fn lemma_text_line_len(message: Seq<char>)
    ensures
        text_line_len(message) <= message.len(),
        forall|i: int| 0 <= i < text_line_len(message) ==> message[i] != '\n',
        text_line_len(message) < message.len() ==> message[text_line_len(message) as int] == '\n',
        message.contains('\n') <==> text_line_len(message) < message.len(),
    decreases message.len(),
{
    if message.len() != 0 && message[0] != '\n' {
        let rest = message.drop_first();
        lemma_text_line_len(rest);
        assert forall|i: int| 0 <= i < text_line_len(message) implies message[i] != '\n' by {
            if i > 0 {
                assert(message[i] == rest[i - 1]);
            }
        }
    }
    if text_line_len(message) < message.len() {
        assert(message.contains(message[text_line_len(message) as int]));
    }
}

/// The lines of a text, the last of which need not end with a newline.
pub open spec fn text_lines(message: Seq<char>) -> Seq<Seq<char>>
    decreases message.len(),
    via text_lines_shrink
{
    let len = text_line_len(message) as int;
    if len < message.len() {
        seq![message.take(len)] + text_lines(message.skip(len + 1))
    } else if message.len() > 0 {
        seq![message]
    } else {
        Seq::empty()
    }
}

#[via_fn]
proof fn text_lines_shrink(message: Seq<char>) {
    lemma_text_line_len(message);
}

/// The outcome of receiving each of these lines.
pub open spec fn received(lines: Seq<Seq<char>>) -> Seq<
    Result<Option<Seq<char>>, ErrorView>,
> {
    lines.map_values(|line: Seq<char>| Ok(Some(line)))
}

/// A message of any number of lines that was sent is received as exactly those lines, and nothing
/// remains.
pub proof fn law_sent_lines_read_back(message: Seq<char>)
    requires
        message.len() > 0,
    ensures
        all_lines(line_payload(message)) == received(text_lines(message)),
        after_all_lines(line_payload(message)) == Seq::<u8>::empty(),
    decreases message.len(),
{
    lemma_text_line_len(message);
    reveal_with_fuel(all_lines, 2);
    reveal_with_fuel(after_all_lines, 2);
    reveal_with_fuel(text_lines, 2);
    assert(!Seq::<u8>::empty().contains(NEWLINE));
    let len = text_line_len(message) as int;
    if len < message.len() {
        let line = message.take(len);
        let rest = message.skip(len + 1);
        let tail = if rest.len() > 0 {
            line_payload(rest)
        } else {
            Seq::<u8>::empty()
        };
        assert(!line.contains('\n'));
        assert(message =~= line.push('\n') + rest);
        assert(line_payload(message) == line_payload(line) + tail) by {
            lemma_encode_concat(line.push('\n'), rest);
            lemma_encode_concat(line, seq!['\n']);
            assert(line.push('\n') =~= line + seq!['\n']);
            lemma_newline_alone();
            if line.len() > 0 {
                assert(line.contains(line.last()));
            }
            if rest.len() > 0 {
                assert(rest.last() == message.last());
                assert(line_payload(message) =~= line_payload(line) + tail);
            } else {
                assert(message.last() == '\n');
                assert(encode_utf8(rest) =~= Seq::<u8>::empty());
                assert(line_payload(message) =~= line_payload(line) + tail);
            }
        }
        law_sent_line_reads_back(line, tail);
        let data = line_payload(message);
        assert(data.contains(NEWLINE)) by {
            law_sent_line_ends_with_newline(message);
            assert(data.contains(data.last()));
        }
        if rest.len() > 0 {
            law_sent_lines_read_back(rest);
        }
        assert(all_lines(data) == seq![first_line(data)] + all_lines(tail));
        assert(text_lines(message) == seq![line] + text_lines(rest));
        assert(all_lines(data) =~= received(text_lines(message)));
    } else {
        assert(line_payload(message) + Seq::<u8>::empty() =~= line_payload(message));
        law_sent_line_reads_back(message, Seq::empty());
        let data = line_payload(message);
        assert(data.contains(NEWLINE)) by {
            law_sent_line_ends_with_newline(message);
            assert(data.contains(data.last()));
        }
        assert(all_lines(data) =~= received(text_lines(message)));
    }
}

/// A newline is encoded as the newline byte.
proof fn lemma_newline_alone()
    ensures
        encode_utf8(seq!['\n']) == seq![NEWLINE],
{
    let newline = seq!['\n'];
    reveal_with_fuel(encode_utf8, 2);
    assert(newline.drop_first() =~= Seq::<char>::empty());
    let code = '\n' as u32;
    assert((code & 0x7F) as u8 == 10u8) by (bit_vector)
        requires
            code == 10u32,
    ;
    assert(encode_utf8(newline) =~= seq![NEWLINE]);
}

/// The empty message is sent and received as one empty line.
pub proof fn law_empty_message_is_an_empty_line()
    ensures
        line_payload(Seq::empty()) == seq![NEWLINE],
        first_line(line_payload(Seq::empty())) == Ok::<Option<Seq<char>>, ErrorView>(
            Some(Seq::empty()),
        ),
        after_line(line_payload(Seq::empty())) == Seq::<u8>::empty(),
{
    let empty = Seq::<char>::empty();
    assert(line_payload(empty) =~= seq![NEWLINE]);
    law_sent_line_reads_back(empty, Seq::empty());
    assert(line_payload(empty) + Seq::<u8>::empty() =~= line_payload(empty));
}

} // verus!
