//! Lines of bytes: how a stream of bytes falls into lines at its line
//! feeds, and what holds of those lines however the stream arrives.

use vstd::prelude::*;
use vstd::seq_lib::lemma_flatten_concat;
use vstd::utf8::decode_first_scalar;
use vstd::utf8::decode_utf8;
use vstd::utf8::length_of_first_scalar;
use vstd::utf8::pop_first_scalar;
use vstd::utf8::valid_utf8;
use vstd::utf8::valid_utf8_concat;

verus! {

/// The byte that ends a line.
pub const LINE_FEED: u8 = 10;

/// Length of the first line of `bytes`: up to the first line feed and with
/// it, or all of `bytes` where they hold none.
pub open spec fn first_line_len(bytes: Seq<u8>) -> nat
    decreases bytes.len(),
{
    if bytes.len() == 0 {
        0
    } else if bytes[0] == LINE_FEED {
        1
    } else {
        1 + first_line_len(bytes.skip(1))
    }
}

/// The lines of `bytes`, in order: each ends with its line feed, but for the
/// last, which ends where `bytes` end.
pub open spec fn split_lines(bytes: Seq<u8>) -> Seq<Seq<u8>>
    decreases bytes.len(),
    via split_lines_decreases
{
    if bytes.len() == 0 {
        Seq::<Seq<u8>>::empty()
    } else {
        seq![bytes.take(first_line_len(bytes) as int)] + split_lines(
            bytes.skip(first_line_len(bytes) as int),
        )
    }
}

#[via_fn]
proof fn split_lines_decreases(bytes: Seq<u8>) {
    lemma_first_line_len(bytes);
}

/// `bytes` end in the middle of a line.
pub open spec fn ends_mid_line(bytes: Seq<u8>) -> bool {
    bytes.len() > 0 && bytes.last() != LINE_FEED
}

/// The lines of `bytes` that are known to be whole: all of them, but for a
/// last one that no line feed ends.
pub open spec fn complete_lines(bytes: Seq<u8>) -> Seq<Seq<u8>> {
    if ends_mid_line(bytes) {
        split_lines(bytes).drop_last()
    } else {
        split_lines(bytes)
    }
}

/// The begun line at the end of `bytes`: what follows their last line feed.
pub open spec fn partial_line(bytes: Seq<u8>) -> Seq<u8> {
    if ends_mid_line(bytes) {
        split_lines(bytes).last()
    } else {
        Seq::<u8>::empty()
    }
}

/// No byte of `bytes` is a line feed.
pub open spec fn free_of_line_feeds(bytes: Seq<u8>) -> bool {
    forall|i: int| 0 <= i < bytes.len() ==> bytes[i] != LINE_FEED
}

/// The lines that come out of a stream which arrives as `chunks`, one after
/// the other, and then ends, where `pending` is the begun line that was
/// left before: each chunk gives the lines that it makes whole, and the end
/// of the stream gives the begun line, if it holds a byte.
pub open spec fn lines_of_stream(pending: Seq<u8>, chunks: Seq<Seq<u8>>) -> Seq<Seq<u8>>
    decreases chunks.len(),
{
    if chunks.len() == 0 {
        if pending.len() > 0 {
            seq![pending]
        } else {
            Seq::<Seq<u8>>::empty()
        }
    } else {
        complete_lines(pending + chunks.first()) + lines_of_stream(
            partial_line(pending + chunks.first()),
            chunks.drop_first(),
        )
    }
}

/// The first line of a byte string is a prefix of it, not empty unless the
/// string is, with no line feed before its last byte, and with a line feed
/// as its last byte wherever something follows it.
pub proof fn lemma_first_line_len(bytes: Seq<u8>)
    ensures
        first_line_len(bytes) <= bytes.len(),
        bytes.len() > 0 ==> first_line_len(bytes) >= 1,
        forall|i: int| 0 <= i < first_line_len(bytes) - 1 ==> bytes[i] != LINE_FEED,
        first_line_len(bytes) < bytes.len() ==> bytes[first_line_len(bytes) - 1] == LINE_FEED,
    decreases bytes.len(),
{
    if bytes.len() > 0 && bytes[0] != LINE_FEED {
        let rest = bytes.skip(1);
        lemma_first_line_len(rest);
        assert forall|i: int| 0 <= i < first_line_len(bytes) - 1 implies bytes[i]
            != LINE_FEED by {
            if i > 0 {
                assert(rest[i - 1] == bytes[i]);
            }
        }
    }
}

/// Bytes without a line feed belong to the first line of whatever they are
/// the start of.
pub proof fn lemma_first_line_of_open_prefix(head: Seq<u8>, tail: Seq<u8>)
    requires
        free_of_line_feeds(head),
    ensures
        first_line_len(head + tail) == head.len() + first_line_len(tail),
    decreases head.len(),
{
    if head.len() > 0 {
        assert((head + tail).skip(1) =~= head.skip(1) + tail);
        lemma_first_line_of_open_prefix(head.skip(1), tail);
    }
}

/// Bytes that hold no line feed before their last byte are one line.
pub proof fn lemma_single_line(line: Seq<u8>)
    requires
        line.len() > 0,
        free_of_line_feeds(line.drop_last()),
    ensures
        split_lines(line) == seq![line],
        first_line_len(line) == line.len(),
{
    let head = line.drop_last();
    let tail = seq![line.last()];
    assert(line =~= head + tail);
    lemma_first_line_of_open_prefix(head, tail);
    assert(first_line_len(tail.skip(1)) == 0);
    assert(line.take(line.len() as int) =~= line);
    assert(split_lines(line.skip(line.len() as int)) =~= Seq::<Seq<u8>>::empty());
}

/// Bytes without a line feed are a begun line and nothing else.
pub proof fn lemma_open_line(bytes: Seq<u8>)
    requires
        free_of_line_feeds(bytes),
    ensures
        complete_lines(bytes) == Seq::<Seq<u8>>::empty(),
        partial_line(bytes) == bytes,
{
    if bytes.len() > 0 {
        lemma_single_line(bytes);
    }
}

/// Where bytes start with a whole line, that line is also the first line of
/// the same bytes with more bytes after them.
proof fn lemma_first_line_stays(bytes: Seq<u8>, more: Seq<u8>)
    requires
        bytes.len() > 0,
        bytes[first_line_len(bytes) - 1] == LINE_FEED,
    ensures
        first_line_len(bytes + more) == first_line_len(bytes),
    decreases bytes.len(),
{
    lemma_first_line_len(bytes);
    if bytes[0] != LINE_FEED {
        let rest = bytes.skip(1);
        lemma_first_line_len(rest);
        assert((bytes + more).skip(1) =~= rest + more);
        lemma_first_line_stays(rest, more);
    }
}

/// The begun line at the end of any bytes holds no line feed, and holds a
/// byte exactly where the bytes end in the middle of a line.
pub proof fn lemma_partial_line_is_open(bytes: Seq<u8>)
    ensures
        free_of_line_feeds(partial_line(bytes)),
        partial_line(bytes).len() > 0 <==> ends_mid_line(bytes),
    decreases bytes.len(),
{
    if bytes.len() > 0 {
        lemma_first_line_len(bytes);
        let rest = bytes.skip(first_line_len(bytes) as int);
        if rest.len() > 0 {
            lemma_partial_line_is_open(rest);
            lemma_first_line_len(rest);
        } else {
            assert(split_lines(rest) =~= Seq::<Seq<u8>>::empty());
        }
    }
}

/// The lines of bytes that go on are the whole lines of the bytes so far,
/// then the lines of the begun line with what follows.
pub proof fn lemma_split_lines_resumes(bytes: Seq<u8>, more: Seq<u8>)
    ensures
        split_lines(bytes + more) == complete_lines(bytes) + split_lines(
            partial_line(bytes) + more,
        ),
    decreases bytes.len(),
{
    if bytes.len() > 0 {
        lemma_first_line_len(bytes);
        let n = first_line_len(bytes) as int;
        let first = bytes.take(n);
        let rest = bytes.skip(n);
        if bytes[n - 1] == LINE_FEED {
            // The first line is whole: it stays the first line, and the
            // claim for what follows it gives the claim for all.
            let whole = bytes + more;
            lemma_first_line_stays(bytes, more);
            assert(whole.take(n) =~= first);
            assert(whole.skip(n) =~= rest + more);
            lemma_split_lines_resumes(rest, more);
            lemma_first_line_len(rest);
            assert(complete_lines(bytes) =~= seq![first] + complete_lines(rest));
            assert(partial_line(bytes) == partial_line(rest));
            assert(split_lines(whole) =~= complete_lines(bytes) + split_lines(
                partial_line(bytes) + more,
            ));
        } else {
            // No line is whole: all the bytes are the begun line.
            assert(first =~= bytes);
            assert(partial_line(bytes) == bytes);
        }
    }
}

/// To take in one chunk and then the next yields the whole lines, and
/// leaves the begun line, of taking in both at once.
pub proof fn lemma_lines_of_chunks(bytes: Seq<u8>, more: Seq<u8>)
    ensures
        complete_lines(bytes + more) == complete_lines(bytes) + complete_lines(
            partial_line(bytes) + more,
        ),
        partial_line(bytes + more) == partial_line(partial_line(bytes) + more),
{
    let begun = partial_line(bytes);
    lemma_split_lines_resumes(bytes, more);
    lemma_partial_line_is_open(bytes);
    if more.len() == 0 {
        lemma_open_line(begun);
    } else if ends_mid_line(bytes + more) {
        lemma_first_line_len(begun + more);
    }
}

/// At the end of a stream the whole lines and the begun line, if there is
/// one, are all the lines of the stream.
pub proof fn lemma_lines_at_end(bytes: Seq<u8>)
    ensures
        split_lines(bytes) == if ends_mid_line(bytes) {
            complete_lines(bytes).push(partial_line(bytes))
        } else {
            complete_lines(bytes)
        },
{
    if ends_mid_line(bytes) {
        lemma_first_line_len(bytes);
    }
}

/// It does not matter in which chunks a stream arrives: the lines that come
/// out of it, chunk by chunk and at its end, are the lines of all its bytes.
pub proof fn lemma_chunking_is_immaterial(pending: Seq<u8>, chunks: Seq<Seq<u8>>)
    requires
        free_of_line_feeds(pending),
    ensures
        lines_of_stream(pending, chunks) == split_lines(pending + chunks.flatten()),
    decreases chunks.len(),
{
    if chunks.len() == 0 {
        lemma_open_line(pending);
        lemma_lines_at_end(pending);
    } else {
        let taken = pending + chunks.first();
        let tail = chunks.drop_first();
        lemma_partial_line_is_open(taken);
        lemma_chunking_is_immaterial(partial_line(taken), tail);
        lemma_split_lines_resumes(taken, tail.flatten());
        assert(pending + chunks.flatten() =~= taken + tail.flatten());
    }
}

/// Nothing is lost and nothing moves: the lines of a byte string, one after
/// the other, are that byte string.
pub proof fn lemma_lines_rejoin(bytes: Seq<u8>)
    ensures
        split_lines(bytes).flatten() == bytes,
    decreases bytes.len(),
{
    if bytes.len() > 0 {
        lemma_first_line_len(bytes);
        let n = first_line_len(bytes) as int;
        lemma_lines_rejoin(bytes.skip(n));
        lemma_flatten_concat(seq![bytes.take(n)], split_lines(bytes.skip(n)));
        seq![bytes.take(n)].lemma_flatten_one_element();
    }
}

/// Every line holds at least one byte, holds no line feed before its last
/// byte, and ends with a line feed unless it is the last line.
pub proof fn lemma_line_shape(bytes: Seq<u8>, index: int)
    requires
        0 <= index < split_lines(bytes).len(),
    ensures
        split_lines(bytes)[index].len() > 0,
        free_of_line_feeds(split_lines(bytes)[index].drop_last()),
        index + 1 < split_lines(bytes).len() ==> split_lines(bytes)[index].last() == LINE_FEED,
    decreases bytes.len(),
{
    lemma_first_line_len(bytes);
    let n = first_line_len(bytes) as int;
    let rest = bytes.skip(n);
    if index == 0 {
        if 1 < split_lines(bytes).len() {
            assert(split_lines(rest).len() > 0);
        }
    } else {
        lemma_line_shape(rest, index - 1);
    }
}

/// The texts that the lines `lines` encode, where each is well-formed UTF-8.
pub open spec fn texts_of(lines: Seq<Seq<u8>>) -> Seq<Seq<char>> {
    lines.map_values(|line: Seq<u8>| decode_utf8(line))
}

/// A line feed never stands inside the encoding of a character. So the
/// first line of well-formed UTF-8 is well-formed, what follows it is, and
/// the text of both, one after the other, is the text of the whole.
pub proof fn lemma_first_line_of_text(bytes: Seq<u8>)
    requires
        valid_utf8(bytes),
    ensures
        valid_utf8(bytes.take(first_line_len(bytes) as int)),
        valid_utf8(bytes.skip(first_line_len(bytes) as int)),
        decode_utf8(bytes) == decode_utf8(bytes.take(first_line_len(bytes) as int))
            + decode_utf8(bytes.skip(first_line_len(bytes) as int)),
    decreases bytes.len(),
{
    let n = first_line_len(bytes) as int;
    if bytes.len() > 0 {
        // The bytes are the encoding of one character, then the rest.
        let width = length_of_first_scalar(bytes);
        let scalar = bytes.take(width);
        let rest = pop_first_scalar(bytes);
        assert(bytes =~= scalar + rest);
        assert(valid_utf8(scalar)) by {
            reveal_with_fuel(valid_utf8, 2);
        }
        assert(decode_utf8(scalar) =~= seq![decode_first_scalar(bytes) as char]) by {
            reveal_with_fuel(decode_utf8, 2);
        }
        if bytes[0] != LINE_FEED {
            // That character is no line feed, and holds none: the first
            // line is its encoding, then the first line of the rest.
            lemma_first_line_of_open_prefix(scalar, rest);
            lemma_first_line_len(rest);
            let m = first_line_len(rest) as int;
            lemma_first_line_of_text(rest);
            let line = bytes.take(n);
            assert(line =~= scalar + rest.take(m));
            assert(bytes.skip(n) =~= rest.skip(m));
            valid_utf8_concat(scalar, rest.take(m));
            assert(pop_first_scalar(line) =~= rest.take(m));
        }
    }
}

/// The lines of well-formed UTF-8 are well-formed, each by itself, and
/// their texts, one after the other, are the text of the whole: what is
/// decoded line by line reads as what was written.
pub proof fn lemma_lines_of_text(bytes: Seq<u8>)
    requires
        valid_utf8(bytes),
    ensures
        forall|i: int|
            0 <= i < split_lines(bytes).len() ==> valid_utf8(#[trigger] split_lines(bytes)[i]),
        texts_of(split_lines(bytes)).flatten() == decode_utf8(bytes),
    decreases bytes.len(),
{
    if bytes.len() > 0 {
        lemma_first_line_len(bytes);
        lemma_first_line_of_text(bytes);
        let n = first_line_len(bytes) as int;
        let first = bytes.take(n);
        let rest = bytes.skip(n);
        lemma_lines_of_text(rest);
        assert forall|i: int| 0 <= i < split_lines(bytes).len() implies valid_utf8(
            #[trigger] split_lines(bytes)[i],
        ) by {
            if i > 0 {
                assert(split_lines(bytes)[i] == split_lines(rest)[i - 1]);
            }
        }
        assert(texts_of(split_lines(bytes)) =~= seq![decode_utf8(first)] + texts_of(
            split_lines(rest),
        ));
        lemma_flatten_concat(seq![decode_utf8(first)], texts_of(split_lines(rest)));
        seq![decode_utf8(first)].lemma_flatten_one_element();
    }
}

} // verus!
