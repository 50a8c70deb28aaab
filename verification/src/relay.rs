//! Output relay: the bytes that a child wrote to a captured stream, cut into
//! lines while they arrive and decoded line by line, to be repeated on the
//! parent's own stream.

use vstd::prelude::*;
use vstd::utf8::decode_utf8;
use vstd::utf8::valid_utf8;

use crate::lines::complete_lines;
use crate::lines::free_of_line_feeds;
use crate::lines::lemma_lines_at_end;
use crate::lines::lemma_lines_of_chunks;
use crate::lines::lemma_lines_of_text;
use crate::lines::lemma_open_line;
use crate::lines::lemma_partial_line_is_open;
use crate::lines::lemma_single_line;
use crate::lines::partial_line;
use crate::lines::split_lines;
use crate::lines::texts_of;
use crate::lines::LINE_FEED;
use crate::text::texts;

verus! {

/// The text that stands for `bytes` when they are decoded with every
/// malformed sequence replaced: what `String::from_utf8_lossy` makes of
/// them.
pub uninterp spec fn lossy_text(bytes: Seq<u8>) -> Seq<char>;

/// Decodes `bytes` as UTF-8, by `String::from_utf8_lossy`.
///
/// This is not proved. It claims that the text depends on the bytes alone,
/// and that bytes which are well-formed UTF-8 decode to the text that they
/// encode.
#[verifier::external_body]
fn decode_lossy(bytes: &[u8]) -> (text: String)
    ensures
        text@ == lossy_text(bytes@),
        valid_utf8(bytes@) ==> text@ == decode_utf8(bytes@),
{
    String::from_utf8_lossy(bytes).into_owned()
}

/// The byte strings that a sequence of buffers holds.
pub open spec fn byte_lines(lines: Seq<Vec<u8>>) -> Seq<Seq<u8>> {
    lines.map_values(|line: Vec<u8>| line@)
}

/// The texts of `lines`, each decoded by itself and with every malformed
/// sequence replaced.
pub open spec fn decoded(lines: Seq<Seq<u8>>) -> Seq<Seq<char>> {
    lines.map_values(|line: Seq<u8>| lossy_text(line))
}

/// What is repeated on the parent's stream for a captured stream that held
/// `bytes`: the text of each line, in order.
pub open spec fn relayed(bytes: Seq<u8>) -> Seq<Seq<char>> {
    decoded(split_lines(bytes))
}

/// Decode `lines`, each by itself. A line that is well-formed UTF-8 gives
/// the text that it encodes.
pub fn decode_lines(lines: &Vec<Vec<u8>>) -> (decoded_lines: Vec<String>)
    ensures
        texts(decoded_lines@) == decoded(byte_lines(lines@)),
        forall|i: int|
            0 <= i < lines@.len() && valid_utf8(#[trigger] lines@[i]@) ==> decoded_lines@[i]@
                == decode_utf8(lines@[i]@),
{
    let mut decoded_lines: Vec<String> = Vec::new();
    let mut next: usize = 0;
    while next < lines.len()
        invariant
            next <= lines.len(),
            decoded_lines@.len() == next,
            forall|i: int|
                0 <= i < next ==> decoded_lines@[i]@ == lossy_text(#[trigger] lines@[i]@),
            forall|i: int|
                0 <= i < next && valid_utf8(#[trigger] lines@[i]@) ==> decoded_lines@[i]@
                    == decode_utf8(lines@[i]@),
        decreases lines.len() - next,
    {
        decoded_lines.push(decode_lossy(lines[next].as_slice()));
        next = next + 1;
    }
    decoded_lines
}

/// Cuts a stream of bytes into lines while it arrives, chunk by chunk.
///
/// What it holds is the begun line: the bytes that arrived after the last
/// line feed.
#[derive(Debug)]
pub struct LineAssembler {
    pending: Vec<u8>,
}

impl View for LineAssembler {
    type V = Seq<u8>;

    closed spec fn view(&self) -> Seq<u8> {
        self.pending@
    }
}

impl LineAssembler {
    #[verifier::type_invariant]
    spec fn holds_no_line_feed(&self) -> bool {
        free_of_line_feeds(self.pending@)
    }

    /// An assembler to which nothing has arrived.
    pub fn new() -> (assembler: Self)
        ensures
            assembler@ == Seq::<u8>::empty(),
    {
        LineAssembler { pending: Vec::new() }
    }

    /// Take in the next chunk of the stream. Handed back are the lines that
    /// it has made whole, in order, each with its line feed; what follows
    /// the last line feed is kept.
    pub fn push(&mut self, chunk: &[u8]) -> (lines: Vec<Vec<u8>>)
        ensures
            byte_lines(lines@) == complete_lines(old(self)@ + chunk@),
            final(self)@ == partial_line(old(self)@ + chunk@),
    {
        proof {
            use_type_invariant(&*self);
        }
        let mut lines: Vec<Vec<u8>> = Vec::new();
        let mut current: Vec<u8> = Vec::new();
        std::mem::swap(&mut current, &mut self.pending);
        let ghost start = current@;
        proof {
            lemma_open_line(start);
        }
        let mut next: usize = 0;
        while next < chunk.len()
            invariant
                next <= chunk.len(),
                self.pending@.len() == 0,
                free_of_line_feeds(current@),
                byte_lines(lines@) == complete_lines(start + chunk@.take(next as int)),
                current@ == partial_line(start + chunk@.take(next as int)),
            decreases chunk.len() - next,
        {
            let byte = chunk[next];
            let ghost seen = start + chunk@.take(next as int);
            let ghost begun = current@;
            proof {
                assert(start + chunk@.take(next + 1) =~= seen + seq![byte]);
                lemma_lines_of_chunks(seen, seq![byte]);
            }
            current.push(byte);
            if byte == LINE_FEED {
                let mut line: Vec<u8> = Vec::new();
                std::mem::swap(&mut line, &mut current);
                proof {
                    assert(line@ =~= begun + seq![byte]);
                    lemma_single_line(line@);
                }
                lines.push(line);
            } else {
                proof {
                    assert(current@ =~= begun + seq![byte]);
                    lemma_open_line(current@);
                }
            }
            next = next + 1;
        }
        assert(chunk@.take(next as int) =~= chunk@);
        self.pending = current;
        lines
    }

    /// The stream has ended: hand back the begun line, if any byte of it has
    /// arrived.
    pub fn finish(self) -> (rest: Option<Vec<u8>>)
        ensures
            self@.len() == 0 ==> rest is None,
            self@.len() > 0 ==> (rest matches Some(line) && line@ == self@),
    {
        if self.pending.len() == 0 {
            None
        } else {
            Some(self.pending)
        }
    }
}

/// What one attempt to read from a captured stream gave.
#[derive(Clone, Copy, Debug)]
pub enum ReadOutcome<'a> {
    /// These bytes arrived.
    Bytes(&'a [u8]),
    /// The stream is at its end.
    End,
    /// Reading failed.
    Failed,
}

/// The draining of one captured stream: what has been read and not yet
/// repeated, and whether there is more to read.
#[derive(Debug)]
pub struct Drain {
    assembler: LineAssembler,
    open: bool,
}

impl Drain {
    /// The bytes that were read after the last line feed, and not repeated
    /// yet.
    pub closed spec fn pending(&self) -> Seq<u8> {
        self.assembler@
    }

    /// The stream is still to be read from.
    pub closed spec fn is_open(&self) -> bool {
        self.open
    }

    /// The draining of a stream from which nothing has been read.
    pub fn new() -> (drain: Self)
        ensures
            drain.is_open(),
            drain.pending() == Seq::<u8>::empty(),
    {
        Drain { assembler: LineAssembler::new(), open: true }
    }

    /// Whether the stream is still to be read from.
    pub fn more(&self) -> (open: bool)
        ensures
            open == self.is_open(),
    {
        self.open
    }

    /// Take in what the next attempt to read gave, and hand back the lines
    /// to repeat now, in order.
    ///
    /// Bytes that arrived complete zero or more lines, which are repeated at
    /// once; the begun line that follows them waits. At the end of the
    /// stream the begun line is repeated as it is, if it holds a byte. A
    /// failed read ends the draining of this stream, and the begun line is
    /// dropped. Once the draining has ended, nothing is repeated any more.
    pub fn step(&mut self, read: ReadOutcome<'_>) -> (lines: Vec<String>)
        ensures
            !old(self).is_open() ==> texts(lines@) == Seq::<Seq<char>>::empty()
                && !final(self).is_open() && final(self).pending() == old(self).pending(),
            old(self).is_open() ==> match read {
                ReadOutcome::Bytes(chunk) => {
                    &&& texts(lines@) == decoded(complete_lines(old(self).pending() + chunk@))
                    &&& final(self).pending() == partial_line(old(self).pending() + chunk@)
                    &&& final(self).is_open()
                },
                ReadOutcome::End => {
                    &&& texts(lines@) == decoded(
                        if old(self).pending().len() > 0 {
                            seq![old(self).pending()]
                        } else {
                            Seq::<Seq<u8>>::empty()
                        },
                    )
                    &&& final(self).pending() == Seq::<u8>::empty()
                    &&& !final(self).is_open()
                },
                ReadOutcome::Failed => {
                    &&& texts(lines@) == Seq::<Seq<char>>::empty()
                    &&& final(self).pending() == Seq::<u8>::empty()
                    &&& !final(self).is_open()
                },
            },
    {
        if !self.open {
            let nothing: Vec<String> = Vec::new();
            return nothing;
        }
        match read {
            ReadOutcome::Bytes(chunk) => {
                let lines = self.assembler.push(chunk);
                decode_lines(&lines)
            },
            ReadOutcome::End => {
                let mut assembler = LineAssembler::new();
                std::mem::swap(&mut assembler, &mut self.assembler);
                self.open = false;
                let mut lines: Vec<Vec<u8>> = Vec::new();
                if let Some(rest) = assembler.finish() {
                    lines.push(rest);
                }
                decode_lines(&lines)
            },
            ReadOutcome::Failed => {
                self.assembler = LineAssembler::new();
                self.open = false;
                let nothing: Vec<String> = Vec::new();
                nothing
            },
        }
    }
}

/// All that is repeated for a captured stream that held `bytes` from its
/// start to its end. Where the child wrote well-formed UTF-8, the lines
/// that are repeated read, one after the other, as what it wrote.
pub fn relay(bytes: &[u8]) -> (lines: Vec<String>)
    ensures
        texts(lines@) == relayed(bytes@),
        valid_utf8(bytes@) ==> texts(lines@).flatten() == decode_utf8(bytes@),
{
    let mut assembler = LineAssembler::new();
    let mut lines = assembler.push(bytes);
    proof {
        lemma_lines_at_end(bytes@);
        lemma_partial_line_is_open(bytes@);
    }
    if let Some(rest) = assembler.finish() {
        lines.push(rest);
    }
    assert(byte_lines(lines@) == split_lines(bytes@));
    let decoded_lines = decode_lines(&lines);
    proof {
        if valid_utf8(bytes@) {
            lemma_lines_of_text(bytes@);
            assert(texts(decoded_lines@) =~= texts_of(split_lines(bytes@))) by {
                assert forall|i: int| 0 <= i < lines@.len() implies decoded_lines@[i]@
                    == decode_utf8(split_lines(bytes@)[i]) by {
                    assert(byte_lines(lines@)[i] == lines@[i]@);
                }
            }
        }
    }
    decoded_lines
}

} // verus!
