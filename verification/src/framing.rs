//! Line framing: a byte stream that arrives in chunks is cut at every line
//! feed, however the chunks fall.

use vstd::prelude::*;

verus! {

/// The byte that ends a line.
pub const LINE_FEED: u8 = 10;

/// The byte that is dropped where it stands directly before a line feed.
pub const CARRIAGE_RETURN: u8 = 13;

/// The bytes after the last line feed of a stream: the line that is not
/// finished yet.
pub open spec fn unfinished_line(bytes: Seq<u8>) -> Seq<u8>
    decreases bytes.len(),
{
    if bytes.len() == 0 || bytes.last() == LINE_FEED {
        Seq::empty()
    } else {
        unfinished_line(bytes.drop_last()).push(bytes.last())
    }
}

/// The lines of a stream that a line feed has ended, in stream order, each
/// without its line feed.
pub open spec fn terminated_lines(bytes: Seq<u8>) -> Seq<Seq<u8>>
    decreases bytes.len(),
{
    if bytes.len() == 0 {
        Seq::empty()
    } else if bytes.last() == LINE_FEED {
        terminated_lines(bytes.drop_last()).push(unfinished_line(bytes.drop_last()))
    } else {
        terminated_lines(bytes.drop_last())
    }
}

/// A line without the carriage return at its end, if it has one.
pub open spec fn without_carriage_return(line: Seq<u8>) -> Seq<u8> {
    if line.len() > 0 && line.last() == CARRIAGE_RETURN {
        line.drop_last()
    } else {
        line
    }
}

/// The byte sequences that a vector of lines holds.
pub open spec fn line_contents(lines: Seq<Vec<u8>>) -> Seq<Seq<u8>> {
    Seq::new(lines.len(), |i: int| lines[i]@)
}

/// The lines, each followed by a line feed, laid end to end.
pub open spec fn joined(lines: Seq<Seq<u8>>) -> Seq<u8>
    decreases lines.len(),
{
    if lines.len() == 0 {
        Seq::empty()
    } else {
        joined(lines.drop_last()) + lines.last().push(LINE_FEED)
    }
}

/// Holds the bytes of the line that is not finished yet.
pub struct LineBuffer {
    pending: Vec<u8>,
}

impl View for LineBuffer {
    type V = Seq<u8>;

    closed spec fn view(&self) -> Seq<u8> {
        self.pending@
    }
}

impl LineBuffer {
    #[verifier::type_invariant]
    spec fn holds_no_line_feed(self) -> bool {
        !self.pending@.contains(LINE_FEED)
    }

    /// A buffer that holds nothing.
    pub fn new() -> (buffer: LineBuffer)
        ensures
            buffer@ == Seq::<u8>::empty(),
    {
        LineBuffer { pending: Vec::new() }
    }

    /// Takes in the next chunk of the stream.  Returns the lines that the
    /// chunk has finished, in order and without their line feeds; the first
    /// of them begins with what was pending.  What follows the chunk's last
    /// line feed stays pending.
    pub fn push(&mut self, chunk: &[u8]) -> (lines: Vec<Vec<u8>>)
        ensures
            line_contents(lines@) == terminated_lines(old(self)@ + chunk@),
            final(self)@ == unfinished_line(old(self)@ + chunk@),
    {
        let ghost before = self.pending@;
        proof {
            use_type_invariant(&*self);
            lemma_without_line_feed(before);
        }
        let mut pending: Vec<u8> = Vec::new();
        std::mem::swap(&mut pending, &mut self.pending);
        let mut lines: Vec<Vec<u8>> = Vec::new();
        let mut i: usize = 0;
        assert(before + chunk@.take(0) =~= before);
        assert(line_contents(lines@) =~= Seq::<Seq<u8>>::empty());
        while i < chunk.len()
            invariant
                i <= chunk.len(),
                !pending@.contains(LINE_FEED),
                pending@ == unfinished_line(before + chunk@.take(i as int)),
                line_contents(lines@) == terminated_lines(before + chunk@.take(i as int)),
            decreases chunk.len() - i,
        {
            let byte = chunk[i];
            proof {
                let next = before + chunk@.take(i + 1);
                assert(next.drop_last() =~= before + chunk@.take(i as int));
                assert(next.last() == byte);
            }
            if byte == LINE_FEED {
                let mut line: Vec<u8> = Vec::new();
                std::mem::swap(&mut line, &mut pending);
                let ghost earlier = lines@;
                lines.push(line);
                assert(line_contents(lines@) =~= line_contents(earlier).push(line@));
            } else {
                let ghost held = pending@;
                pending.push(byte);
                assert forall|k: int| 0 <= k < pending@.len() implies pending@[k]
                    != LINE_FEED by {
                    if k < held.len() {
                        assert(held.contains(held[k]));
                    }
                }
            }
            i += 1;
        }
        assert(chunk@.take(i as int) =~= chunk@);
        self.pending = pending;
        lines
    }

    /// Hands out what is pending and leaves the buffer empty: at the end of
    /// a stream, the bytes of a last line that no line feed ended.
    pub fn take_rest(&mut self) -> (rest: Vec<u8>)
        ensures
            rest@ == old(self)@,
            final(self)@ == Seq::<u8>::empty(),
    {
        let mut rest: Vec<u8> = Vec::new();
        std::mem::swap(&mut rest, &mut self.pending);
        rest
    }
}

/// A stream without a line feed has no finished line and is itself the
/// unfinished one.
pub proof fn lemma_without_line_feed(bytes: Seq<u8>)
    requires
        !bytes.contains(LINE_FEED),
    ensures
        unfinished_line(bytes) == bytes,
        terminated_lines(bytes) == Seq::<Seq<u8>>::empty(),
    decreases bytes.len(),
{
    if bytes.len() > 0 {
        let front = bytes.drop_last();
        assert(bytes.contains(bytes.last()));
        assert forall|k: int| 0 <= k < front.len() implies front[k] != LINE_FEED by {
            assert(bytes.contains(bytes[k]));
        }
        lemma_without_line_feed(front);
        assert(front.push(bytes.last()) =~= bytes);
    } else {
        assert(bytes =~= Seq::<u8>::empty());
    }
}

/// Neither the unfinished line nor any finished line holds a line feed.
pub proof fn lemma_lines_hold_no_line_feed(bytes: Seq<u8>)
    ensures
        !unfinished_line(bytes).contains(LINE_FEED),
        forall|i: int|
            0 <= i < terminated_lines(bytes).len() ==> !(#[trigger] terminated_lines(bytes)[i])
                .contains(LINE_FEED),
    decreases bytes.len(),
{
    if bytes.len() > 0 {
        let front = bytes.drop_last();
        lemma_lines_hold_no_line_feed(front);
        if bytes.last() != LINE_FEED {
            let rest = unfinished_line(front);
            assert forall|k: int| 0 <= k < rest.push(bytes.last()).len() implies rest.push(
                bytes.last(),
            )[k] != LINE_FEED by {
                if k < rest.len() {
                    assert(rest.contains(rest[k]));
                }
            }
        } else {
            let earlier = terminated_lines(front);
            assert forall|i: int| 0 <= i < terminated_lines(bytes).len() implies !(
            #[trigger] terminated_lines(bytes)[i]).contains(LINE_FEED) by {
                if i < earlier.len() {
                    assert(terminated_lines(bytes)[i] == earlier[i]);
                }
            }
        }
    }
}

/// Framing loses and reorders nothing: the finished lines, each with its
/// line feed back in place, followed by the unfinished line, are the stream.
pub proof fn lemma_framing_keeps_every_byte(bytes: Seq<u8>)
    ensures
        joined(terminated_lines(bytes)) + unfinished_line(bytes) == bytes,
    decreases bytes.len(),
{
    if bytes.len() == 0 {
        assert(joined(terminated_lines(bytes)) + unfinished_line(bytes) =~= bytes);
    } else {
        let front = bytes.drop_last();
        lemma_framing_keeps_every_byte(front);
        if bytes.last() == LINE_FEED {
            let lines = terminated_lines(bytes);
            assert(lines.drop_last() =~= terminated_lines(front));
            assert(joined(lines) + unfinished_line(bytes) =~= (joined(terminated_lines(front))
                + unfinished_line(front)).push(LINE_FEED));
            assert(front.push(LINE_FEED) =~= bytes);
        } else {
            assert(joined(terminated_lines(bytes)) + unfinished_line(bytes) =~= (joined(
                terminated_lines(front),
            ) + unfinished_line(front)).push(bytes.last()));
            assert(front.push(bytes.last()) =~= bytes);
        }
    }
}

/// Framing does not depend on how the stream is cut into chunks: framing
/// `first`, and then `second` on top of what `first` left unfinished, gives
/// the lines and the unfinished rest of the whole stream.
pub proof fn lemma_framing_in_pieces(first: Seq<u8>, second: Seq<u8>)
    ensures
        terminated_lines(first + second) == terminated_lines(first) + terminated_lines(
            unfinished_line(first) + second,
        ),
        unfinished_line(first + second) == unfinished_line(unfinished_line(first) + second),
    decreases second.len(),
{
    let rest = unfinished_line(first);
    if second.len() == 0 {
        lemma_lines_hold_no_line_feed(first);
        lemma_without_line_feed(rest);
        assert(first + second =~= first);
        assert(rest + second =~= rest);
        assert(terminated_lines(first) + Seq::<Seq<u8>>::empty() =~= terminated_lines(first));
    } else {
        let shorter = second.drop_last();
        lemma_framing_in_pieces(first, shorter);
        assert((first + second).drop_last() =~= first + shorter);
        assert((rest + second).drop_last() =~= rest + shorter);
        assert((first + second).last() == second.last());
        assert((rest + second).last() == second.last());
        if second.last() == LINE_FEED {
            assert(terminated_lines(first + second) =~= terminated_lines(first)
                + terminated_lines(rest + second));
        }
    }
}

/// A stream that is made of whole lines frames to exactly those lines: the
/// lines laid end to end, each with its line feed, give back the lines in
/// their order and leave nothing unfinished.
pub proof fn lemma_lines_of_joined(lines: Seq<Seq<u8>>)
    requires
        forall|i: int| 0 <= i < lines.len() ==> !(#[trigger] lines[i]).contains(LINE_FEED),
    ensures
        terminated_lines(joined(lines)) == lines,
        unfinished_line(joined(lines)) == Seq::<u8>::empty(),
    decreases lines.len(),
{
    if lines.len() == 0 {
        assert(terminated_lines(joined(lines)) =~= lines);
    } else {
        let front = lines.drop_last();
        let last = lines.last();
        let ended = last.push(LINE_FEED);
        assert forall|i: int| 0 <= i < front.len() implies !(#[trigger] front[i]).contains(
            LINE_FEED,
        ) by {
            assert(front[i] == lines[i]);
        }
        lemma_lines_of_joined(front);
        lemma_framing_in_pieces(joined(front), ended);
        lemma_without_line_feed(last);
        assert(Seq::<u8>::empty() + ended =~= ended);
        assert(ended.drop_last() =~= last);
        assert(terminated_lines(ended) =~= seq![last]);
        assert(front + seq![last] =~= lines);
    }
}

} // verus!
