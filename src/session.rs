//! The copy session: a state machine that decides, step by step, what to do
//! with the source and the destination. The caller performs each action and
//! reports its result back.

use bytes::BytesMut;
use vstd::prelude::*;

use crate::buffer::{buffer_append, buffer_bytes, buffer_clear, buffer_len, bytes_of, new_buffer};

verus! {

/// Where a session stands.
#[derive(Clone, Copy, Debug, PartialEq, Eq, Structural)]
pub enum Phase {
    /// Reading from the source until a block is full or the source ends.
    Assembling,
    /// Writing the gathered bytes to the destination.
    Flushing,
    /// Flushing the destination before finishing.
    Draining,
    /// Finished: nothing more to do.
    Done,
}

/// What the caller should do next.
#[derive(Clone, Copy, Debug, PartialEq, Eq, Structural)]
pub enum Action {
    /// Read at most this many bytes from the source, then call `on_read`.
    Read(usize),
    /// Write all of `pending()` to the destination, then call `on_written`.
    Write,
    /// Flush the destination, then call `on_flushed`.
    Flush,
    /// The session is over.
    Finish,
}

/// A failure that the session itself detects.
#[derive(Clone, Copy, Debug, PartialEq, Eq, Structural)]
pub enum CopyError {
    /// The destination accepted another number of bytes than it was handed.
    ShortWrite { requested: usize, written: usize },
}

/// One copy operation from a source to a destination.
pub struct Session {
    block_size: usize,
    block_limit: usize,
    buffer: BytesMut,
    blocks_completed: usize,
    end_of_source: bool,
    phase: Phase,
    /// Every byte that reads have delivered, in order.
    taken: Ghost<Seq<u8>>,
    /// Every byte that the destination has accepted, in order.
    written: Ghost<Seq<u8>>,
}

/// What a copy of `src` ends with: all of it when it fits in `limit` blocks
/// of `bs` bytes, else its first `bs * limit` bytes.
pub open spec fn expected_output(src: Seq<u8>, bs: nat, limit: nat) -> Seq<u8> {
    if src.len() <= bs * limit {
        src
    } else {
        src.subrange(0, (bs * limit) as int)
    }
}

/// How many whole blocks a copy of `src` counts: the full blocks in it, at
/// most `limit`.
pub open spec fn expected_blocks(src: Seq<u8>, bs: nat, limit: nat) -> nat
    recommends
        bs > 0,
{
    let full = src.len() / bs;
    if full <= limit {
        full
    } else {
        limit
    }
}

impl Session {
    /// Bytes per block.
    pub closed spec fn block_size(&self) -> nat {
        self.block_size as nat
    }

    /// The most whole blocks the session copies.
    pub closed spec fn block_limit(&self) -> nat {
        self.block_limit as nat
    }

    /// Whole blocks written so far.
    pub closed spec fn blocks_completed(&self) -> nat {
        self.blocks_completed as nat
    }

    /// Whether a read has returned no bytes; never reset.
    pub closed spec fn end_of_source(&self) -> bool {
        self.end_of_source
    }

    /// Where the session stands.
    pub closed spec fn phase(&self) -> Phase {
        self.phase
    }

    /// The bytes read and not yet written.
    pub closed spec fn buffered(&self) -> Seq<u8> {
        bytes_of(self.buffer)
    }

    /// Every byte that reads have delivered so far.
    pub closed spec fn taken(&self) -> Seq<u8> {
        self.taken@
    }

    /// Every byte that the destination has accepted so far.
    pub closed spec fn written(&self) -> Seq<u8> {
        self.written@
    }

    /// How many bytes the next read may deliver.
    pub open spec fn room(&self) -> nat {
        (self.block_size() - self.buffered().len()) as nat
    }

    /// The reads so far agree with a source that holds `src`: they delivered
    /// a prefix of it, and the whole of it once the source has ended.
    pub open spec fn follows(&self, src: Seq<u8>) -> bool {
        &&& self.taken().len() <= src.len()
        &&& self.taken() == src.subrange(0, self.taken().len() as int)
        &&& self.end_of_source() ==> self.taken() == src
    }

    /// The session's invariant: the buffer never holds more than a block,
    /// what was read is what was written followed by what is buffered, and
    /// before the source ends exactly the completed blocks have been written.
    pub closed spec fn wf(&self) -> bool {
        let bs = self.block_size as int;
        let n = self.blocks_completed as int;
        let buffered = bytes_of(self.buffer);
        &&& bs > 0
        &&& self.blocks_completed <= self.block_limit
        &&& self.taken@ == self.written@ + buffered
        &&& buffered.len() <= bs
        &&& bs * n <= self.written@.len()
        &&& !self.end_of_source ==> self.written@.len() == bs * n
        &&& self.end_of_source ==> self.taken@.len() < bs * n + bs
        &&& self.end_of_source ==> self.blocks_completed < self.block_limit
        &&& match self.phase {
            Phase::Assembling => {
                &&& !self.end_of_source
                &&& buffered.len() < bs
                &&& self.blocks_completed < self.block_limit
            },
            Phase::Flushing => {
                &&& buffered.len() > 0
                &&& self.end_of_source || buffered.len() == bs
                &&& self.blocks_completed < self.block_limit
            },
            Phase::Draining | Phase::Done => {
                &&& buffered.len() == 0
                &&& self.end_of_source || self.blocks_completed == self.block_limit
            },
        }
    }

    /// Every byte read is either written or still held, the count of whole
    /// blocks stays within the limit, and a write always has bytes to send.
    pub proof fn lemma_wf_facts(&self)
        requires
            self.wf(),
        ensures
            self.taken() == self.written() + self.buffered(),
            self.buffered().len() <= self.block_size(),
            self.blocks_completed() <= self.block_limit(),
            self.block_limit() <= usize::MAX,
            self.phase() == Phase::Flushing ==> self.buffered().len() > 0,
    {
    }

    /// Starts a session that copies at most `block_limit` whole blocks of
    /// `block_size` bytes. With a limit of zero it is over at once.
    pub fn new(block_size: usize, block_limit: usize) -> (s: Session)
        requires
            block_size > 0,
        ensures
            s.wf(),
            s.block_size() == block_size,
            s.block_limit() == block_limit,
            s.blocks_completed() == 0,
            !s.end_of_source(),
            s.buffered() == Seq::<u8>::empty(),
            s.taken() == Seq::<u8>::empty(),
            s.written() == Seq::<u8>::empty(),
            s.phase() == (if block_limit == 0 {
                Phase::Done
            } else {
                Phase::Assembling
            }),
    {
        Session {
            block_size,
            block_limit,
            buffer: new_buffer(block_size),
            blocks_completed: 0,
            end_of_source: false,
            phase: if block_limit == 0 {
                Phase::Done
            } else {
                Phase::Assembling
            },
            taken: Ghost(Seq::empty()),
            written: Ghost(Seq::empty()),
        }
    }

    /// Bytes per block.
    pub fn block_size_of(&self) -> (r: usize)
        ensures
            r == self.block_size(),
    {
        self.block_size
    }

    /// The most whole blocks the session copies.
    pub fn block_limit_of(&self) -> (r: usize)
        ensures
            r == self.block_limit(),
    {
        self.block_limit
    }

    /// The number of whole blocks written so far.
    pub fn blocks_completed_of(&self) -> (r: usize)
        ensures
            r == self.blocks_completed(),
    {
        self.blocks_completed
    }

    /// Whether a read has returned no bytes.
    pub fn is_end_of_source(&self) -> (r: bool)
        ensures
            r == self.end_of_source(),
    {
        self.end_of_source
    }

    /// Where the session stands.
    pub fn phase_of(&self) -> (r: Phase)
        ensures
            r == self.phase(),
    {
        self.phase
    }

    /// Whether the session is over.
    pub fn is_done(&self) -> (r: bool)
        ensures
            r == (self.phase() == Phase::Done),
    {
        self.phase == Phase::Done
    }

    /// The bytes that the next write must hand to the destination.
    pub fn pending(&self) -> (r: &[u8])
        ensures
            r@ == self.buffered(),
    {
        buffer_bytes(&self.buffer)
    }

    /// What to do next, from the phase.
    pub fn next_action(&self) -> (a: Action)
        requires
            self.wf(),
        ensures
            a == match self.phase() {
                Phase::Assembling => Action::Read(self.room() as usize),
                Phase::Flushing => Action::Write,
                Phase::Draining => Action::Flush,
                Phase::Done => Action::Finish,
            },
            a matches Action::Read(n) ==> n > 0,
    {
        match self.phase {
            Phase::Assembling => Action::Read(self.block_size - buffer_len(&self.buffer)),
            Phase::Flushing => Action::Write,
            Phase::Draining => Action::Flush,
            Phase::Done => Action::Finish,
        }
    }

    /// Takes the bytes that one read delivered. No bytes means the source has
    /// ended: what was gathered is then written (if anything) and the session
    /// heads for its end. A block that is full is written next.
    pub fn on_read(&mut self, data: &[u8])
        requires
            old(self).wf(),
            old(self).phase() == Phase::Assembling,
            data@.len() <= old(self).room(),
        ensures
            final(self).wf(),
            final(self).block_size() == old(self).block_size(),
            final(self).block_limit() == old(self).block_limit(),
            final(self).blocks_completed() == old(self).blocks_completed(),
            final(self).written() == old(self).written(),
            final(self).taken() == old(self).taken() + data@,
            final(self).buffered() == old(self).buffered() + data@,
            final(self).end_of_source() == (data@.len() == 0),
            final(self).phase() == (if data@.len() == 0 {
                if old(self).buffered().len() == 0 {
                    Phase::Draining
                } else {
                    Phase::Flushing
                }
            } else if final(self).buffered().len() == old(self).block_size() {
                Phase::Flushing
            } else {
                Phase::Assembling
            }),
    {
        let ghost old_buffered = bytes_of(self.buffer);
        if data.len() == 0 {
            self.end_of_source = true;
            if buffer_len(&self.buffer) == 0 {
                self.phase = Phase::Draining;
            } else {
                self.phase = Phase::Flushing;
            }
            assert(data@ =~= Seq::<u8>::empty());
            assert(self.taken@ + data@ =~= self.taken@);
            assert(old_buffered + data@ =~= old_buffered);
        } else {
            buffer_append(&mut self.buffer, data);
            self.taken = Ghost(self.taken@ + data@);
            assert(self.taken@ =~= self.written@ + bytes_of(self.buffer));
            if buffer_len(&self.buffer) == self.block_size {
                self.phase = Phase::Flushing;
            }
        }
    }

    /// Takes the number of bytes that the destination accepted of
    /// `pending()`. Anything but all of them fails the session. A full block
    /// counts as one more block completed, and the result then says `true`:
    /// one progress step. The session goes on reading, or heads for its end
    /// once the limit is reached or the source has ended.
    pub fn on_written(&mut self, count: usize) -> (r: Result<bool, CopyError>)
        requires
            old(self).wf(),
            old(self).phase() == Phase::Flushing,
        ensures
            final(self).wf(),
            count != old(self).buffered().len() ==> {
                &&& r == Err::<bool, CopyError>(
                    CopyError::ShortWrite { requested: old(self).buffered().len() as usize, written: count },
                )
                &&& *final(self) == *old(self)
            },
            count == old(self).buffered().len() ==> {
                let full = old(self).buffered().len() == old(self).block_size();
                let n = if full {
                    old(self).blocks_completed() + 1
                } else {
                    old(self).blocks_completed()
                };
                &&& r == Ok::<bool, CopyError>(full)
                &&& final(self).block_size() == old(self).block_size()
                &&& final(self).block_limit() == old(self).block_limit()
                &&& final(self).end_of_source() == old(self).end_of_source()
                &&& final(self).taken() == old(self).taken()
                &&& final(self).written() == old(self).written() + old(self).buffered()
                &&& final(self).buffered() == Seq::<u8>::empty()
                &&& final(self).blocks_completed() == n
                &&& final(self).phase() == (if n == old(self).block_limit()
                    || old(self).end_of_source() {
                    Phase::Draining
                } else {
                    Phase::Assembling
                })
            },
    {
        let len = buffer_len(&self.buffer);
        if count != len {
            return Err(CopyError::ShortWrite { requested: len, written: count });
        }
        let ghost bs = self.block_size as int;
        let ghost old_n = self.blocks_completed as int;
        let ghost old_written = self.written@;
        let full = len == self.block_size;
        self.written = Ghost(self.written@ + bytes_of(self.buffer));
        buffer_clear(&mut self.buffer);
        assert(self.taken@ =~= self.written@ + bytes_of(self.buffer));
        if full {
            self.blocks_completed = self.blocks_completed + 1;
            assert(bs * (old_n + 1) == bs * old_n + bs) by (nonlinear_arith);
        }
        if self.blocks_completed == self.block_limit || self.end_of_source {
            self.phase = Phase::Draining;
        } else {
            self.phase = Phase::Assembling;
        }
        Ok(full)
    }

    /// The destination has been flushed: the session is over.
    pub fn on_flushed(&mut self)
        requires
            old(self).wf(),
            old(self).phase() == Phase::Draining,
        ensures
            final(self).wf(),
            final(self).phase() == Phase::Done,
            final(self).block_size() == old(self).block_size(),
            final(self).block_limit() == old(self).block_limit(),
            final(self).blocks_completed() == old(self).blocks_completed(),
            final(self).end_of_source() == old(self).end_of_source(),
            final(self).buffered() == old(self).buffered(),
            final(self).taken() == old(self).taken(),
            final(self).written() == old(self).written(),
    {
        self.phase = Phase::Done;
    }
}


/// When a session whose reads agree with a source holding `src` is over, the
/// destination has received exactly `expected_output(src, ..)`, nothing was
/// read that was not written, and the whole blocks counted are
/// `expected_blocks(src, ..)`.
pub proof fn lemma_done_matches_source(s: Session, src: Seq<u8>)
    requires
        s.wf(),
        s.phase() == Phase::Done,
        s.follows(src),
    ensures
        s.taken() == s.written(),
        s.written() == expected_output(src, s.block_size(), s.block_limit()),
        s.blocks_completed() == expected_blocks(src, s.block_size(), s.block_limit()),
{
    let bs = s.block_size as int;
    let n = s.blocks_completed as int;
    let limit = s.block_limit as int;
    let len = src.len() as int;
    assert(s.taken@ =~= s.written@);
    if s.end_of_source {
        assert(bs * n <= len < bs * n + bs);
        assert(len / bs == n) by {
            vstd::arithmetic::div_mod::lemma_fundamental_div_mod_converse(len, bs, n, len - bs * n);
        }
        assert(bs * n + bs <= bs * limit) by (nonlinear_arith)
            requires
                n < limit,
                bs > 0,
        ;
    } else {
        assert(n == limit);
        assert(s.written@.len() == bs * limit);
        assert(len >= bs * limit);
        assert(len / bs >= limit) by {
            vstd::arithmetic::div_mod::lemma_div_is_ordered(bs * limit, len, bs);
            vstd::arithmetic::div_mod::lemma_div_multiples_vanish(limit, bs);
        }
        if len <= bs * limit {
            assert(src.subrange(0, len) =~= src);
        }
    }
}

} // verus!
