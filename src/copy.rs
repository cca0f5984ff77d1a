//! A whole copy run on bytes held in memory, and what holds of every run.

use vstd::prelude::*;

use crate::session::{expected_blocks, expected_output, lemma_done_matches_source, Action, Phase, Session};

verus! {

/// What one copy run did.
pub struct CopyReport {
    /// What the destination received, in order.
    pub output: Vec<u8>,
    /// How many whole blocks were written.
    pub blocks: usize,
    /// How many progress steps were taken.
    pub advances: usize,
    /// How many bytes were read from the source.
    pub bytes_read: usize,
}

spec fn phase_rank(p: Phase) -> int {
    match p {
        Phase::Assembling => 2,
        Phase::Flushing => 1,
        Phase::Draining => 1,
        Phase::Done => 0,
    }
}

/// Runs a session from a source that holds `src` and delivers at most
/// `chunk` bytes per read, to a destination that accepts each write whole.
pub fn copy_slice(src: &[u8], block_size: usize, block_limit: usize, chunk: usize) -> (r: CopyReport)
    requires
        block_size > 0,
        chunk > 0,
    ensures
        r.output@ == expected_output(src@, block_size as nat, block_limit as nat),
        r.blocks == expected_blocks(src@, block_size as nat, block_limit as nat),
        r.advances == r.blocks,
        r.bytes_read == r.output@.len(),
{
    let mut s = Session::new(block_size, block_limit);
    let mut out: Vec<u8> = Vec::new();
    let mut pos: usize = 0;
    let mut advances: usize = 0;
    assert(src@.subrange(0, 0) =~= Seq::<u8>::empty());
    while !s.is_done()
        invariant
            s.wf(),
            s.follows(src@),
            s.block_size() == block_size,
            s.block_limit() == block_limit,
            pos == s.taken().len(),
            out@ == s.written(),
            advances == s.blocks_completed(),
            chunk > 0,
        decreases
            2 * (src@.len() - s.taken().len()) + 2 * (src@.len() - s.written().len())
                + phase_rank(s.phase()),
    {
        proof {
            s.lemma_wf_facts();
        }
        match s.next_action() {
            Action::Read(room) => {
                let want: usize = if room < chunk { room } else { chunk };
                let end: usize = if src.len() - pos < want { src.len() } else { pos + want };
                let data = vstd::slice::slice_subrange(src, pos, end);
                s.on_read(data);
                proof {
                    assert(s.taken() =~= src@.subrange(0, end as int));
                    if end == src.len() {
                        assert(src@.subrange(0, end as int) =~= src@);
                    }
                }
                pos = end;
            },
            Action::Write => {
                let data = s.pending();
                let n = data.len();
                out.extend_from_slice(data);
                proof {
                    assert(out@ =~= s.written() + s.buffered());
                }
                let result = s.on_written(n);
                proof {
                    s.lemma_wf_facts();
                }
                match result {
                    Ok(full) => {
                        if full {
                            advances = advances + 1;
                        }
                    },
                    Err(_) => {},
                }
            },
            Action::Flush => {
                s.on_flushed();
            },
            Action::Finish => {},
        }
    }
    proof {
        lemma_done_matches_source(s, src@);
    }
    CopyReport { output: out, blocks: s.blocks_completed_of(), advances, bytes_read: pos }
}


/// A source that is exactly `k` whole blocks, copied with a limit of at least
/// `k`, arrives whole and counts `k` blocks.
pub proof fn lemma_whole_blocks_copied(src: Seq<u8>, bs: nat, limit: nat, k: nat)
    requires
        bs > 0,
        src.len() == k * bs,
        limit >= k,
    ensures
        expected_output(src, bs, limit) == src,
        expected_blocks(src, bs, limit) == k,
{
    assert(k * bs <= limit * bs) by (nonlinear_arith)
        requires
            limit >= k,
    ;
    assert(bs * limit == limit * bs) by (nonlinear_arith);
    vstd::arithmetic::div_mod::lemma_div_multiples_vanish(k as int, bs as int);
    assert(bs * k == k * bs) by (nonlinear_arith);
}

/// A source that ends inside a block before the limit is reached arrives
/// whole, trailing partial block included, and only its full blocks count.
pub proof fn lemma_partial_tail_copied(src: Seq<u8>, bs: nat, limit: nat)
    requires
        bs > 0,
        src.len() % bs != 0,
        src.len() / bs < limit,
    ensures
        expected_output(src, bs, limit) == src,
        expected_blocks(src, bs, limit) == src.len() / bs,
        expected_blocks(src, bs, limit) * bs < src.len(),
{
    let len = src.len() as int;
    let q = len / bs as int;
    vstd::arithmetic::div_mod::lemma_fundamental_div_mod(len, bs as int);
    assert(len < bs * limit) by (nonlinear_arith)
        requires
            len == bs * q + len % (bs as int),
            len % (bs as int) < bs,
            q < limit,
            q >= 0,
    ;
    assert(q * bs < len) by (nonlinear_arith)
        requires
            len == bs * q + len % (bs as int),
            len % (bs as int) != 0,
            len % (bs as int) >= 0,
    ;
}

/// Where the source holds more than `limit` whole blocks' worth of bytes,
/// exactly `limit` blocks arrive and count: the first `bs * limit` bytes.
pub proof fn lemma_limit_reached(src: Seq<u8>, bs: nat, limit: nat)
    requires
        bs > 0,
        bs * limit < src.len(),
    ensures
        expected_output(src, bs, limit) == src.subrange(0, (bs * limit) as int),
        expected_output(src, bs, limit).len() == bs * limit,
        expected_blocks(src, bs, limit) == limit,
{
    let len = src.len() as int;
    vstd::arithmetic::div_mod::lemma_div_is_ordered((bs * limit) as int, len, bs as int);
    vstd::arithmetic::div_mod::lemma_div_multiples_vanish(limit as int, bs as int);
}

/// Copying the result of a copy again, with the same block size and limit,
/// changes nothing; where the limit covers the whole source, the second copy
/// gives back the original bytes.
pub proof fn lemma_copy_back(src: Seq<u8>, bs: nat, limit: nat)
    requires
        bs > 0,
    ensures
        expected_output(expected_output(src, bs, limit), bs, limit) == expected_output(src, bs, limit),
        src.len() <= bs * limit ==> expected_output(expected_output(src, bs, limit), bs, limit) == src,
{
}

/// With blocks of one byte, the first `limit` bytes arrive, one block each.
pub proof fn lemma_single_byte_blocks(src: Seq<u8>, limit: nat)
    ensures
        expected_output(src, 1, limit) == (if src.len() <= limit {
            src
        } else {
            src.subrange(0, limit as int)
        }),
        expected_blocks(src, 1, limit) == (if src.len() <= limit {
            src.len()
        } else {
            limit
        }),
{
}

/// With a limit of zero nothing arrives and no block counts.
pub proof fn lemma_zero_limit(src: Seq<u8>, bs: nat)
    requires
        bs > 0,
    ensures
        expected_output(src, bs, 0) == Seq::<u8>::empty(),
        expected_blocks(src, bs, 0) == 0,
{
    assert(src.subrange(0, 0) =~= Seq::<u8>::empty());
}

} // verus!
