use vstd::prelude::*;
use crate::error::Error;

verus! {

/// The first block of `c` when blocks hold at most `b` bytes.
pub open spec fn first_block_len(c: Seq<u8>, b: nat) -> nat {
    if c.len() < b { c.len() } else { b }
}

/// The blocks in which `c` is delivered when each holds at most `b` bytes:
/// every block but the last is full, and none is empty.
pub open spec fn blocks_of(c: Seq<u8>, b: nat) -> Seq<Seq<u8>>
    decreases c.len(),
{
    if c.len() == 0 || b == 0 {
        Seq::empty()
    } else {
        let n = first_block_len(c, b) as int;
        seq![c.take(n)] + blocks_of(c.skip(n), b)
    }
}

/// The bytes of a sequence of blocks, joined in order.
pub open spec fn concat_blocks(s: Seq<Seq<u8>>) -> Seq<u8>
    decreases s.len(),
{
    if s.len() == 0 {
        Seq::empty()
    } else {
        s[0] + concat_blocks(s.drop_first())
    }
}

/// Joining the blocks of a content gives the content back, for any positive
/// block size.
pub proof fn lemma_blocks_concat(c: Seq<u8>, b: nat)
    requires
        b > 0,
    ensures
        concat_blocks(blocks_of(c, b)) == c,
    decreases c.len(),
{
    if c.len() > 0 {
        let n = first_block_len(c, b) as int;
        let s = blocks_of(c, b);
        lemma_blocks_concat(c.skip(n), b);
        assert(s.drop_first() == blocks_of(c.skip(n), b));
        assert(c.take(n) + c.skip(n) == c);
    }
}

/// A content longer than the block size is delivered in more than one block.
pub proof fn lemma_blocks_split(c: Seq<u8>, b: nat)
    requires
        b > 0,
        c.len() > b,
    ensures
        blocks_of(c, b).len() > 1,
{
    let n = first_block_len(c, b) as int;
    assert(c.skip(n).len() > 0);
    assert(blocks_of(c.skip(n), b).len() > 0);
}

/// Successive content blocks of one entry.
///
/// Each call of `next` pulls at most `block_size` bytes. After the content is
/// used up the reader reports the end once, or the engine's failure for a
/// damaged entry, and then reports the end on every later call.
pub struct BlockReader {
    data: Vec<u8>,
    offset: usize,
    limit: usize,
    damaged: bool,
    block_size: usize,
    finished: bool,
}

impl BlockReader {
    pub closed spec fn wf(&self) -> bool {
        &&& self.offset <= self.limit <= self.data@.len()
        &&& self.block_size > 0
    }

    /// The bytes that later blocks will deliver.
    pub closed spec fn remaining(&self) -> Seq<u8> {
        self.data@.subrange(self.offset as int, self.limit as int)
    }

    /// Whether the engine reports a failure once the remaining bytes are used up.
    pub closed spec fn damaged(&self) -> bool {
        self.damaged
    }

    /// Whether the reader has reported its end.
    pub closed spec fn finished(&self) -> bool {
        self.finished
    }

    pub closed spec fn block_size(&self) -> nat {
        self.block_size as nat
    }

    /// A reader that delivers the first `limit` bytes of `data`.
    pub(crate) fn new(data: Vec<u8>, limit: usize, damaged: bool, block_size: usize) -> (r: BlockReader)
        requires
            limit <= data@.len(),
            block_size > 0,
        ensures
            r.wf(),
            r.remaining() == data@.take(limit as int),
            r.damaged() == damaged,
            !r.finished(),
            r.block_size() == block_size,
    {
        let r = BlockReader { data, offset: 0, limit, damaged, block_size, finished: false };
        assert(r.remaining() =~= r.data@.take(limit as int));
        r
    }

    /// A reader that has already ended and delivers nothing.
    pub fn empty() -> (r: BlockReader)
        ensures
            r.wf(),
            r.finished(),
            r.remaining().len() == 0,
            !r.damaged(),
    {
        BlockReader { data: Vec::new(), offset: 0, limit: 0, damaged: false, block_size: 1, finished: true }
    }

    /// The next block of content, the engine's failure, or `None` at the end.
    pub fn next(&mut self) -> (r: Option<Result<Vec<u8>, Error>>)
        requires
            old(self).wf(),
        ensures
            final(self).wf(),
            final(self).block_size() == old(self).block_size(),
            final(self).damaged() == old(self).damaged(),
            old(self).finished() ==> r is None && final(self).finished()
                && final(self).remaining() == old(self).remaining(),
            !old(self).finished() && old(self).remaining().len() == 0 ==> {
                &&& final(self).finished()
                &&& final(self).remaining() == old(self).remaining()
                &&& r == if old(self).damaged() { Some(Err::<Vec<u8>, Error>(Error::Engine)) } else { None }
            },
            !old(self).finished() && old(self).remaining().len() > 0 ==> {
                let n = first_block_len(old(self).remaining(), old(self).block_size()) as int;
                &&& !final(self).finished()
                &&& r matches Some(Ok(b))
                &&& b@ == old(self).remaining().take(n)
                &&& final(self).remaining() == old(self).remaining().skip(n)
                &&& blocks_of(old(self).remaining(), old(self).block_size())
                    == seq![b@] + blocks_of(final(self).remaining(), old(self).block_size())
            },
    {
        if self.finished {
            return None;
        }
        if self.offset == self.limit {
            self.finished = true;
            if self.damaged {
                return Some(Err(Error::Engine));
            } else {
                return None;
            }
        }
        let ghost rem = self.remaining();
        let avail = self.limit - self.offset;
        let n = if avail < self.block_size { avail } else { self.block_size };
        let mut block: Vec<u8> = Vec::with_capacity(n);
        let mut i: usize = 0;
        while i < n
            invariant
                self.wf(),
                self.remaining() == rem,
                n <= self.limit - self.offset,
                i <= n,
                block@ == rem.take(i as int),
            decreases n - i,
        {
            block.push(self.data[self.offset + i]);
            i = i + 1;
            assert(block@ =~= rem.take(i as int));
        }
        self.offset = self.offset + n;
        assert(self.remaining() =~= rem.skip(n as int));
        Some(Ok(block))
    }
}

} // verus!
