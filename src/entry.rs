use vstd::prelude::*;
use crate::blocks::BlockReader;
use crate::engine::{EntryKind, RawEntry};
use crate::error::Error;
use crate::names::NameDecoder;

verus! {

/// What decoding a raw entry name gives: the engine may have no name at all,
/// and the decoder may fail on the bytes it has.
pub open spec fn name_result<D: NameDecoder>(name: Option<Seq<u8>>, decoder: D) -> Result<
    Seq<char>,
    Error,
> {
    match name {
        None => Err(Error::InvalidData),
        Some(raw) => match decoder.decoded(raw) {
            None => Err(Error::Encoding),
            Some(text) => Ok(text),
        },
    }
}

/// A directory entry, read whole, yields no bytes and no failure.
pub proof fn lemma_entry_directory_reads_empty<D: NameDecoder>(e: &Entry<D>)
    requires
        e.kind() == EntryKind::Directory,
    ensures
        e.whole_content() == Ok::<Seq<u8>, Error>(Seq::empty()),
{
    assert(e.content() =~= Seq::<u8>::empty());
}

/// One file or directory of an archive, taken from the cursor of the engine.
///
/// Its content can be read once: the first call of `read_file` or
/// `read_file_by_block` claims it, and every later read delivers nothing.
pub struct Entry<D> {
    raw: RawEntry,
    block_size: usize,
    already_read: bool,
    decoder: D,
}

impl<D: NameDecoder> Entry<D> {
    pub closed spec fn wf(&self) -> bool {
        self.block_size > 0
    }

    /// The raw name bytes of the header, if the engine has a name.
    pub closed spec fn raw_name(&self) -> Option<Seq<u8>> {
        match self.raw.name {
            Some(n) => Some(n@),
            None => None,
        }
    }

    pub closed spec fn kind(&self) -> EntryKind {
        self.raw.kind
    }

    pub closed spec fn decoder(&self) -> D {
        self.decoder
    }

    pub closed spec fn block_size(&self) -> nat {
        self.block_size as nat
    }

    /// Whether the content has been claimed by a read.
    pub closed spec fn is_read(&self) -> bool {
        self.already_read
    }

    /// The content bytes the engine delivers for this entry while it is unread.
    pub closed spec fn content(&self) -> Seq<u8> {
        self.raw.readable()
    }

    /// Whether the engine fails after delivering `content`.
    pub closed spec fn damaged(&self) -> bool {
        self.raw.damaged()
    }

    /// What `file_name` returns.
    pub open spec fn name(&self) -> Result<Seq<char>, Error> {
        name_result(self.raw_name(), self.decoder())
    }

    /// What reading the whole content gives while the entry is unread.
    pub open spec fn whole_content(&self) -> Result<Seq<u8>, Error> {
        if self.damaged() {
            Err(Error::Engine)
        } else {
            Ok(self.content())
        }
    }

    pub(crate) fn new(raw: RawEntry, block_size: usize, decoder: D) -> (r: Entry<D>)
        requires
            block_size > 0,
        ensures
            r.wf(),
            !r.is_read(),
            r.raw_name() == raw.name_bytes(),
            r.kind() == raw.kind,
            r.content() == raw.readable(),
            r.damaged() == raw.damaged(),
            r.decoder() == decoder,
            r.block_size() == block_size,
    {
        Entry { raw, block_size, already_read: false, decoder }
    }

    /// The name of the entry, decoded with the archive's name decoder.
    ///
    /// Fails with `InvalidData` when the engine has no name for the entry and
    /// with `Encoding` when the decoder rejects the name bytes.
    pub fn file_name(&self) -> (r: Result<String, Error>)
        ensures
            match r {
                Ok(s) => self.name() == Ok::<Seq<char>, Error>(s@),
                Err(e) => self.name() == Err::<Seq<char>, Error>(e),
            },
    {
        match &self.raw.name {
            None => Err(Error::InvalidData),
            Some(raw) => match self.decoder.decode(raw.as_slice()) {
                Some(text) => Ok(text),
                None => Err(Error::Encoding),
            },
        }
    }

    /// The content of the entry as a sequence of blocks of at most the
    /// configured block size.
    ///
    /// The first call claims the content; once it is claimed, the reader that
    /// comes back is empty.
    pub fn read_file_by_block(&mut self) -> (r: BlockReader)
        requires
            old(self).wf(),
        ensures
            final(self).wf(),
            final(self).is_read(),
            final(self).raw_name() == old(self).raw_name(),
            final(self).kind() == old(self).kind(),
            final(self).decoder() == old(self).decoder(),
            final(self).block_size() == old(self).block_size(),
            r.wf(),
            old(self).is_read() ==> r.finished() && r.remaining().len() == 0 && !r.damaged()
                && *final(self) == *old(self),
            !old(self).is_read() ==> {
                &&& !r.finished()
                &&& r.remaining() == old(self).content()
                &&& r.damaged() == old(self).damaged()
                &&& r.block_size() == old(self).block_size()
            },
    {
        if self.already_read {
            BlockReader::empty()
        } else {
            self.already_read = true;
            let limit = self.raw.limit_exec();
            let damaged = self.raw.kind != EntryKind::Directory && self.raw.fault.is_some();
            let mut data: Vec<u8> = Vec::new();
            std::mem::swap(&mut data, &mut self.raw.data);
            BlockReader::new(data, limit, damaged, self.block_size)
        }
    }

    /// Writes the whole content of the entry to the end of `output` and
    /// returns how many bytes were written.
    ///
    /// Once the content is claimed, this writes nothing and returns `Ok(0)`.
    /// When the engine fails, the bytes delivered before the failure have been
    /// written and the failure is returned.
    pub fn read_file(&mut self, output: &mut Vec<u8>) -> (r: Result<usize, Error>)
        requires
            old(self).wf(),
        ensures
            final(self).wf(),
            final(self).is_read(),
            final(self).raw_name() == old(self).raw_name(),
            final(self).kind() == old(self).kind(),
            final(self).decoder() == old(self).decoder(),
            final(self).block_size() == old(self).block_size(),
            old(self).is_read() ==> r == Ok::<usize, Error>(0) && final(output)@ == old(output)@
                && *final(self) == *old(self),
            !old(self).is_read() ==> match old(self).whole_content() {
                Ok(c) => r matches Ok(n) && n == c.len() && final(output)@ == old(output)@ + c,
                Err(e) => r == Err::<usize, Error>(e) && final(output)@ == old(output)@
                    + old(self).content(),
            },
    {
        if self.already_read {
            return Ok(0);
        }
        let ghost c = self.content();
        let ghost out0 = output@;
        let data_len = self.raw.data.len();
        assert(c.len() <= data_len);
        let mut blocks = self.read_file_by_block();

        let mut written: usize = 0;
        loop
            invariant
                !old(self).is_read(),
                c == old(self).content(),
                out0 == old(output)@,
                self.wf(),
                self.is_read(),
                self.raw_name() == old(self).raw_name(),
                self.kind() == old(self).kind(),
                self.decoder() == old(self).decoder(),
                self.block_size() == old(self).block_size(),
                blocks.wf(),
                !blocks.finished(),
                c.len() <= data_len,
                blocks.damaged() == old(self).damaged(),
                written <= c.len(),
                blocks.remaining() == c.skip(written as int),
                output@ == out0 + c.take(written as int),
            decreases blocks.remaining().len(),
        {
            match blocks.next() {
                None => {
                    assert(c.take(written as int) =~= c);
                    return Ok(written);
                },
                Some(Err(e)) => {
                    assert(c.take(written as int) =~= c);
                    return Err(e);
                },
                Some(Ok(mut block)) => {
                    let ghost n = block@.len();
                    written = written + block.len();
                    output.append(&mut block);
                    assert(c.take(written as int) =~= c.take(written - n) + c.skip(written - n).take(n as int));
                    assert(c.skip(written - n).skip(n as int) =~= c.skip(written as int));
                },
            }
        }
    }
}

} // verus!
