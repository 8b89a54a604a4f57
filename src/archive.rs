use vstd::prelude::*;
use crate::blocks::BlockReader;
use crate::engine::RawEntry;
use crate::entry::{name_result, Entry};
use crate::error::Error;
use crate::names::{NameDecoder, Utf8Names};

verus! {

/// The block size used until the caller sets one.
pub const DEFAULT_BLOCK_SIZE: usize = 65536;

/// What the decoding engine was opened on.
pub enum Source {
    /// A container whose members the engine produces in this order.
    Members(Vec<RawEntry>),
    /// A source that cannot be read, or whose format the engine does not know.
    Unrecognized,
}

/// The decoded names of `s`, in order, or the first failure among them.
pub open spec fn names_of<D: NameDecoder>(s: Seq<RawEntry>, d: D) -> Result<Seq<Seq<char>>, Error>
    decreases s.len(),
{
    if s.len() == 0 {
        Ok(Seq::empty())
    } else {
        match names_of(s.drop_last(), d) {
            Err(e) => Err(e),
            Ok(ts) => match name_result(s.last().name_bytes(), d) {
                Err(e) => Err(e),
                Ok(t) => Ok(ts.push(t)),
            },
        }
    }
}

/// Where a walk over `s` stops when it looks for the entry named `path`: the
/// index of the first entry with that name, the failure to decode a name met
/// before it, or `NotFound`.
pub open spec fn find_path<D: NameDecoder>(s: Seq<RawEntry>, d: D, path: Seq<char>) -> Result<
    int,
    Error,
>
    decreases s.len(),
{
    if s.len() == 0 {
        Err(Error::NotFound)
    } else {
        match find_path(s.drop_last(), d, path) {
            Ok(i) => Ok(i),
            Err(Error::NotFound) => match name_result(s.last().name_bytes(), d) {
                Err(e) => Err(e),
                Ok(t) => if t == path {
                    Ok(s.len() - 1)
                } else {
                    Err(Error::NotFound)
                },
            },
            Err(e) => Err(e),
        }
    }
}

/// A path that no entry is named, in an archive whose names all decode, is
/// not found.
pub proof fn lemma_absent_path_not_found<D: NameDecoder>(s: Seq<RawEntry>, d: D, path: Seq<char>)
    requires
        forall|i: int| 0 <= i < s.len() ==> name_result(#[trigger] s[i].name_bytes(), d) is Ok,
        forall|i: int|
            0 <= i < s.len() ==> name_result(#[trigger] s[i].name_bytes(), d) != Ok::<
                Seq<char>,
                Error,
            >(path),
    ensures
        find_path(s, d, path) == Err::<int, Error>(Error::NotFound),
    decreases s.len(),
{
    if s.len() > 0 {
        let p = s.drop_last();
        assert forall|i: int| 0 <= i < p.len() implies name_result(#[trigger] p[i].name_bytes(), d) is Ok
            && name_result(p[i].name_bytes(), d) != Ok::<Seq<char>, Error>(path) by {
            assert(p[i] == s[i]);
        }
        lemma_absent_path_not_found(p, d, path);
        assert(s.last() == s[s.len() - 1]);
    }
}

/// A failure among the first `k` names is the failure of the whole listing.
proof fn lemma_names_prefix_err<D: NameDecoder>(s: Seq<RawEntry>, d: D, k: int)
    requires
        0 <= k <= s.len(),
        names_of(s.take(k), d) is Err,
    ensures
        names_of(s, d) == names_of(s.take(k), d),
    decreases s.len(),
{
    if k == s.len() {
        assert(s.take(k) == s);
    } else {
        assert(s.drop_last().take(k) == s.take(k));
        lemma_names_prefix_err(s.drop_last(), d, k);
    }
}

/// One more entry extends the listing of a prefix by that entry's name.
proof fn lemma_names_step<D: NameDecoder>(s: Seq<RawEntry>, d: D, k: int)
    requires
        0 <= k < s.len(),
    ensures
        names_of(s.take(k + 1), d) == match names_of(s.take(k), d) {
            Err(e) => Err(e),
            Ok(ts) => match name_result(s[k].name_bytes(), d) {
                Err(e) => Err(e),
                Ok(t) => Ok(ts.push(t)),
            },
        },
{
    assert(s.take(k + 1).drop_last() == s.take(k));
    assert(s.take(k + 1).last() == s[k]);
}

/// A match or a failure within the first `k` entries ends the whole walk.
proof fn lemma_find_prefix<D: NameDecoder>(s: Seq<RawEntry>, d: D, path: Seq<char>, k: int)
    requires
        0 <= k <= s.len(),
        find_path(s.take(k), d, path) != Err::<int, Error>(Error::NotFound),
    ensures
        find_path(s, d, path) == find_path(s.take(k), d, path),
    decreases s.len(),
{
    if k == s.len() {
        assert(s.take(k) == s);
    } else {
        assert(s.drop_last().take(k) == s.take(k));
        lemma_find_prefix(s.drop_last(), d, path, k);
    }
}

/// One more entry extends the walk over a prefix.
proof fn lemma_find_step<D: NameDecoder>(s: Seq<RawEntry>, d: D, path: Seq<char>, k: int)
    requires
        0 <= k < s.len(),
    ensures
        find_path(s.take(k + 1), d, path) == match find_path(s.take(k), d, path) {
            Ok(i) => Ok(i),
            Err(Error::NotFound) => match name_result(s[k].name_bytes(), d) {
                Err(e) => Err(e),
                Ok(t) => if t == path {
                    Ok(k)
                } else {
                    Err(Error::NotFound)
                },
            },
            Err(e) => Err(e),
        },
{
    assert(s.take(k + 1).drop_last() == s.take(k));
    assert(s.take(k + 1).last() == s[k]);
}

/// A session over one opened container: a single cursor that walks the
/// members in the engine's order, each visited once.
pub struct Archive<D> {
    pending: Vec<RawEntry>,
    recognized: bool,
    block_size: usize,
    decoder: D,
}

impl Archive<Utf8Names> {
    /// Opens a session on `source` with names decoded as UTF-8.
    ///
    /// Opening never fails: a source the engine cannot use makes every later
    /// operation fail with `Open`.
    pub fn open(source: Source) -> (r: Archive<Utf8Names>)
        ensures
            r.wf(),
            r.block_limit() == DEFAULT_BLOCK_SIZE,
            match source {
                Source::Members(m) => r.recognized() && r.pending() == m@,
                Source::Unrecognized => !r.recognized(),
            },
    {
        Archive::open_with_decoder(source, Utf8Names)
    }
}

impl<D: NameDecoder> Archive<D> {
    pub closed spec fn wf(&self) -> bool {
        self.block_size > 0
    }

    /// The members the cursor has not reached yet, in order.
    pub closed spec fn pending(&self) -> Seq<RawEntry> {
        self.pending@
    }

    /// Whether the engine could open the source.
    pub closed spec fn recognized(&self) -> bool {
        self.recognized
    }

    /// The most bytes that one block read delivers.
    pub closed spec fn block_limit(&self) -> nat {
        self.block_size as nat
    }

    pub closed spec fn decoder(&self) -> D {
        self.decoder
    }

    /// Opens a session on `source` whose names `decoder` decodes.
    pub fn open_with_decoder(source: Source, decoder: D) -> (r: Archive<D>)
        ensures
            r.wf(),
            r.block_limit() == DEFAULT_BLOCK_SIZE,
            r.decoder() == decoder,
            match source {
                Source::Members(m) => r.recognized() && r.pending() == m@,
                Source::Unrecognized => !r.recognized(),
            },
    {
        match source {
            Source::Members(m) => Archive {
                pending: m,
                recognized: true,
                block_size: DEFAULT_BLOCK_SIZE,
                decoder,
            },
            Source::Unrecognized => Archive {
                pending: Vec::new(),
                recognized: false,
                block_size: DEFAULT_BLOCK_SIZE,
                decoder,
            },
        }
    }

    /// Sets the most bytes that one block read delivers; a size of zero is
    /// taken as one.
    pub fn block_size(self, n: usize) -> (r: Archive<D>)
        ensures
            r.wf(),
            r.block_limit() == if n == 0 { 1 } else { n },
            r.pending() == self.pending(),
            r.recognized() == self.recognized(),
            r.decoder() == self.decoder(),
    {
        let size = if n == 0 { 1 } else { n };
        Archive { block_size: size, ..self }
    }

    /// Moves the cursor to the next member and hands it out, or `None` at the
    /// end. Whatever was left unread of the previous member is discarded.
    pub fn next_entry(&mut self) -> (r: Result<Option<Entry<D>>, Error>)
        requires
            old(self).wf(),
        ensures
            final(self).wf(),
            final(self).recognized() == old(self).recognized(),
            final(self).block_limit() == old(self).block_limit(),
            final(self).decoder() == old(self).decoder(),
            !old(self).recognized() ==> r == Err::<Option<Entry<D>>, Error>(Error::Open)
                && final(self).pending() == old(self).pending(),
            old(self).recognized() && old(self).pending().len() == 0 ==> r is Ok && r->Ok_0 is None
                && final(self).pending() == old(self).pending(),
            old(self).recognized() && old(self).pending().len() > 0 ==> {
                let raw = old(self).pending()[0];
                &&& final(self).pending() == old(self).pending().drop_first()
                &&& r matches Ok(Some(e))
                &&& e.wf()
                &&& !e.is_read()
                &&& e.raw_name() == raw.name_bytes()
                &&& e.kind() == raw.kind
                &&& e.content() == raw.readable()
                &&& e.damaged() == raw.damaged()
                &&& e.decoder() == old(self).decoder()
                &&& e.block_size() == old(self).block_limit()
            },
    {
        if !self.recognized {
            return Err(Error::Open);
        }
        if self.pending.len() == 0 {
            return Ok(None);
        }
        let raw = self.pending.remove(0);
        Ok(Some(Entry::new(raw, self.block_size, self.decoder)))
    }

    /// The decoded names of all members not reached yet, in the engine's order.
    ///
    /// Stops at the first name that cannot be produced or decoded and returns
    /// that failure.
    pub fn list_file_names(&mut self) -> (r: Result<Vec<String>, Error>)
        requires
            old(self).wf(),
        ensures
            final(self).wf(),
            final(self).recognized() == old(self).recognized(),
            final(self).block_limit() == old(self).block_limit(),
            final(self).decoder() == old(self).decoder(),
            !old(self).recognized() ==> r == Err::<Vec<String>, Error>(Error::Open),
            old(self).recognized() ==> match names_of(old(self).pending(), old(self).decoder()) {
                Ok(ts) => r matches Ok(v) && v@.map_values(|n: String| n@) == ts
                    && final(self).pending().len() == 0,
                Err(e) => r == Err::<Vec<String>, Error>(e),
            },
    {
        if !self.recognized {
            return Err(Error::Open);
        }
        let ghost s0 = self.pending@;
        let ghost d = self.decoder;
        let ghost mut k: int = 0;
        let mut names: Vec<String> = Vec::new();
        assert(s0.take(0) == Seq::<RawEntry>::empty());
        assert(names@.map_values(|n: String| n@) == Seq::<Seq<char>>::empty());
        loop
            invariant
                self.wf(),
                self.recognized,
                old(self).recognized(),
                self.block_size == old(self).block_size,
                self.decoder == d,
                d == old(self).decoder(),
                s0 == old(self).pending(),
                0 <= k <= s0.len(),
                self.pending@ == s0.skip(k),
                names_of(s0.take(k), d) == Ok::<Seq<Seq<char>>, Error>(names@.map_values(|n: String| n@)),
            decreases self.pending@.len(),
        {
            let next = self.next_entry();
            match next {
                Err(e) => {
                    return Err(e);
                },
                Ok(None) => {
                    assert(s0.take(k) == s0);
                    return Ok(names);
                },
                Ok(Some(entry)) => {
                    proof {
                        lemma_names_step(s0, d, k);
                        assert(s0.skip(k)[0] == s0[k]);
                    }
                    match entry.file_name() {
                        Err(e) => {
                            proof {
                                lemma_names_prefix_err(s0, d, k + 1);
                            }
                            return Err(e);
                        },
                        Ok(n) => {
                            let ghost before = names@;
                            names.push(n);
                            proof {
                                assert(names@.map_values(|n: String| n@) =~= before.map_values(|n: String| n@).push(n@));
                                assert(s0.skip(k).drop_first() == s0.skip(k + 1));
                                k = k + 1;
                            }
                        },
                    }
                },
            }
        }
    }

    /// Walks the cursor to the first member named `path` and hands it out.
    fn seek(&mut self, path: &str) -> (r: Result<Entry<D>, Error>)
        requires
            old(self).wf(),
        ensures
            final(self).wf(),
            final(self).recognized() == old(self).recognized(),
            final(self).block_limit() == old(self).block_limit(),
            final(self).decoder() == old(self).decoder(),
            !old(self).recognized() ==> r == Err::<Entry<D>, Error>(Error::Open),
            old(self).recognized() ==> match find_path(old(self).pending(), old(self).decoder(), path@) {
                Err(e) => r == Err::<Entry<D>, Error>(e),
                Ok(i) => {
                    let raw = old(self).pending()[i];
                    &&& 0 <= i < old(self).pending().len()
                    &&& final(self).pending() == old(self).pending().skip(i + 1)
                    &&& r matches Ok(e)
                    &&& e.wf()
                    &&& !e.is_read()
                    &&& e.content() == raw.readable()
                    &&& e.damaged() == raw.damaged()
                    &&& e.block_size() == old(self).block_limit()
                },
            },
    {
        if !self.recognized {
            return Err(Error::Open);
        }
        let target = path.to_owned();
        let ghost s0 = self.pending@;
        let ghost d = self.decoder;
        let ghost mut k: int = 0;
        assert(s0.take(0) == Seq::<RawEntry>::empty());
        loop
            invariant
                self.wf(),
                self.recognized,
                old(self).recognized(),
                self.block_size == old(self).block_size,
                self.decoder == d,
                d == old(self).decoder(),
                s0 == old(self).pending(),
                target@ == path@,
                0 <= k <= s0.len(),
                self.pending@ == s0.skip(k),
                find_path(s0.take(k), d, path@) == Err::<int, Error>(Error::NotFound),
            decreases self.pending@.len(),
        {
            let next = self.next_entry();
            match next {
                Err(e) => {
                    return Err(e);
                },
                Ok(None) => {
                    assert(s0.take(k) == s0);
                    return Err(Error::NotFound);
                },
                Ok(Some(entry)) => {
                    proof {
                        lemma_find_step(s0, d, path@, k);
                        assert(s0.skip(k)[0] == s0[k]);
                        assert(s0.skip(k).drop_first() == s0.skip(k + 1));
                    }
                    match entry.file_name() {
                        Err(e) => {
                            proof {
                                lemma_find_prefix(s0, d, path@, k + 1);
                            }
                            return Err(e);
                        },
                        Ok(n) => {
                            if n == target {
                                proof {
                                    lemma_find_prefix(s0, d, path@, k + 1);
                                }
                                return Ok(entry);
                            }
                            proof {
                                k = k + 1;
                            }
                        },
                    }
                },
            }
        }
    }

    /// Writes the content of the first member named `path` to the end of
    /// `output` and returns how many bytes were written.
    ///
    /// Fails with `NotFound` when the walk reaches the end of the archive
    /// without meeting that name.
    pub fn read_file(&mut self, path: &str, output: &mut Vec<u8>) -> (r: Result<usize, Error>)
        requires
            old(self).wf(),
        ensures
            final(self).wf(),
            final(self).recognized() == old(self).recognized(),
            final(self).block_limit() == old(self).block_limit(),
            final(self).decoder() == old(self).decoder(),
            !old(self).recognized() ==> r == Err::<usize, Error>(Error::Open) && final(output)@
                == old(output)@,
            old(self).recognized() ==> match find_path(old(self).pending(), old(self).decoder(), path@) {
                Err(e) => r == Err::<usize, Error>(e) && final(output)@ == old(output)@,
                Ok(i) => match old(self).pending()[i].whole() {
                    Ok(c) => r matches Ok(n) && n == c.len() && final(output)@ == old(output)@ + c,
                    Err(e) => r == Err::<usize, Error>(e) && final(output)@ == old(output)@
                        + old(self).pending()[i].readable(),
                },
            },
    {
        match self.seek(path) {
            Err(e) => Err(e),
            Ok(mut entry) => entry.read_file(output),
        }
    }

    /// The content of the first member named `path`, as a sequence of blocks
    /// of at most the configured block size.
    ///
    /// Fails with `NotFound` when the walk reaches the end of the archive
    /// without meeting that name.
    pub fn read_file_by_block(&mut self, path: &str) -> (r: Result<BlockReader, Error>)
        requires
            old(self).wf(),
        ensures
            final(self).wf(),
            final(self).recognized() == old(self).recognized(),
            final(self).block_limit() == old(self).block_limit(),
            final(self).decoder() == old(self).decoder(),
            !old(self).recognized() ==> r == Err::<BlockReader, Error>(Error::Open),
            old(self).recognized() ==> match find_path(old(self).pending(), old(self).decoder(), path@) {
                Err(e) => r == Err::<BlockReader, Error>(e),
                Ok(i) => {
                    &&& r matches Ok(b)
                    &&& b.wf()
                    &&& !b.finished()
                    &&& b.remaining() == old(self).pending()[i].readable()
                    &&& b.damaged() == old(self).pending()[i].damaged()
                    &&& b.block_size() == old(self).block_limit()
                },
            },
    {
        match self.seek(path) {
            Err(e) => Err(e),
            Ok(mut entry) => Ok(entry.read_file_by_block()),
        }
    }
}

} // verus!
