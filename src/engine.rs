use vstd::prelude::*;

verus! {

/// What kind of member a header describes.
#[derive(Clone, Copy, PartialEq, Eq, Debug, Structural)]
pub enum EntryKind {
    File,
    Directory,
    Other,
}

/// One member as the decoding engine produces it: its header and the bytes
/// of its content stream.
///
/// `name` is `None` when the engine cannot produce a name for the member.
/// `fault`, when present, is the offset at which the engine stops delivering
/// content and reports a failure instead. A directory never delivers content.
pub struct RawEntry {
    pub name: Option<Vec<u8>>,
    pub kind: EntryKind,
    pub data: Vec<u8>,
    pub fault: Option<usize>,
}

impl RawEntry {
    /// The raw name bytes, if the engine has a name.
    pub open spec fn name_bytes(&self) -> Option<Seq<u8>> {
        match self.name {
            Some(n) => Some(n@),
            None => None,
        }
    }

    /// How many bytes of content the engine delivers for this member.
    pub open spec fn limit(&self) -> nat {
        if self.kind == EntryKind::Directory {
            0
        } else {
            match self.fault {
                Some(f) => if f < self.data@.len() { f as nat } else { self.data@.len() },
                None => self.data@.len(),
            }
        }
    }

    /// The content bytes the engine delivers, in order.
    pub open spec fn readable(&self) -> Seq<u8> {
        self.data@.take(self.limit() as int)
    }

    /// Whether the engine reports a failure once the readable bytes are used up.
    pub open spec fn damaged(&self) -> bool {
        self.kind != EntryKind::Directory && self.fault is Some
    }

    /// The result of reading the whole content of this member.
    pub open spec fn whole(&self) -> Result<Seq<u8>, crate::error::Error> {
        if self.damaged() {
            Err(crate::error::Error::Engine)
        } else {
            Ok(self.readable())
        }
    }

    /// A regular file with the given name and content.
    pub fn file(name: Vec<u8>, data: Vec<u8>) -> (r: RawEntry)
        ensures
            r.name == Some(name),
            r.kind == EntryKind::File,
            r.data == data,
            r.fault is None,
    {
        RawEntry { name: Some(name), kind: EntryKind::File, data, fault: None }
    }

    /// A directory with the given name.
    pub fn directory(name: Vec<u8>) -> (r: RawEntry)
        ensures
            r.name == Some(name),
            r.kind == EntryKind::Directory,
            r.data@.len() == 0,
            r.fault is None,
    {
        RawEntry { name: Some(name), kind: EntryKind::Directory, data: Vec::new(), fault: None }
    }

    /// The length of the content that the engine delivers.
    pub(crate) fn limit_exec(&self) -> (r: usize)
        ensures
            r == self.limit(),
    {
        if self.kind == EntryKind::Directory {
            0
        } else {
            match self.fault {
                Some(f) => if f < self.data.len() { f } else { self.data.len() },
                None => self.data.len(),
            }
        }
    }
}

/// Reading a directory yields no bytes, and no failure.
pub proof fn lemma_directory_reads_empty(e: RawEntry)
    requires
        e.kind == EntryKind::Directory,
    ensures
        e.whole() == Ok::<Seq<u8>, crate::error::Error>(Seq::empty()),
{
    assert(e.readable() =~= Seq::<u8>::empty());
}

/// Reading an empty file that the engine delivers without failure succeeds
/// with no bytes.
pub proof fn lemma_empty_file_reads_nothing(e: RawEntry)
    requires
        e.data@.len() == 0,
        e.fault is None,
    ensures
        e.whole() == Ok::<Seq<u8>, crate::error::Error>(Seq::empty()),
{
    assert(e.readable() =~= Seq::<u8>::empty());
}

} // verus!
