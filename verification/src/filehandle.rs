//! The positioned file handle: one shared byte store with two independent
//! cursors, one for sequential appends and one for random-offset reads. A
//! read never perturbs the position used by the next write and vice versa,
//! so a writer can append continuously while readers interleave at
//! arbitrary offsets.
use crate::bytes::push_bytes;
use vstd::prelude::*;

verus! {

/// The read cursor: the absolute position of the next read.
pub struct BufReaderWithPos {
    pub pos: u64,
}

/// The write cursor: the absolute position of the next append.
pub struct BufWriterWithPos {
    pub pos: u64,
}

/// What a read returns: the stored bytes from `pos` on, at most `len` of
/// them, and fewer only where the store ends first.
pub open spec fn read_bytes(data: Seq<u8>, pos: int, len: int) -> Seq<u8> {
    if pos < 0 || len < 0 || pos >= data.len() {
        Seq::empty()
    } else if pos + len > data.len() {
        data.subrange(pos, data.len() as int)
    } else {
        data.subrange(pos, pos + len)
    }
}

/// One open file: a byte store shared by a read cursor and a write cursor.
pub struct FileHandle {
    pub data: Vec<u8>,
    pub rhandle: BufReaderWithPos,
    pub whandle: BufWriterWithPos,
}

impl FileHandle {
    /// The write cursor sits at the end of the store, so every write is an
    /// append.
    pub open spec fn wf(self) -> bool {
        self.whandle.pos == self.data@.len()
    }

    /// An empty store with both cursors at the start.
    pub fn new() -> (r: FileHandle)
        ensures
            r.wf(),
            r.data@ == Seq::<u8>::empty(),
            r.rhandle.pos == 0,
            r.whandle.pos == 0,
    {
        FileHandle {
            data: Vec::new(),
            rhandle: BufReaderWithPos { pos: 0 },
            whandle: BufWriterWithPos { pos: 0 },
        }
    }

    /// Appends `data` at the write cursor and returns the count written.
    /// The read cursor is untouched.
    pub fn write(&mut self, data: &[u8]) -> (r: usize)
        requires
            old(self).wf(),
            old(self).data@.len() + data@.len() <= usize::MAX,
        ensures
            final(self).wf(),
            r == data@.len(),
            final(self).data@ == old(self).data@ + data@,
            final(self).rhandle == old(self).rhandle,
            final(self).whandle.pos == old(self).whandle.pos + data@.len(),
    {
        push_bytes(&mut self.data, data);
        let n: usize = data.len();
        self.whandle.pos = self.whandle.pos + n as u64;
        n
    }

    /// Repositions the read cursor to the absolute offset `pos`, reads up
    /// to `len` bytes from there, and advances the read cursor by the count
    /// read. The write cursor and the stored bytes are untouched.
    pub fn read(&mut self, pos: u64, len: usize) -> (r: Vec<u8>)
        ensures
            final(self).data == old(self).data,
            final(self).whandle == old(self).whandle,
            r@ == read_bytes(old(self).data@, pos as int, len as int),
            final(self).rhandle.pos == pos + r@.len(),
    {
        let mut out: Vec<u8> = Vec::new();
        let dlen: usize = self.data.len();
        if pos < dlen as u64 {
            let start: usize = pos as usize;
            let end: usize = if len <= dlen - start {
                start + len
            } else {
                dlen
            };
            let mut i: usize = start;
            while i < end
                invariant
                    start <= i <= end <= self.data@.len(),
                    out@ == self.data@.subrange(start as int, i as int),
                decreases end - i,
            {
                out.push(self.data[i]);
                i = i + 1;
                proof {
                    assert(out@ =~= self.data@.subrange(start as int, i as int));
                }
            }
            proof {
                assert(out@ =~= read_bytes(self.data@, pos as int, len as int));
            }
        }
        self.rhandle.pos = pos + out.len() as u64;
        out
    }

    /// The byte offset at which the next append will land.
    pub fn whandle_pos(&self) -> (r: u64)
        ensures
            r == self.whandle.pos,
    {
        self.whandle.pos
    }

    /// The byte offset just past the last read.
    pub fn rhandle_pos(&self) -> (r: u64)
        ensures
            r == self.rhandle.pos,
    {
        self.rhandle.pos
    }
}

} // verus!
