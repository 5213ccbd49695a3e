use vstd::prelude::*;

use crate::error::ZipError;

verus! {

/// How many bytes a read at `offset` into a buffer of `buflen` bytes yields
/// from a source of `len` bytes: the full buffer, shortened only at the end
/// of the source.
pub open spec fn read_len(len: int, offset: int, buflen: int) -> int {
    if offset >= len {
        0
    } else if len - offset < buflen {
        len - offset
    } else {
        buflen
    }
}

/// The `len` bytes of `c` starting at `off`, zero-filled where the range
/// runs past the end of `c`. This is what a fresh zeroed buffer holds after
/// a positioned read.
pub open spec fn padded_read(c: Seq<u8>, off: int, len: int) -> Seq<u8> {
    Seq::new(len as nat, |j: int| if 0 <= off + j < c.len() { c[off + j] } else { 0u8 })
}

/// A random-access byte source: a stable size, and positioned reads that
/// never move an implicit position. The archive parser works against this
/// capability alone, so it serves a local file, a remote archive fetched by
/// ranged requests, or an in-memory buffer alike.
pub trait ReadAt: Sized {
    /// The full byte contents of the source. `size` and `read_at` are
    /// promised against this one sequence, which is why a source must not
    /// change for the lifetime of the handle. An implementation outside
    /// the library that does not override this is modelled as empty, and
    /// nothing is proved about what it returns.
    open spec fn contents(&self) -> Seq<u8> {
        Seq::empty()
    }

    /// Fill the front of `buf` with the bytes of the source starting at
    /// `offset` and report how many landed. The count falls short of the
    /// buffer's length only where the source ends; bytes past the count are
    /// left as they were.
    fn read_at(&self, offset: u64, buf: &mut Vec<u8>) -> (r: Result<usize, ZipError>)
        ensures
            final(buf)@.len() == old(buf)@.len(),
            r matches Ok(n) ==> {
                &&& n == read_len(self.contents().len() as int, offset as int, old(buf)@.len() as int)
                &&& forall|j: int| 0 <= j < n ==> final(buf)@[j] == self.contents()[offset + j]
                &&& forall|j: int| n <= j < old(buf)@.len() ==> final(buf)@[j] == old(buf)@[j]
            },
            r matches Err(e) ==> e.spec_is_io(),
    ;

    /// The total byte length of the source.
    fn size(&self) -> (n: u64)
        ensures
            n == self.contents().len(),
    ;
}

/// A source held entirely in memory. Reads never fail.
pub struct MemoryReader {
    data: Vec<u8>,
}

impl MemoryReader {
    /// Wrap a byte buffer as a random-access source.
    pub fn new(data: Vec<u8>) -> (r: MemoryReader)
        ensures
            r.contents() == data@,
    {
        MemoryReader { data }
    }
}

impl ReadAt for MemoryReader {
    closed spec fn contents(&self) -> Seq<u8> {
        self.data@
    }

    fn read_at(&self, offset: u64, buf: &mut Vec<u8>) -> (r: Result<usize, ZipError>) {
        let len: usize = self.data.len();
        if offset >= len as u64 {
            return Ok(0);
        }
        let start: usize = offset as usize;
        let avail: usize = len - start;
        let n: usize = if avail < buf.len() {
            avail
        } else {
            buf.len()
        };
        let mut j: usize = 0;
        while j < n
            invariant
                j <= n,
                n <= buf@.len(),
                start + n <= self.data@.len(),
                self.data@.len() <= usize::MAX,
                buf@.len() == old(buf)@.len(),
                forall|k: int| 0 <= k < j ==> buf@[k] == self.data@[start + k],
                forall|k: int| j <= k < buf@.len() ==> buf@[k] == old(buf)@[k],
            decreases n - j,
        {
            buf[j] = self.data[start + j];
            j = j + 1;
        }
        Ok(n)
    }

    fn size(&self) -> (n: u64) {
        self.data.len() as u64
    }
}

/// Read `len` bytes at `offset` into a fresh zeroed buffer. On success the
/// buffer holds exactly the padded read of the source's contents.
pub fn read_padded<R: ReadAt>(reader: &R, offset: u64, len: usize) -> (r: Result<Vec<u8>, ZipError>)
    ensures
        r matches Ok(v) ==> v@ == padded_read(reader.contents(), offset as int, len as int),
        r matches Err(e) ==> e.spec_is_io(),
{
    let mut buf: Vec<u8> = vec![0u8; len];
    match reader.read_at(offset, &mut buf) {
        Ok(n) => {
            proof {
                assert(buf@ =~= padded_read(reader.contents(), offset as int, len as int));
            }
            Ok(buf)
        },
        Err(e) => Err(e),
    }
}

} // verus!
