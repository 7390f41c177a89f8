//! Kernel objects exposed to user processes as resources.
use vstd::prelude::*;

verus! {

/// Why a resource operation failed.
#[derive(Clone, Copy, Debug, PartialEq, Eq, Structural)]
pub enum ResourceError {
    /// No resource has the given id.
    ResourceNotFound,
    /// The resource does not support the operation.
    Unsupported,
    /// The input is not acceptable to the resource.
    InvalidInput,
}

/// A finite blob of data that can only be read (and sought in).
///
/// The kernel uses it to hand variable-length data back from a system call,
/// such as the list of devices.
pub struct BlobResource {
    data: Vec<u8>,
    seek_head: usize,
}

impl BlobResource {
    /// The blob's bytes.
    pub closed spec fn data(&self) -> Seq<u8> {
        self.data@
    }

    /// Where the next read starts.
    pub closed spec fn seek_head(&self) -> nat {
        self.seek_head as nat
    }

    /// Creates a blob over the given bytes, read from the start.
    pub fn new(data: Vec<u8>) -> (r: Self)
        ensures
            r.data() == data@,
            r.seek_head() == 0,
    {
        BlobResource { data, seek_head: 0 }
    }

    /// Copies as many bytes as fit into `buffer` from the seek head on, and
    /// moves the head past them. Returns how many bytes were copied.
    pub fn read(&mut self, buffer: &mut [u8]) -> (r: Result<i64, ResourceError>)
        requires
            old(self).seek_head() <= old(self).data().len(),
        ensures
            ({
                let head = old(self).seek_head() as int;
                let n = if old(buffer)@.len() < old(self).data().len() - head {
                    old(buffer)@.len() as int
                } else {
                    old(self).data().len() - head
                };
                &&& r == Ok::<i64, ResourceError>(n as i64)
                &&& final(buffer)@ == old(self).data().subrange(head, head + n) + old(buffer)@.subrange(
                    n,
                    old(buffer)@.len() as int,
                )
                &&& final(self).data() == old(self).data()
                &&& final(self).seek_head() == head + n
            }),
    {
        let head = self.seek_head;
        let readable = self.data.len() - head;
        let len = if buffer.len() < readable {
            buffer.len()
        } else {
            readable
        };
        let mut i: usize = 0;
        while i < len
            invariant
                i <= len,
                len <= buffer.len(),
                head + len <= self.data.len(),
                head == self.seek_head,
                buffer@.len() == old(buffer)@.len(),
                forall|k: int| 0 <= k < i ==> #[trigger] buffer@[k] == self.data@[head + k],
                forall|k: int| i <= k < buffer@.len() ==> #[trigger] buffer@[k] == old(buffer)@[k],
            decreases len - i,
        {
            buffer[i] = self.data[head + i];
            i = i + 1;
        }
        self.seek_head = head + len;
        proof {
            let n = len as int;
            assert(buffer@ =~= self.data@.subrange(head as int, head + n) + old(buffer)@.subrange(
                n,
                old(buffer)@.len() as int,
            ));
        }
        Ok(len as i64)
    }

    /// Moves the seek head to `offset`.
    pub fn seek(&mut self, offset: usize) -> (r: Result<i64, ResourceError>)
        ensures
            r == Ok::<i64, ResourceError>(0),
            final(self).data() == old(self).data(),
            final(self).seek_head() == offset,
    {
        self.seek_head = offset;
        Ok(0)
    }

    /// Blobs cannot be written.
    pub fn write(&mut self, buffer: &[u8]) -> (r: Result<i64, ResourceError>)
        ensures
            r == Err::<i64, ResourceError>(ResourceError::Unsupported),
            final(self).data() == old(self).data(),
            final(self).seek_head() == old(self).seek_head(),
    {
        Err(ResourceError::Unsupported)
    }
}

/// Whether the bytes are valid UTF-8, as `core::str::from_utf8` decides.
pub uninterp spec fn utf8_valid(bytes: Seq<u8>) -> bool;

/// Calls `core::str::from_utf8` and reports whether it accepted the bytes.
#[verifier::external_body]
fn is_utf8(bytes: &[u8]) -> (r: bool)
    ensures
        r == utf8_valid(bytes@),
{
    core::str::from_utf8(bytes).is_ok()
}

/// Lets a process write text to the kernel log.
pub struct LoggerResource;

impl LoggerResource {
    /// Checks a message written to the log: it must be UTF-8 text, and then
    /// all of it is taken (the kernel prints it).
    pub fn write(&mut self, buffer: &[u8]) -> (r: Result<i64, ResourceError>)
        requires
            buffer@.len() <= i64::MAX,
        ensures
            r == if utf8_valid(buffer@) {
                Ok::<i64, ResourceError>(buffer@.len() as i64)
            } else {
                Err(ResourceError::InvalidInput)
            },
    {
        if !is_utf8(buffer) {
            return Err(ResourceError::InvalidInput);
        }
        Ok(buffer.len() as i64)
    }

    /// The log cannot be sought in.
    pub fn seek(&mut self, offset: usize) -> (r: Result<i64, ResourceError>)
        ensures
            r == Err::<i64, ResourceError>(ResourceError::Unsupported),
    {
        Err(ResourceError::Unsupported)
    }

    /// The log cannot be read.
    pub fn read(&mut self, buffer: &mut [u8]) -> (r: Result<i64, ResourceError>)
        ensures
            r == Err::<i64, ResourceError>(ResourceError::Unsupported),
            final(buffer)@ == old(buffer)@,
    {
        Err(ResourceError::Unsupported)
    }
}

} // verus!
