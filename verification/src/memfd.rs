//! The sealed memory file used by the oversized-message fallback.
//!
//! A [`SealableFile`] is an anonymous memory-backed file, invisible in any
//! filesystem namespace, created with the capability to accept seals.  The
//! fallback writes one buffer into it, seals it against every further
//! change, and passes its descriptor to the daemon.  The ghost `content`
//! field models the file's bytes: the file is created empty and only the
//! sequential writes below extend it, so the kernel's file offset always
//! sits at the end of the modeled bytes.

use crate::error::JournalError;
use vstd::prelude::*;

verus! {

/// How many interrupted writes in a row are retried before giving up.
pub const WRITE_RETRY_LIMIT: usize = 100;

/// Outcome of one raw write.
enum WriteOutcome {
    /// This many bytes were appended.
    Wrote(usize),
    /// The call was interrupted before writing anything; retry.
    Interrupted,
    /// The operating system refused; carries the error number.
    Failed(i32),
}

/// Relies on `nix::sys::memfd::memfd_create` with the allow-sealing flag:
/// on success the descriptor refers to a fresh, empty, anonymous
/// memory-backed file, tagged with a fixed diagnostic name (built here as
/// a C string), that will later accept seals.
#[verifier::external_body]
fn memfd_create_sealable() -> (r: Result<i32, i32>) {
    let name = match core::ffi::CStr::from_bytes_with_nul(b"journald\0") {
        Ok(n) => n,
        Err(_) => return Err(0),
    };
    let flags = nix::sys::memfd::MemFdCreateFlag::MFD_ALLOW_SEALING;
    match nix::sys::memfd::memfd_create(name, flags) {
        Ok(fd) => Ok(fd),
        Err(e) => Err(e as i32),
    }
}

/// Relies on `nix::unistd::write`: on success, the returned count of bytes
/// from `buf[off..]` were written at the file offset — here always the end
/// of the file, as the model notes above — and the offset advanced past
/// them; on failure nothing changed.  An interrupted call is told apart so
/// the caller may retry it.
#[verifier::external_body]
fn memfd_write(file: &mut SealableFile, buf: &[u8], off: usize) -> (r: WriteOutcome)
    requires
        off <= buf@.len(),
    ensures
        match r {
            WriteOutcome::Wrote(n) => {
                &&& off + n <= buf@.len()
                &&& final(file).content@ == old(file).content@ + buf@.subrange(
                    off as int,
                    off + n,
                )
                &&& final(file).fd == old(file).fd
            },
            _ => *final(file) == *old(file),
        },
{
    match nix::unistd::write(file.fd, &buf[off..]) {
        Ok(n) => WriteOutcome::Wrote(n),
        Err(nix::errno::Errno::EINTR) => WriteOutcome::Interrupted,
        Err(e) => WriteOutcome::Failed(e as i32),
    }
}

/// Relies on `nix::fcntl::fcntl` with `F_ADD_SEALS` and every seal flag: on
/// success no further write, growth, shrinkage or resealing of the file is
/// permitted, so a later reader can trust that nothing changes underneath
/// it.
#[verifier::external_body]
fn memfd_add_seals(fd: i32) -> (r: Result<(), i32>) {
    let arg = nix::fcntl::FcntlArg::F_ADD_SEALS(nix::fcntl::SealFlag::all());
    match nix::fcntl::fcntl(fd, arg) {
        Ok(_) => Ok(()),
        Err(e) => Err(e as i32),
    }
}

/// Relies on `nix::unistd::close`: releases the descriptor.  A close error
/// is ignored; the descriptor is gone either way.
#[verifier::external_body]
pub(crate) fn fd_close(fd: i32) {
    let _ = nix::unistd::close(fd);
}

/// A transient memory-backed file being filled, before it is sealed.
///
/// Single-use: created inside the fallback path, written once, then either
/// sealed into a [`SealedFile`] or closed.  Never shared between calls.
pub struct SealableFile {
    fd: i32,
    content: Ghost<Seq<u8>>,
}

impl SealableFile {
    /// The bytes written to the file so far.
    pub closed spec fn contents(&self) -> Seq<u8> {
        self.content@
    }

    /// Creates a fresh, empty memory file that can later accept seals.
    pub fn create() -> (r: Result<Self, JournalError>)
        ensures
            match r {
                Ok(f) => f.contents() == Seq::<u8>::empty(),
                Err(e) => e is Os,
            },
    {
        match memfd_create_sealable() {
            Ok(fd) => Ok(Self { fd, content: Ghost(Seq::empty()) }),
            Err(e) => Err(JournalError::Os(e)),
        }
    }

    /// Appends the whole buffer to the file, continuing after partial
    /// writes and retrying interrupted ones, up to [`WRITE_RETRY_LIMIT`]
    /// interruptions in a row.  Fails as stalled when a write returns
    /// without progress; any other failure carries the error number out
    /// unmodified.
    pub fn write_all(&mut self, data: &[u8]) -> (r: Result<(), JournalError>)
        ensures
            match r {
                Ok(()) => final(self).contents() == old(self).contents() + data@,
                Err(_) => true,
            },
    {
        let n = data.len();
        let mut written: usize = 0;
        let mut retries: usize = WRITE_RETRY_LIMIT;
        while written < n
            invariant
                0 <= written <= n,
                n == data@.len(),
                self.contents() == old(self).contents() + data@.subrange(0, written as int),
                self.fd == old(self).fd,
            decreases n - written, retries,
        {
            match memfd_write(self, data, written) {
                WriteOutcome::Wrote(k) => {
                    if k == 0 {
                        return Err(JournalError::WriteStalled);
                    }
                    proof {
                        assert(old(self).contents() + data@.subrange(0, written as int)
                            + data@.subrange(written as int, written + k) =~= old(self).contents()
                            + data@.subrange(0, written + k));
                    }
                    written += k;
                    retries = WRITE_RETRY_LIMIT;
                },
                WriteOutcome::Interrupted => {
                    if retries == 0 {
                        return Err(JournalError::WriteStalled);
                    }
                    retries -= 1;
                },
                WriteOutcome::Failed(e) => {
                    return Err(JournalError::Os(e));
                },
            }
        }
        proof {
            assert(data@.subrange(0, n as int) =~= data@);
        }
        Ok(())
    }

    /// Applies every seal, turning this handle into a [`SealedFile`] with
    /// the same contents.  On failure the descriptor is closed and the
    /// error number is carried out unmodified.
    pub fn seal(self) -> (r: Result<SealedFile, JournalError>)
        ensures
            match r {
                Ok(f) => f.contents() == self.contents(),
                Err(e) => e is Os,
            },
    {
        match memfd_add_seals(self.fd) {
            Ok(()) => Ok(SealedFile { fd: self.fd, content: self.content }),
            Err(e) => {
                fd_close(self.fd);
                Err(JournalError::Os(e))
            },
        }
    }

    /// Abandons the file without sealing it, releasing the descriptor.
    pub fn close(self) {
        fd_close(self.fd);
    }
}

/// A sealed, write-once memory file: its bytes can no longer change, which
/// is what lets the daemon read them asynchronously, possibly after the
/// sending process has exited.
pub struct SealedFile {
    fd: i32,
    content: Ghost<Seq<u8>>,
}

impl SealedFile {
    /// The bytes the file was sealed with.
    pub closed spec fn contents(&self) -> Seq<u8> {
        self.content@
    }

    /// The file's raw descriptor, for passing as ancillary data.
    pub fn as_raw_fd(&self) -> i32 {
        self.fd
    }

    /// Releases the local descriptor once ownership has passed on.
    pub fn close(self) {
        fd_close(self.fd);
    }
}

} // verus!
