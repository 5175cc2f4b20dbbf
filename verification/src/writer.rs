//! The transport: one socket, the direct send, and the sealed-file
//! fallback.

use crate::error::JournalError;
use crate::field::Field;
use crate::memfd::SealableFile;
use crate::socket::decide_send_outcome;
use crate::socket::socket_create;
use crate::socket::socket_send_fd_to;
use crate::socket::socket_send_to;
use crate::socket::SendDecision;
use crate::wire::encode_entries;
use crate::wire::entry_views;
use crate::wire::wire_size;
use vstd::prelude::*;
use vstd::string::StringExecFns;

verus! {

/// The daemon's fixed, well-known socket path.
pub const JOURNALD_PATH: &'static str = "/run/systemd/journal/socket";

/// The long-lived owner of one unbound outbound datagram socket.
///
/// Stateless with respect to encoding; may be shared across many logical
/// senders, each call owning its own encode buffer.  The socket is closed
/// only at process teardown.
pub struct JournalWriter {
    fd: i32,
    path: String,
}

impl JournalWriter {
    /// Opens a writer aimed at the daemon's fixed, well-known address.
    pub fn new() -> (r: Result<Self, JournalError>)
        ensures
            r is Err ==> r->Err_0 is Os,
    {
        Self::with_path(String::from_str(JOURNALD_PATH))
    }

    /// Opens a writer aimed at a daemon bound at `path` instead of the
    /// well-known address; the wire format is unchanged.  This is how a
    /// test stands up its own receiving socket.
    pub fn with_path(path: String) -> (r: Result<Self, JournalError>)
        ensures
            r is Err ==> r->Err_0 is Os,
    {
        match socket_create() {
            Ok(fd) => Ok(Self { fd, path }),
            Err(e) => Err(JournalError::Os(e)),
        }
    }

    /// Liveness probe: sends an entry with zero pairs, which is a valid
    /// entry and must transmit; succeeds exactly when the daemon accepted
    /// it, and fails with the connectivity error otherwise.
    pub fn check(&self) -> (r: Result<(), JournalError>) {
        self.send(&[])
    }

    /// Sends one entry: sizes and serializes the pairs in order, then
    /// attempts one atomic datagram to the daemon.  When that single
    /// attempt is refused for the datagram's size, the same encoded buffer
    /// goes through the sealed-file fallback; any other failure is returned
    /// to the caller unmodified, with no retry.
    ///
    /// The buffer handed to the socket is exactly
    /// [`wire_bytes`](crate::wire::wire_bytes) of the pairs — that is
    /// [`encode_entries`]' contract; which outcome comes back is the
    /// daemon's and the kernel's decision, so nothing more is promised
    /// here.
    pub fn send<'a>(&self, entries: &[(Field<'a>, &'a str)]) -> (r: Result<(), JournalError>)
        requires
            wire_size(entry_views(entries@)) <= usize::MAX,
    {
        let data = encode_entries(entries);
        let outcome = socket_send_to(self.fd, data.as_slice(), self.path.as_str());
        match decide_send_outcome(outcome) {
            SendDecision::Done => Ok(()),
            SendDecision::Fallback => self.send_by_memfd(data.as_slice()),
            SendDecision::Fail(e) => Err(JournalError::Os(e)),
        }
    }

    /// The oversized-message fallback: writes the encoded buffer — all of
    /// it, which the proof pins to the bytes the caller handed in — into a
    /// fresh memory file, seals it against every further change, and sends
    /// the daemon an empty datagram carrying the file's descriptor.  The
    /// local descriptor is released afterwards; success is reported only
    /// once the descriptor-carrying send has returned successfully.  Every
    /// failure is surfaced unmodified, with no retry.
    fn send_by_memfd(&self, data: &[u8]) -> (r: Result<(), JournalError>) {
        let mut file = match SealableFile::create() {
            Ok(f) => f,
            Err(e) => return Err(e),
        };
        match file.write_all(data) {
            Ok(()) => {},
            Err(e) => {
                file.close();
                return Err(e);
            },
        }
        proof {
            assert(file.contents() =~= data@);
        }
        let sealed = match file.seal() {
            Ok(s) => s,
            Err(e) => return Err(e),
        };
        assert(sealed.contents() == data@);
        let sent = socket_send_fd_to(self.fd, &sealed, self.path.as_str());
        sealed.close();
        match sent {
            Ok(_) => Ok(()),
            Err(e) => Err(JournalError::Os(e)),
        }
    }
}

} // verus!
