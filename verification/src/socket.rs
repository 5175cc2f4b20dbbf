//! Datagram socket calls, each behind a trusted wrapper.
//!
//! Whether a send succeeds depends on the daemon and the kernel, so these
//! wrappers promise nothing about their outcome; they only classify it.
//! The one condition the transport must tell apart — the datagram refused
//! for its size — is reported as its own case.

use crate::memfd::SealedFile;
use vstd::prelude::*;

verus! {

/// Outcome of one direct datagram send attempt.
pub(crate) enum SendOutcome {
    /// The daemon accepted the datagram.
    Sent,
    /// The datagram exceeds the transport's maximum message size.
    TooLarge,
    /// Any other failure; carries the error number.
    Failed(i32),
}

/// What the transport does with a direct-send outcome.
pub(crate) enum SendDecision {
    /// The entry is delivered; nothing more to do.
    Done,
    /// Hand the same encoded buffer to the sealed-file fallback.
    Fallback,
    /// Surface this error number to the caller, unmodified.
    Fail(i32),
}

/// The transport's rule for the outcome of the one direct attempt: success
/// stands, exactly the oversized-message condition diverts to the fallback,
/// and every other failure propagates unchanged, with no retry.
pub(crate) fn decide_send_outcome(outcome: SendOutcome) -> (r: SendDecision)
    ensures
        match outcome {
            SendOutcome::Sent => r is Done,
            SendOutcome::TooLarge => r is Fallback,
            SendOutcome::Failed(e) => r == SendDecision::Fail(e),
        },
{
    match outcome {
        SendOutcome::Sent => SendDecision::Done,
        SendOutcome::TooLarge => SendDecision::Fallback,
        SendOutcome::Failed(e) => SendDecision::Fail(e),
    }
}

/// Relies on `nix::sys::socket::socket`: creates an unbound Unix-domain
/// datagram socket and returns its descriptor.
#[verifier::external_body]
pub(crate) fn socket_create() -> (r: Result<i32, i32>) {
    let r = nix::sys::socket::socket(
        nix::sys::socket::AddressFamily::Unix,
        nix::sys::socket::SockType::Datagram,
        nix::sys::socket::SockFlag::empty(),
        None,
    );
    match r {
        Ok(fd) => Ok(fd),
        Err(e) => Err(e as i32),
    }
}

/// Relies on `nix::sys::socket::sendto`: attempts one atomic datagram
/// carrying the whole buffer to the Unix socket bound at `path` (the path
/// is converted to an address with `nix::sys::socket::UnixAddr::new`).
/// The oversized-message refusal is told apart from every other failure.
#[verifier::external_body]
pub(crate) fn socket_send_to(fd: i32, data: &[u8], path: &str) -> (r: SendOutcome) {
    let addr = match nix::sys::socket::UnixAddr::new(path) {
        Ok(a) => a,
        Err(e) => return SendOutcome::Failed(e as i32),
    };
    match nix::sys::socket::sendto(fd, data, &addr, nix::sys::socket::MsgFlags::empty()) {
        Ok(_) => SendOutcome::Sent,
        Err(nix::errno::Errno::EMSGSIZE) => SendOutcome::TooLarge,
        Err(e) => SendOutcome::Failed(e as i32),
    }
}

/// Relies on `nix::sys::socket::sendmsg`: sends one empty-payload datagram
/// to the Unix socket bound at `path` (the path converted with
/// `nix::sys::socket::UnixAddr::new`) whose ancillary data carries exactly
/// the sealed file's descriptor, transferring effective ownership of the
/// file to the receiver.
#[verifier::external_body]
pub(crate) fn socket_send_fd_to(fd: i32, file: &SealedFile, path: &str) -> (r: Result<
    usize,
    i32,
>) {
    let fds = [file.as_raw_fd()];
    let ancillary = [nix::sys::socket::ControlMessage::ScmRights(&fds)];
    let addr = match nix::sys::socket::UnixAddr::new(path) {
        Ok(a) => a,
        Err(e) => return Err(e as i32),
    };
    let flags = nix::sys::socket::MsgFlags::empty();
    match nix::sys::socket::sendmsg(fd, &[], &ancillary, flags, Some(&addr)) {
        Ok(n) => Ok(n),
        Err(e) => Err(e as i32),
    }
}

} // verus!
