use journaled::error::JournalError;
use journaled::field::Field;
use journaled::wire::encode_entries;
use journaled::writer::JournalWriter;
use nix::sys::socket::bind;
use nix::sys::socket::recvfrom;
use nix::sys::socket::recvmsg;
use nix::sys::socket::socket;
use nix::sys::socket::AddressFamily;
use nix::sys::socket::ControlMessageOwned;
use nix::sys::socket::MsgFlags;
use nix::sys::socket::SockFlag;
use nix::sys::socket::SockType;
use nix::sys::socket::UnixAddr;

fn make_receiver(path: &str) -> i32 {
    let _ = nix::unistd::unlink(path);
    let fd = socket(
        AddressFamily::Unix,
        SockType::Datagram,
        SockFlag::empty(),
        None,
    )
    .expect("receiver socket");
    let addr = UnixAddr::new(path).expect("receiver address");
    bind(fd, &addr).expect("receiver bind");
    fd
}

#[test]
fn write_test_write() {
    let path = "/tmp/journaled_write_test.sock";
    let _receiver = make_receiver(path);

    let journal = JournalWriter::with_path(String::from(path)).expect("new failed");
    journal.check().expect("check failed");

    journal
        .send(&[(journaled::known::message(), "Hello World")])
        .expect("send failed");
}

#[test]
fn test_check_against_reachable_daemon() {
    let path = "/tmp/journaled_check_ok.sock";
    let receiver = make_receiver(path);

    let journal = JournalWriter::with_path(String::from(path)).expect("writer");
    journal.check().expect("check against a reachable daemon");

    // The probe arrives as one empty datagram.
    let mut buf = [0u8; 64];
    let (got, _) = recvfrom::<UnixAddr>(receiver, &mut buf).expect("receive probe");
    assert_eq!(got, 0);
}

#[test]
fn test_check_fails_when_daemon_absent() {
    let path = "/tmp/journaled_check_absent.sock";
    let _ = nix::unistd::unlink(path);

    let journal = JournalWriter::with_path(String::from(path)).expect("writer");
    let err = journal.check().expect_err("no daemon is listening");
    // A connectivity error from the OS, not a naming error.
    match err {
        JournalError::Os(e) => {
            assert_eq!(e, nix::errno::Errno::ENOENT as i32);
        }
        JournalError::WriteStalled => panic!("expected a connectivity error"),
    }
}

#[test]
fn test_send_direct_delivers_exact_bytes() {
    let path = "/tmp/journaled_direct.sock";
    let receiver = make_receiver(path);

    let journal = JournalWriter::with_path(String::from(path)).expect("writer");
    let other = Field::validate("X_2").unwrap();
    let entries = [
        (journaled::known::message(), "a\nb"),
        (other, "value"),
        (journaled::known::message(), "a\nb"),
    ];
    journal.send(&entries).expect("direct send");

    let expected = encode_entries(&entries);
    let mut buf = [0u8; 4096];
    let (got, _) = recvfrom::<UnixAddr>(receiver, &mut buf).expect("receive datagram");
    assert_eq!(&buf[..got], expected.as_slice());
}

fn read_all(fd: i32) -> Vec<u8> {
    nix::unistd::lseek(fd, 0, nix::unistd::Whence::SeekSet).expect("rewind");
    let mut out = Vec::new();
    let mut buf = [0u8; 65536];
    loop {
        let n = nix::unistd::read(fd, &mut buf).expect("read sealed file");
        if n == 0 {
            return out;
        }
        out.extend_from_slice(&buf[..n]);
    }
}

#[test]
fn test_send_oversized_falls_back_to_sealed_file() {
    let path = "/tmp/journaled_fallback.sock";
    let receiver = make_receiver(path);

    let journal = JournalWriter::with_path(String::from(path)).expect("writer");
    let big = "x".repeat(400_000);
    let entries = [(journaled::known::message(), big.as_str())];
    journal.send(&entries).expect("oversized send must fall back");

    // The fallback arrives as an empty datagram carrying one descriptor.
    let mut buf = [0u8; 64];
    let mut iov = [std::io::IoSliceMut::new(&mut buf)];
    let mut cmsg_buf: Vec<u8> = Vec::with_capacity(128);
    let msg = recvmsg::<UnixAddr>(
        receiver,
        &mut iov,
        Some(&mut cmsg_buf),
        MsgFlags::empty(),
    )
    .expect("receive descriptor message");
    assert_eq!(msg.bytes, 0);
    let mut passed_fd = None;
    for cmsg in msg.cmsgs() {
        if let ControlMessageOwned::ScmRights(fds) = cmsg {
            assert_eq!(fds.len(), 1);
            passed_fd = Some(fds[0]);
        }
    }
    let fd = passed_fd.expect("exactly one descriptor expected");

    // The file is sealed against every change.
    let seals = nix::fcntl::fcntl(fd, nix::fcntl::FcntlArg::F_GET_SEALS).expect("seals");
    let seals = nix::fcntl::SealFlag::from_bits_truncate(seals);
    assert!(seals.contains(nix::fcntl::SealFlag::all()));

    // Its contents are byte-identical to the direct wire image.
    let content = read_all(fd);
    let expected = encode_entries(&entries);
    assert_eq!(content.len(), expected.len());
    assert_eq!(content, expected);
    let _ = nix::unistd::close(fd);
}
