use freya_terminal::fd_pty::{PtyFault, RawFdMasterPty};
use freya_terminal::size::{PtySize, Winsize};

const EMFILE: &str = "Os { code: 24, kind: Uncategorized, message: \"Too many open files\" }";

#[test]
fn resize_then_get_size_gives_the_size_back() {
    let adapter = RawFdMasterPty::from_owned_fd(7);
    let ws = adapter.resize_request(PtySize {
        rows: 40,
        cols: 120,
        pixel_width: 9,
        pixel_height: 5,
    });
    assert_eq!(
        ws,
        Winsize {
            ws_row: 40,
            ws_col: 120,
            ws_xpixel: 9,
            ws_ypixel: 5,
        }
    );
    assert!(adapter.resize(0).is_ok());
    let size = adapter.get_size(0, ws).expect("get_size");
    assert_eq!(size.rows, 40);
    assert_eq!(size.cols, 120);
    assert_eq!(size.pixel_width, 9);
    assert_eq!(size.pixel_height, 5);
}

#[test]
fn refused_size_requests_are_errors() {
    let adapter = RawFdMasterPty::from_owned_fd(7);
    let ws = Winsize {
        ws_row: 0,
        ws_col: 0,
        ws_xpixel: 0,
        ws_ypixel: 0,
    };
    assert_eq!(adapter.resize(-1), Err(PtyFault::SetSize));
    assert_eq!(adapter.resize(1), Err(PtyFault::SetSize));
    assert_eq!(adapter.get_size(-1, ws), Err(PtyFault::GetSize));
    assert_eq!(
        PtyFault::SetSize.message("E"),
        "ioctl(TIOCSWINSZ) failed: E"
    );
    assert_eq!(
        PtyFault::GetSize.message("E"),
        "ioctl(TIOCGWINSZ) failed: E"
    );
}

#[test]
fn try_clone_reader_and_take_writer() {
    let mut adapter = RawFdMasterPty::from_owned_fd(7);

    let _reader = adapter.try_clone_reader(8).expect("try_clone_reader");
    let _writer = adapter.take_writer(9).expect("take_writer");

    assert!(adapter.take_writer(10).is_err());
    assert_eq!(adapter.writer_available(), Err(PtyFault::WriterTaken));
    assert_eq!(
        PtyFault::WriterTaken.message(EMFILE),
        "cannot take writer more than once"
    );
}

#[test]
fn readers_can_be_cloned_again_and_again() {
    let adapter = RawFdMasterPty::from_owned_fd(7);
    assert_eq!(adapter.try_clone_reader(-1), Err(PtyFault::Dup));
    assert_eq!(adapter.try_clone_reader(0), Ok(0));
    assert_eq!(adapter.try_clone_reader(8), Ok(8));
    assert_eq!(adapter.try_clone_reader(9), Ok(9));
}

#[test]
fn take_writer_failed_dup_does_not_poison_flag() {
    let mut adapter = RawFdMasterPty::from_owned_fd(7);

    let first = adapter.take_writer(-1);
    assert!(first.is_err(), "forced dup failure must error");
    let err = first.err().unwrap().message(EMFILE);
    assert!(
        err.contains("dup()"),
        "expected dup failure message, got: {err}"
    );
    assert_eq!(err, format!("dup() failed: {EMFILE}"));

    // Flag must remain false so a subsequent real take_writer can still succeed.
    assert!(adapter.writer_available().is_ok());
    let writer = adapter.take_writer(9);
    assert!(
        writer.is_ok(),
        "take_writer after forced failure must not be poisoned: {err}",
        err = writer
            .as_ref()
            .err()
            .map(|e| e.message(EMFILE))
            .unwrap_or_default()
    );
    assert_eq!(writer, Ok(9));
    assert!(
        adapter.take_writer(10).is_err(),
        "second successful take must still be once-only"
    );
}

#[test]
fn process_group_leader_is_a_positive_number() {
    let adapter = RawFdMasterPty::from_owned_fd(7);
    assert_eq!(adapter.process_group_leader(4321), Some(4321));
    assert_eq!(adapter.process_group_leader(1), Some(1));
    assert_eq!(adapter.process_group_leader(0), None);
    assert_eq!(adapter.process_group_leader(-1), None);
}

#[test]
fn the_descriptor_is_kept_and_has_no_name() {
    let adapter = RawFdMasterPty::from_owned_fd(String::from("descriptor"));
    assert_eq!(adapter.as_raw_fd().map(|fd| fd.as_str()), Some("descriptor"));
    assert_eq!(adapter.tty_name(), None);
}

#[test]
fn a_pty_is_opened_with_the_usual_size() {
    assert_eq!(
        PtySize::default(),
        PtySize {
            rows: 24,
            cols: 80,
            pixel_width: 0,
            pixel_height: 0,
        }
    );
}
