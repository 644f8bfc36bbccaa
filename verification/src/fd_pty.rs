//! A pty master that was opened elsewhere, for example by a daemon, and handed over
//! as a descriptor. The calls into the kernel are made by the event loop; what they
//! are given, and what is made of their results, is decided here.
use vstd::prelude::*;
use vstd::string::*;

use crate::size::{size_of, winsize_of, PtySize, Winsize};

verus! {

/// Why a request to a pty master failed.
#[derive(Clone, Copy, Debug, PartialEq, Eq, Structural)]
pub enum PtyFault {
    /// The kernel refused the new window size.
    SetSize,
    /// The kernel did not tell the window size.
    GetSize,
    /// The descriptor could not be duplicated.
    Dup,
    /// The writer was taken before.
    WriterTaken,
}

/// The text of a fault, given that of the error that the kernel left.
pub open spec fn fault_text(fault: PtyFault, os_error: Seq<char>) -> Seq<char> {
    match fault {
        PtyFault::SetSize => "ioctl(TIOCSWINSZ) failed: "@ + os_error,
        PtyFault::GetSize => "ioctl(TIOCGWINSZ) failed: "@ + os_error,
        PtyFault::Dup => "dup() failed: "@ + os_error,
        PtyFault::WriterTaken => "cannot take writer more than once"@,
    }
}

impl PtyFault {
    /// The text of this fault. What the kernel says of its own error is `os_error`.
    pub fn message(&self, os_error: &str) -> (text: String)
        ensures
            text@ == fault_text(*self, os_error@),
            self is SetSize ==> text@ == "ioctl(TIOCSWINSZ) failed: "@ + os_error@,
            self is GetSize ==> text@ == "ioctl(TIOCGWINSZ) failed: "@ + os_error@,
            self is Dup ==> text@ == "dup() failed: "@ + os_error@,
            self is WriterTaken ==> text@ == "cannot take writer more than once"@,
    {
        match self {
            PtyFault::SetSize => "ioctl(TIOCSWINSZ) failed: ".to_owned().concat(os_error),
            PtyFault::GetSize => "ioctl(TIOCGWINSZ) failed: ".to_owned().concat(os_error),
            PtyFault::Dup => "dup() failed: ".to_owned().concat(os_error),
            PtyFault::WriterTaken => "cannot take writer more than once".to_owned(),
        }
    }
}

/// The handle that a duplicated descriptor makes, `duped` being what the kernel
/// answered: a negative number is a refusal.
pub open spec fn dup_result(duped: i32) -> Result<i32, PtyFault> {
    if duped < 0 {
        Err(PtyFault::Dup)
    } else {
        Ok(duped)
    }
}

/// What an attempt to take the writer gives, and whether the writer is taken
/// afterwards. A refused duplication leaves it to be taken later.
pub open spec fn writer_attempt(taken: bool, duped: i32) -> (bool, Result<i32, PtyFault>) {
    if taken {
        (true, Err(PtyFault::WriterTaken))
    } else {
        (dup_result(duped) is Ok, dup_result(duped))
    }
}

/// What a run of attempts to take the writer gives, one result for each answer of
/// the kernel in `dups`.
pub open spec fn writer_attempts(taken: bool, dups: Seq<i32>) -> Seq<Result<i32, PtyFault>>
    decreases dups.len(),
{
    if dups.len() == 0 {
        Seq::empty()
    } else {
        let (taken_then, outcome) = writer_attempt(taken, dups[0]);
        seq![outcome] + writer_attempts(taken_then, dups.skip(1))
    }
}

/// A pty master backed by a descriptor of type `F` that it owns.
///
/// Constructing one consumes the descriptor, so the caller can neither use nor
/// close it afterwards. It is closed when this struct is dropped.
pub struct RawFdMasterPty<F> {
    fd: F,
    took_writer: bool,
}

impl<F> RawFdMasterPty<F> {
    /// The descriptor.
    pub closed spec fn descriptor(&self) -> F {
        self.fd
    }

    /// Whether the writer has been taken.
    pub closed spec fn writer_taken(&self) -> bool {
        self.took_writer
    }

    /// Wrap an existing pty master descriptor, taking ownership of it.
    pub fn from_owned_fd(fd: F) -> (master: RawFdMasterPty<F>)
        ensures
            master.descriptor() == fd,
            !master.writer_taken(),
    {
        RawFdMasterPty { fd, took_writer: false }
    }

    /// The record that asks the kernel for `size`.
    pub fn resize_request(&self, size: PtySize) -> (ws: Winsize)
        ensures
            ws == winsize_of(size),
            ws.ws_row == size.rows,
            ws.ws_col == size.cols,
            ws.ws_xpixel == size.pixel_width,
            ws.ws_ypixel == size.pixel_height,
    {
        Winsize {
            ws_row: size.rows,
            ws_col: size.cols,
            ws_xpixel: size.pixel_width,
            ws_ypixel: size.pixel_height,
        }
    }

    /// The outcome of a resize, `status` being what the kernel answered.
    pub fn resize(&self, status: i32) -> (outcome: Result<(), PtyFault>)
        ensures
            outcome == if status != 0 {
                Err::<(), PtyFault>(PtyFault::SetSize)
            } else {
                Ok(())
            },
    {
        if status != 0 {
            return Err(PtyFault::SetSize);
        }
        Ok(())
    }

    /// The size that the kernel told, `status` being what it answered and `ws` the
    /// record that it filled.
    pub fn get_size(&self, status: i32, ws: Winsize) -> (outcome: Result<PtySize, PtyFault>)
        ensures
            outcome == if status != 0 {
                Err::<PtySize, PtyFault>(PtyFault::GetSize)
            } else {
                Ok(size_of(ws))
            },
            outcome matches Ok(size) ==> {
                &&& size.rows == ws.ws_row
                &&& size.cols == ws.ws_col
                &&& size.pixel_width == ws.ws_xpixel
                &&& size.pixel_height == ws.ws_ypixel
            },
    {
        if status != 0 {
            return Err(PtyFault::GetSize);
        }
        Ok(
            PtySize {
                rows: ws.ws_row,
                cols: ws.ws_col,
                pixel_width: ws.ws_xpixel,
                pixel_height: ws.ws_ypixel,
            },
        )
    }

    /// The descriptor to read from, `duped` being what duplicating the master's
    /// descriptor gave. There may be any number of readers.
    pub fn try_clone_reader(&self, duped: i32) -> (outcome: Result<i32, PtyFault>)
        ensures
            duped >= 0 ==> outcome == Ok::<i32, PtyFault>(duped),
            duped < 0 ==> outcome == Err::<i32, PtyFault>(PtyFault::Dup),
            outcome == dup_result(duped),
    {
        if duped < 0 {
            return Err(PtyFault::Dup);
        }
        Ok(duped)
    }

    /// Whether there is a writer to take. Ask before duplicating the descriptor.
    pub fn writer_available(&self) -> (outcome: Result<(), PtyFault>)
        ensures
            outcome == if self.writer_taken() {
                Err::<(), PtyFault>(PtyFault::WriterTaken)
            } else {
                Ok(())
            },
    {
        if self.took_writer {
            return Err(PtyFault::WriterTaken);
        }
        Ok(())
    }

    /// The descriptor to write to, `duped` being what duplicating the master's
    /// descriptor gave. The writer can be taken once; a duplication that failed
    /// does not count.
    pub fn take_writer(&mut self, duped: i32) -> (outcome: Result<i32, PtyFault>)
        ensures
            (final(self).writer_taken(), outcome) == writer_attempt(
                old(self).writer_taken(),
                duped,
            ),
            final(self).descriptor() == old(self).descriptor(),
            old(self).writer_taken() ==> outcome == Err::<i32, PtyFault>(PtyFault::WriterTaken),
            !old(self).writer_taken() && duped < 0 ==> outcome == Err::<i32, PtyFault>(
                PtyFault::Dup,
            ),
            !old(self).writer_taken() && duped >= 0 ==> outcome == Ok::<i32, PtyFault>(duped),
            final(self).writer_taken() == (old(self).writer_taken() || duped >= 0),
    {
        if self.took_writer {
            return Err(PtyFault::WriterTaken);
        }
        // Flip the flag only after a successful duplication, so that one that fails
        // for want of descriptors can be tried again.
        if duped < 0 {
            return Err(PtyFault::Dup);
        }
        self.took_writer = true;
        Ok(duped)
    }

    /// The leader of the foreground process group, `pid` being what the kernel
    /// answered: no process has a number below one.
    pub fn process_group_leader(&self, pid: i32) -> (leader: Option<i32>)
        ensures
            leader == if pid > 0 {
                Some(pid)
            } else {
                None
            },
    {
        if pid > 0 {
            Some(pid)
        } else {
            None
        }
    }

    /// The descriptor. It stays owned by the master.
    pub fn as_raw_fd(&self) -> (fd: Option<&F>)
        ensures
            fd == Some(&self.descriptor()),
    {
        Some(&self.fd)
    }

    /// The name of the terminal device, which a bare descriptor does not tell.
    pub fn tty_name(&self) -> (name: Option<String>)
        ensures
            name is None,
    {
        None
    }
}

} // verus!
