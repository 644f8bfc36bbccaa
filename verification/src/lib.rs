//! A terminal for a graphical program: the state of a pty session, from the setup of
//! its master to the cells that a widget draws.
//!
//! [`lifecycle`] sets a session up and cleans up after a failure, [`session`] takes in
//! what the program prints, and [`fd_pty`] serves a master that was opened elsewhere.
//! [`emulator`] and [`decoder`] state what is relied on of the crates that emulate the
//! screen and split its input. [`meaning`] says what each operation does in terms of its
//! inputs and results; [`laws`], [`runs`] and [`turns`] state what holds of the whole.
pub mod buffer;
pub mod decoder;
pub mod emulator;
pub mod fd_pty;
pub mod laws;
pub mod lifecycle;
pub mod meaning;
pub mod pty;
pub mod reply;
pub mod runs;
pub mod session;
pub mod size;
pub mod stream;
pub mod turns;
