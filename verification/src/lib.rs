//! Decision core of a cancellable, non-blocking accept loop.
//!
//! A listening socket in non-blocking mode is polled by a driver thread,
//! and any other thread may cancel it by forcibly closing the underlying
//! descriptor; the driver then observes a recognizable "descriptor closed"
//! error and exits cleanly. This crate holds the part of that design that
//! is pure decision-making: how each poll result is classified, how a whole
//! run of the dispatch loop behaves over the sequence of poll results, and
//! how the listener's lifecycle constrains what the platform can report.
//! The socket calls themselves live with the unverified embedding that
//! drives the loop.

pub mod dispatch;
pub mod event;
pub mod lifecycle;
