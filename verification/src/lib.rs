//! Host side of the STC serial bootloader (BSL) protocol, STC89 family.
//!
//! A session is planned up front, as data, from the image and from what the
//! chip said of itself; running it is a loop with no protocol knowledge. No
//! module reads a clock, a file or a port: the [`driver`] says what to do to
//! the wire and is told what came of it.
//!
//! * [`frame`]: frames, and the receiver that finds them in a noisy stream;
//! * [`ihex`]: Intel HEX images;
//! * [`protocol`]: what a protocol family says, and the STC89's;
//! * [`session`]: a planned session being executed;
//! * [`driver`]: the handshake and the run of a session, as decisions;
//! * [`cli`], [`probe`]: what the command-line tools mean and print;
//! * [`laws`]: what holds of all of it.

pub mod cli;
pub mod driver;
pub mod frame;
pub mod ihex;
pub mod laws;
pub mod probe;
pub mod protocol;
pub mod session;
pub mod text;

pub use driver::Error;
pub use frame::{Frame, Receiver};
pub use protocol::stc89::Stc89;
pub use protocol::{Job, ProtocolFamily, SessionOptions, TargetInfo};
pub use session::{Action, Session, Step};
