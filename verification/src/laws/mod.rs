//! What holds of the library as a whole, beyond what each function states of
//! itself. Each law is a proof over the same definitions that the functions'
//! contracts use.

pub mod calls;
pub mod cli;
pub mod driver;
pub mod frame;
pub mod hex;
pub mod hexfile;
pub mod image;
pub mod noise;
pub mod numbers;
pub mod plan;
pub mod printed;
pub mod receiver;
pub mod session;
pub mod status;
pub mod steps;
pub mod timing;
pub mod wire;
pub mod words;
