//! Core of a multi-protocol state-machine replication toolkit: the data
//! structures and per-replica decision logic shared by the leader-based
//! protocols, with every function's behaviour stated as a contract.

pub mod client;
pub mod protocols;
pub mod server;
pub mod utils;

pub use protocols::SmrProtocol;
pub use utils::{Bitmap, BitmapIter, SummersetError};
