//! Server-side vocabulary: identifiers, commands, client messages and the
//! results that the durable log and the lease manager hand back.

pub mod external;
pub mod lease;
pub mod statemach;
pub mod storage;

pub use external::{
    batch_view, clone_batch, ApiReply, ApiReplyView, ApiRequest, ApiRequestView, ReplyCache,
    ReqBatch, RequestId,
};
pub use lease::{LeaseAction, LeaseActionView, LeaseMsg, LeaseNum};
pub use statemach::{Command, CommandResult, CommandResultView, CommandView};
pub use storage::LogResult;

use vstd::prelude::*;

verus! {

/// Server replica ID type.
pub type ReplicaId = u8;

/// Command ID type: names a command that was handed to the state machine.
pub type CommandId = u64;

/// Log action ID type: names an action that was handed to the durable log.
pub type LogActionId = u64;

} // verus!
