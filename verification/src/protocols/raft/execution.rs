//! Raft -- command execution.

use crate::client::ClientId;
use crate::protocols::raft::{RaftReplica, RaftView};
use crate::server::{
    ApiReply, ApiReplyView, ApiRequest, ApiRequestView, CommandId, CommandResult,
    CommandResultView,
};
use crate::utils::error::SummersetError;
use vstd::prelude::*;

verus! {

impl RaftView {
    /// Whether the log holds the command that `cmd_idx` names in the entry
    /// at `slot`, or `slot` lies before the log.
    pub open spec fn knows_cmd(self, slot: usize, cmd_idx: usize) -> bool {
        slot >= self.start_slot ==> {
            &&& slot - self.start_slot < self.log.len()
            &&& cmd_idx < self.log[slot - self.start_slot].reqs.len()
        }
    }

    /// The client that sent the command which `cmd_idx` names in the entry
    /// at `slot`, if the log still holds that slot.
    pub open spec fn cmd_client(self, slot: usize, cmd_idx: usize) -> Option<ClientId> {
        if slot < self.start_slot {
            None
        } else {
            Some(self.log[slot - self.start_slot].reqs[cmd_idx as int].0)
        }
    }

    /// The state after the state machine has executed a command, and the
    /// reply that goes to a client.
    ///
    /// A result for a slot before the log is ignored. A log entry that
    /// holds anything but a command is an error. The client gets the result
    /// if the entry is external and the client is connected here. The
    /// result of the last command of an entry moves `last_exec` to the
    /// entry's slot.
    pub open spec fn step_cmd_result(
        self,
        slot: usize,
        cmd_idx: usize,
        cmd_result: CommandResultView,
        has_client: bool,
    ) -> (RaftView, Result<Option<(ApiReplyView, ClientId)>, SummersetError>) {
        if slot < self.start_slot {
            (self, Ok(None))
        } else {
            let entry = self.log[slot - self.start_slot];
            match entry.reqs[cmd_idx as int].1 {
                ApiRequestView::Req { id, .. } => (
                    if cmd_idx == entry.reqs.len() - 1 {
                        RaftView { last_exec: slot, ..self }
                    } else {
                        self
                    },
                    Ok(
                        if entry.external && has_client {
                            Some(
                                (
                                    ApiReplyView::Reply {
                                        id,
                                        result: Some(cmd_result),
                                        redirect: None,
                                    },
                                    entry.reqs[cmd_idx as int].0,
                                ),
                            )
                        } else {
                            None
                        },
                    ),
                ),
                _ => (self, Err(SummersetError::UnexpectedRequestType)),
            }
        }
    }
}

/// The reply of a handler as a mathematical value.
pub open spec fn reply_view(
    r: Result<Option<(ApiReply, ClientId)>, SummersetError>,
) -> Result<Option<(ApiReplyView, ClientId)>, SummersetError> {
    match r {
        Ok(Some((reply, client))) => Ok(Some((reply@, client))),
        Ok(None) => Ok(None),
        Err(e) => Err(e),
    }
}

/// Executing the same command of the same slot a second time is as good as
/// executing it once: the replica stays as it is after the first time, and
/// the same reply comes out.
pub proof fn lemma_cmd_result_idempotent(
    state: RaftView,
    slot: usize,
    cmd_idx: usize,
    cmd_result: CommandResultView,
    has_client: bool,
)
    ensures
        ({
            let once = state.step_cmd_result(slot, cmd_idx, cmd_result, has_client);
            let twice = once.0.step_cmd_result(slot, cmd_idx, cmd_result, has_client);
            twice == once
        }),
{
}

/// The slot of the entry that holds the command of an ID: the upper 32 bits
/// of the ID.
pub open spec fn command_slot(command_id: CommandId) -> usize {
    (command_id / 0x1_0000_0000) as usize
}

/// The index within its entry of the command of an ID: the lower 32 bits of
/// the ID.
pub open spec fn command_index(command_id: CommandId) -> usize {
    (command_id % 0x1_0000_0000) as usize
}

impl RaftReplica {
    /// Decompose CommandId into slot index & command index within.
    pub fn split_command_id(command_id: CommandId) -> (r: (usize, usize))
        ensures
            r.0 == command_slot(command_id),
            r.1 == command_index(command_id),
    {
        assert(command_id >> 32 == command_id / 0x1_0000_0000) by (bit_vector);
        assert(command_id & 0xffff_ffff == command_id % 0x1_0000_0000) by (bit_vector);
        let slot: usize = (command_id >> 32) as usize;
        let cmd_idx: usize = (command_id & 0xffff_ffff) as usize;
        (slot, cmd_idx)
    }

    /// Whether the log holds the command that `cmd_idx` names in the entry
    /// at `slot`, or `slot` lies before the log. Code that is not verified
    /// checks this before it hands in the result of a command.
    pub fn knows_cmd(&self, slot: usize, cmd_idx: usize) -> (known: bool)
        ensures
            known == self@.knows_cmd(slot, cmd_idx),
    {
        slot < self.start_slot || (slot - self.start_slot < self.log.len() && cmd_idx
            < self.log[slot - self.start_slot].reqs.len())
    }

    /// The client that sent the command which `cmd_idx` names in the entry
    /// at `slot`, if the log still holds that slot. The driver asks the
    /// client API whether this client is connected before it hands in the
    /// command's result.
    pub fn cmd_client(&self, slot: usize, cmd_idx: usize) -> (client: Option<ClientId>)
        requires
            self@.knows_cmd(slot, cmd_idx),
        ensures
            client == self@.cmd_client(slot, cmd_idx),
    {
        if slot < self.start_slot {
            None
        } else {
            Some(self.log[slot - self.start_slot].reqs[cmd_idx].0)
        }
    }

    /// Handler of state machine exec result chan recv.
    ///
    /// The command is named by the slot of its log entry and its index in
    /// the entry's batch; `has_client` says whether the client that sent it
    /// is connected to this replica. Returns the reply to send, if any.
    ///
    /// Results that come in slot order, for committed entries only, keep
    /// the watermarks in order and never move one back.
    pub fn handle_cmd_result(
        &mut self,
        slot: usize,
        cmd_idx: usize,
        cmd_result: CommandResult,
        has_client: bool,
    ) -> (r: Result<Option<(ApiReply, ClientId)>, SummersetError>)
        requires
            old(self)@.knows_cmd(slot, cmd_idx),
        ensures
            (final(self)@, reply_view(r)) == old(self)@.step_cmd_result(
                slot,
                cmd_idx,
                cmd_result@,
                has_client,
            ),
            old(self)@.inv() && old(self).last_exec <= slot <= old(self).last_commit
                ==> final(self)@.inv() && old(self)@.not_after(final(self)@),
    {
        if slot < self.start_slot {
            return Ok(None);  // ignore if slot index outdated
        }
        let entry = &self.log[slot - self.start_slot];
        let client = entry.reqs[cmd_idx].0;

        // reply command result back to client
        let reply = if let ApiRequest::Req { id, .. } = &entry.reqs[cmd_idx].1 {
            if entry.external && has_client {
                Some((ApiReply::normal(*id, Some(cmd_result)), client))
            } else {
                None
            }
        } else {
            return Err(SummersetError::UnexpectedRequestType);
        };

        // if all commands in this entry have been executed, update last_exec
        if cmd_idx == entry.reqs.len() - 1 {
            self.last_exec = slot;
        }
        Ok(reply)
    }
}

} // verus!
