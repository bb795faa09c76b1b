//! The collection of replication protocols.

pub mod craft;
pub mod multipaxos;
pub mod raft;

pub use craft::{CRaftReplica, ReplicaConfigCRaft};
pub use multipaxos::{MultiPaxosReplica, ReplicaConfigMultiPaxos};
pub use raft::RaftReplica;

use crate::utils::text::same_text;
use vstd::prelude::*;

verus! {

/// Enum of supported replication protocol types.
#[derive(Debug, PartialEq, Eq, Clone, Copy, Structural)]
pub enum SmrProtocol {
    RepNothing,
    SimplePush,
    ChainRep,
    MultiPaxos,
    Raft,
    RSPaxos,
    CRaft,
}

impl SmrProtocol {
    /// The protocol that a name on the command line stands for, if any.
    pub open spec fn spec_parse_name(name: Seq<char>) -> Option<SmrProtocol> {
        if name == "RepNothing"@ {
            Some(SmrProtocol::RepNothing)
        } else if name == "SimplePush"@ {
            Some(SmrProtocol::SimplePush)
        } else if name == "ChainRep"@ {
            Some(SmrProtocol::ChainRep)
        } else if name == "MultiPaxos"@ {
            Some(SmrProtocol::MultiPaxos)
        } else if name == "Raft"@ {
            Some(SmrProtocol::Raft)
        } else if name == "RSPaxos"@ {
            Some(SmrProtocol::RSPaxos)
        } else if name == "CRaft"@ {
            Some(SmrProtocol::CRaft)
        } else {
            None
        }
    }

    /// The name of the protocol, as it is written on the command line.
    pub open spec fn spec_name(self) -> Seq<char> {
        match self {
            SmrProtocol::RepNothing => "RepNothing"@,
            SmrProtocol::SimplePush => "SimplePush"@,
            SmrProtocol::ChainRep => "ChainRep"@,
            SmrProtocol::MultiPaxos => "MultiPaxos"@,
            SmrProtocol::Raft => "Raft"@,
            SmrProtocol::RSPaxos => "RSPaxos"@,
            SmrProtocol::CRaft => "CRaft"@,
        }
    }

    /// The name of the protocol, as it is written on the command line.
    pub fn name(&self) -> (name: &'static str)
        ensures
            name@ == self.spec_name(),
    {
        match self {
            SmrProtocol::RepNothing => "RepNothing",
            SmrProtocol::SimplePush => "SimplePush",
            SmrProtocol::ChainRep => "ChainRep",
            SmrProtocol::MultiPaxos => "MultiPaxos",
            SmrProtocol::Raft => "Raft",
            SmrProtocol::RSPaxos => "RSPaxos",
            SmrProtocol::CRaft => "CRaft",
        }
    }

    /// The name of the protocol as an owned text.
    pub fn to_string(&self) -> (name: String)
        ensures
            name@ == self.spec_name(),
    {
        self.name().to_owned()
    }

    /// Parsing the name of a protocol gives the protocol back.
    pub proof fn lemma_parse_name_of_name(self)
        ensures
            Self::spec_parse_name(self.spec_name()) == Some(self),
    {
        reveal_strlit("RepNothing");
        reveal_strlit("SimplePush");
        reveal_strlit("ChainRep");
        reveal_strlit("MultiPaxos");
        reveal_strlit("Raft");
        reveal_strlit("RSPaxos");
        reveal_strlit("CRaft");
        assert("RepNothing"@[0] == 'R');
        assert("SimplePush"@[0] == 'S');
        assert("ChainRep"@[1] == 'h');
        assert("MultiPaxos"@[0] == 'M');
        assert("Raft"@[1] == 'a');
        assert("RSPaxos"@[1] == 'S');
        assert("CRaft"@[1] == 'R');
    }

    /// Parse command line string into SmrProtocol enum.
    pub fn parse_name(name: &str) -> (r: Option<Self>)
        ensures
            r == Self::spec_parse_name(name@),
    {
        if same_text(name, "RepNothing") {
            Some(Self::RepNothing)
        } else if same_text(name, "SimplePush") {
            Some(Self::SimplePush)
        } else if same_text(name, "ChainRep") {
            Some(Self::ChainRep)
        } else if same_text(name, "MultiPaxos") {
            Some(Self::MultiPaxos)
        } else if same_text(name, "Raft") {
            Some(Self::Raft)
        } else if same_text(name, "RSPaxos") {
            Some(Self::RSPaxos)
        } else if same_text(name, "CRaft") {
            Some(Self::CRaft)
        } else {
            None
        }
    }
}

} // verus!
