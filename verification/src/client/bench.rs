//! Benchmarking client: what to send next, and the counters of a run.

use crate::server::{Command, CommandView, RequestId};
use crate::utils::error::SummersetError;
use rand::distributions::Alphanumeric;
use rand::Rng;
use vstd::prelude::*;

verus! {

/// Number of keys in the pool that commands draw their key from.
pub const KEYS_POOL_SIZE: usize = 5;

/// Number of characters of a key of the pool.
pub const KEY_LEN: usize = 8;

/// Mode parameters struct.
#[derive(Debug, Clone, Copy, PartialEq, Eq, Structural)]
pub struct ModeParamsBench {
    /// Target frequency of issuing requests per second. Zero means a
    /// closed loop: the next request goes out when the last is answered.
    pub freq_target: u64,
    /// Time length to benchmark in seconds.
    pub length_s: u64,
    /// Percentage of put requests.
    pub put_ratio: u8,
    /// Value size in bytes.
    pub value_size: usize,
}

impl Default for ModeParamsBench {
    fn default() -> (params: Self)
        ensures
            params == (ModeParamsBench {
                freq_target: 200000,
                length_s: 30,
                put_ratio: 50,
                value_size: 1024,
            }),
    {
        ModeParamsBench { freq_target: 200000, length_s: 30, put_ratio: 50, value_size: 1024 }
    }
}

impl ModeParamsBench {
    /// The first parameter that is out of range, as the error that names
    /// it: a frequency above ten million, a length of zero, a put ratio
    /// above a hundred, a value size of zero.
    pub open spec fn fault(self) -> Option<SummersetError> {
        if self.freq_target > 10000000 {
            Some(SummersetError::InvalidFreqTarget { freq_target: self.freq_target })
        } else if self.length_s == 0 {
            Some(SummersetError::InvalidLengthS { length_s: self.length_s })
        } else if self.put_ratio > 100 {
            Some(SummersetError::InvalidPutRatio { put_ratio: self.put_ratio })
        } else if self.value_size == 0 {
            Some(SummersetError::InvalidValueSize { value_size: self.value_size })
        } else {
            None
        }
    }

    /// The time between two requests of an open loop, in nanoseconds; none
    /// in a closed loop.
    pub open spec fn spec_tick_interval_ns(self) -> Option<u64> {
        if self.freq_target == 0 {
            None
        } else {
            Some((1000000000int / self.freq_target as int) as u64)
        }
    }

    /// The time between two requests of an open loop, in nanoseconds; none
    /// in a closed loop.
    pub fn tick_interval_ns(&self) -> (delay: Option<u64>)
        ensures
            delay == self.spec_tick_interval_ns(),
    {
        if self.freq_target > 0 {
            Some(1000000000 / self.freq_target)
        } else {
            None
        }
    }
}

/// Whether a character is an ASCII letter or digit.
pub open spec fn is_alphanumeric(c: char) -> bool {
    ('A' <= c && c <= 'Z') || ('a' <= c && c <= 'z') || ('0' <= c && c <= '9')
}

/// Whether a text has `len` characters, each an ASCII letter or digit.
pub open spec fn is_alphanumeric_text(text: Seq<char>, len: nat) -> bool {
    text.len() == len && forall|i: int| 0 <= i < text.len() ==> is_alphanumeric(#[trigger] text[i])
}

/// Samples rand's `Alphanumeric` distribution `len` times from the
/// generator of the thread (`thread_rng`): a string of `len` characters,
/// each an ASCII letter or digit. Which ones is left open.
#[verifier::external_body]
fn random_text(len: usize) -> (text: String)
    ensures
        is_alphanumeric_text(text@, len as nat),
{
    rand::thread_rng().sample_iter(&Alphanumeric).take(len).map(char::from).collect()
}

/// `Rng::gen_range` on the generator of the thread, over the numbers from 0
/// to `max`, both included: one of them. Which one is left open.
#[verifier::external_body]
fn random_at_most(max: usize) -> (n: usize)
    ensures
        n <= max,
{
    rand::thread_rng().gen_range(0..=max)
}

/// Benchmarking client struct: the parameters and counters of a run.
#[derive(Debug, PartialEq, Eq)]
pub struct ClientBench {
    /// Mode parameters struct.
    pub params: ModeParamsBench,
    /// Fixed value generated according to specified size.
    pub value: String,
    /// Pool of keys to choose from.
    pub keys_pool: Vec<String>,
    /// Requests issued so far.
    pub total_cnt: u64,
    /// Replies received so far.
    pub reply_cnt: u64,
    /// Replies received since statistics were last printed.
    pub chunk_cnt: u64,
    /// The last request could not be sent and is to be tried again.
    pub retrying: bool,
    /// Sending is held back until a reply comes in.
    pub slowdown: bool,
}

/// What the driver found when it waited on the service in an open loop.
#[derive(Debug, Clone, Copy, PartialEq, Eq, Structural)]
pub enum OpenLoopEvent {
    /// The wait for a reply ended, with a reply or without.
    Reply { received: bool },
    /// The ticker fired and a request was issued; `sent` is its ID, or
    /// none if it could not be sent.
    Tick { sent: Option<RequestId> },
}

impl ClientBench {
    /// What holds of a client between calls: its parameters are in range,
    /// its value has the size asked for, and its pool has keys.
    pub open spec fn inv(&self) -> bool {
        &&& self.params.fault() is None
        &&& is_alphanumeric_text(self.value@, self.params.value_size as nat)
        &&& self.keys_pool@.len() == KEYS_POOL_SIZE
        &&& forall|k: int|
            0 <= k < self.keys_pool@.len() ==> is_alphanumeric_text(
                #[trigger] self.keys_pool@[k]@,
                KEY_LEN as nat,
            )
    }

    /// Creates a new benchmarking client, with a random value of the size
    /// asked for and a pool of random keys. Parameters out of range are
    /// rejected.
    pub fn new(params: ModeParamsBench) -> (r: Result<Self, SummersetError>)
        ensures
            match r {
                Ok(bench) => {
                    &&& params.fault() is None
                    &&& bench.inv()
                    &&& bench.params == params
                    &&& bench.total_cnt == 0 && bench.reply_cnt == 0 && bench.chunk_cnt == 0
                    &&& !bench.retrying && !bench.slowdown
                },
                Err(e) => params.fault() == Some(e),
            },
    {
        if params.freq_target > 10000000 {
            return Err(SummersetError::InvalidFreqTarget { freq_target: params.freq_target });
        }
        if params.length_s == 0 {
            return Err(SummersetError::InvalidLengthS { length_s: params.length_s });
        }
        if params.put_ratio > 100 {
            return Err(SummersetError::InvalidPutRatio { put_ratio: params.put_ratio });
        }
        if params.value_size == 0 {
            return Err(SummersetError::InvalidValueSize { value_size: params.value_size });
        }
        let mut keys_pool: Vec<String> = Vec::new();
        while keys_pool.len() < KEYS_POOL_SIZE
            invariant
                keys_pool@.len() <= KEYS_POOL_SIZE,
                forall|k: int|
                    0 <= k < keys_pool@.len() ==> is_alphanumeric_text(
                        #[trigger] keys_pool@[k]@,
                        KEY_LEN as nat,
                    ),
            decreases KEYS_POOL_SIZE - keys_pool@.len(),
        {
            keys_pool.push(random_text(KEY_LEN));
        }
        let value = random_text(params.value_size);
        Ok(
            ClientBench {
                params,
                value,
                keys_pool,
                total_cnt: 0,
                reply_cnt: 0,
                chunk_cnt: 0,
                retrying: false,
                slowdown: false,
            },
        )
    }

    /// The command for a key of the pool and a roll between 0 and 100: a
    /// put of the fixed value if the roll is at most the put ratio, else a
    /// get.
    pub open spec fn spec_pick_cmd(&self, key_idx: usize, roll: usize) -> CommandView {
        if roll <= self.params.put_ratio {
            CommandView::Put { key: self.keys_pool@[key_idx as int]@, value: self.value@ }
        } else {
            CommandView::Get { key: self.keys_pool@[key_idx as int]@ }
        }
    }

    /// The command for a key of the pool and a roll between 0 and 100: a
    /// put of the fixed value if the roll is at most the put ratio, else a
    /// get.
    pub fn pick_cmd(&self, key_idx: usize, roll: usize) -> (cmd: Command)
        requires
            key_idx < self.keys_pool@.len(),
        ensures
            cmd@ == self.spec_pick_cmd(key_idx, roll),
    {
        let key = self.keys_pool[key_idx].clone();
        if roll <= self.params.put_ratio as usize {
            Command::Put { key, value: self.value.clone() }
        } else {
            Command::Get { key }
        }
    }

    /// Makes up a random request: a random key of the pool, and a put or a
    /// get by a random roll.
    pub fn issue_rand_cmd(&self) -> (cmd: Command)
        requires
            self.keys_pool@.len() > 0,
        ensures
            exists|key_idx: usize, roll: usize|
                key_idx < self.keys_pool@.len() && roll <= 100 && cmd@ == #[trigger] self.spec_pick_cmd(
                    key_idx,
                    roll,
                ),
    {
        let key_idx = random_at_most(self.keys_pool.len() - 1);
        let roll = random_at_most(100);
        self.pick_cmd(key_idx, roll)
    }

    /// Whether the client is to wait for a reply: more requests were issued
    /// than replies received.
    pub open spec fn awaits_reply(&self) -> bool {
        self.total_cnt > self.reply_cnt
    }

    /// Runs one iteration action of closed-loop style benchmark, the first
    /// half: takes in how the issuing of a request went, the last one again
    /// if `retrying` was set, else a new one. A request that could not be
    /// sent is to be tried again; one that was sent is counted. Returns
    /// whether to wait for a reply now.
    pub fn closed_loop_iter(&mut self, sent: Option<RequestId>) -> (wait: bool)
        requires
            old(self).total_cnt < u64::MAX,
        ensures
            *final(self) == (ClientBench {
                retrying: sent is None,
                total_cnt: if sent is Some {
                    (old(self).total_cnt + 1) as u64
                } else {
                    old(self).total_cnt
                },
                ..*old(self)
            }),
            wait == final(self).awaits_reply(),
    {
        self.retrying = sent.is_none();
        if !self.retrying {
            self.total_cnt = self.total_cnt + 1;
        }
        self.total_cnt > self.reply_cnt
    }

    /// Counts a reply, and lets sending go on if it was held back.
    pub fn reply_received(&mut self)
        requires
            old(self).reply_cnt < u64::MAX,
            old(self).chunk_cnt < u64::MAX,
        ensures
            *final(self) == (ClientBench {
                reply_cnt: (old(self).reply_cnt + 1) as u64,
                chunk_cnt: (old(self).chunk_cnt + 1) as u64,
                slowdown: false,
                ..*old(self)
            }),
    {
        self.reply_cnt = self.reply_cnt + 1;
        self.chunk_cnt = self.chunk_cnt + 1;
        if self.slowdown {
            self.slowdown = false;
        }
    }

    /// The client after an event of an open loop.
    ///
    /// A reply is counted and ends a slowdown. A request that could not be
    /// sent is to be tried again, and sending slows down if replies are
    /// still owed; one that was sent is counted.
    pub open spec fn step_open_loop(self, event: OpenLoopEvent) -> ClientBench {
        match event {
            OpenLoopEvent::Reply { received: true } => ClientBench {
                reply_cnt: (self.reply_cnt + 1) as u64,
                chunk_cnt: (self.chunk_cnt + 1) as u64,
                slowdown: false,
                ..self
            },
            OpenLoopEvent::Reply { received: false } => self,
            OpenLoopEvent::Tick { sent } => ClientBench {
                retrying: sent is None,
                slowdown: sent is None && self.total_cnt > self.reply_cnt,
                total_cnt: if sent is Some {
                    (self.total_cnt + 1) as u64
                } else {
                    self.total_cnt
                },
                ..self
            },
        }
    }

    /// Runs one iteration action of open-loop style benchmark: takes in
    /// what the driver found when it waited for a reply and, unless
    /// `slowdown` was set, for the ticker, the reply first.
    pub fn open_loop_iter(&mut self, event: OpenLoopEvent)
        requires
            old(self).total_cnt < u64::MAX,
            old(self).reply_cnt < u64::MAX,
            old(self).chunk_cnt < u64::MAX,
        ensures
            *final(self) == old(self).step_open_loop(event),
    {
        match event {
            // receive next reply
            OpenLoopEvent::Reply { received } => {
                if received {
                    self.reply_received();
                }
            },
            // send next request
            OpenLoopEvent::Tick { sent } => {
                self.retrying = sent.is_none();
                self.slowdown = self.retrying && (self.total_cnt > self.reply_cnt);
                if !self.retrying {
                    self.total_cnt = self.total_cnt + 1;
                }
            },
        }
    }

    /// Ends a chunk of the statistics: returns the number of replies of
    /// the chunk and starts the next chunk at zero.
    pub fn take_chunk(&mut self) -> (replies: u64)
        ensures
            replies == old(self).chunk_cnt,
            *final(self) == (ClientBench { chunk_cnt: 0, ..*old(self) }),
    {
        let replies = self.chunk_cnt;
        self.chunk_cnt = 0;
        replies
    }
}

} // verus!
