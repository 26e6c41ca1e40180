use vstd::prelude::*;

use crate::incoming::login::{self, login_frame, delivered, is_login_packet};
use crate::incoming::server_name::{self, is_server_name_packet, server_name_frame};
use crate::incoming::subsequent::{self, carried_checksum, is_subsequent_packet, subsequent_frame};
use crate::incoming::IncomingPacket;
use crate::settings::IncomingPacketPolicy;
use crate::xtea::XTEAKey;

verus! {

/// Where a connection's reader stands: one server-name frame, one login
/// frame, then, for each subsequent frame, a key to read it with.
#[derive(Debug, Clone, Copy, PartialEq, Eq)]
pub enum ReaderStage {
    /// The first frame is expected.
    ExpectServerName,
    /// The login frame is expected.
    ExpectLogin,
    /// A key must arrive before the next frame is read.
    AwaitKey,
    /// The next frame is read with the given key.
    ExpectSubsequent(XTEAKey),
    /// The reader has stopped; the connection is to be closed.
    Finished,
}

/// What the reader's task is to do next.
#[derive(Debug, Clone, Copy, PartialEq, Eq, Structural)]
pub enum ReaderAction {
    /// Read once, asking for at most this many bytes.
    Read { max_length: usize },
    /// Wait for the connection's key to change.
    AwaitKey,
    /// Stop and report the connection finished.
    Close,
}

/// Why the reader stopped on a frame.
#[derive(Debug, Clone, Copy, PartialEq, Eq)]
pub enum FrameError {
    /// The server-name frame was refused.
    ServerName(server_name::PacketReadError),
    /// The login frame was refused.
    Login(login::PacketReadError),
    /// A subsequent frame was refused.
    Subsequent(subsequent::PacketReadError),
    /// Bytes arrived when no frame was expected.
    Unexpected,
}

/// The staged reader of one connection's incoming frames.
pub struct FrameReader {
    stage: ReaderStage,
    policy: IncomingPacketPolicy,
}

/// The action that `stage` calls for under `policy`.
pub open spec fn action_of(stage: ReaderStage, policy: IncomingPacketPolicy) -> ReaderAction {
    match stage {
        ReaderStage::ExpectServerName => ReaderAction::Read { max_length: policy.server_name_max_length },
        ReaderStage::ExpectLogin => ReaderAction::Read { max_length: policy.login_max_length },
        ReaderStage::AwaitKey => ReaderAction::AwaitKey,
        ReaderStage::ExpectSubsequent(_) => ReaderAction::Read { max_length: policy.subsequent_max_length },
        ReaderStage::Finished => ReaderAction::Close,
    }
}

impl FrameReader {
    /// The reader's stage.
    pub closed spec fn spec_stage(&self) -> ReaderStage {
        self.stage
    }

    /// The limits the reader applies.
    pub closed spec fn spec_policy(&self) -> IncomingPacketPolicy {
        self.policy
    }

    /// A reader that expects the server-name frame.
    pub fn new(policy: IncomingPacketPolicy) -> (r: Self)
        ensures
            r.spec_stage() == ReaderStage::ExpectServerName,
            r.spec_policy() == policy,
    {
        FrameReader { stage: ReaderStage::ExpectServerName, policy }
    }

    /// The reader's stage.
    pub fn stage(&self) -> (r: ReaderStage)
        ensures
            r == self.spec_stage(),
    {
        self.stage
    }

    /// What the task is to do next.
    pub fn next_action(&self) -> (r: ReaderAction)
        ensures
            r == action_of(self.spec_stage(), self.spec_policy()),
    {
        match self.stage {
            ReaderStage::ExpectServerName => ReaderAction::Read {
                max_length: self.policy.server_name_max_length,
            },
            ReaderStage::ExpectLogin => ReaderAction::Read { max_length: self.policy.login_max_length },
            ReaderStage::AwaitKey => ReaderAction::AwaitKey,
            ReaderStage::ExpectSubsequent(_) => ReaderAction::Read {
                max_length: self.policy.subsequent_max_length,
            },
            ReaderStage::Finished => ReaderAction::Close,
        }
    }

    /// A wait or a read timed out: the reader stops.
    pub fn on_timeout(&mut self)
        ensures
            final(self).spec_stage() == ReaderStage::Finished,
            final(self).spec_policy() == old(self).spec_policy(),
    {
        self.stage = ReaderStage::Finished;
    }

    /// The key changed while the reader waited for one: with a key the next
    /// frame is read with it; without one the reader stops. Outside a wait
    /// nothing changes.
    pub fn on_key(&mut self, key: Option<XTEAKey>)
        ensures
            final(self).spec_policy() == old(self).spec_policy(),
            final(self).spec_stage() == if old(self).spec_stage() == ReaderStage::AwaitKey {
                match key {
                    Some(k) => ReaderStage::ExpectSubsequent(k),
                    None => ReaderStage::Finished,
                }
            } else {
                old(self).spec_stage()
            },
    {
        if matches!(self.stage, ReaderStage::AwaitKey) {
            self.stage = match key {
                Some(k) => ReaderStage::ExpectSubsequent(k),
                None => ReaderStage::Finished,
            };
        }
    }

    /// One read delivered `received` (none: the client closed the
    /// connection): the frame of the current stage is parsed. A packet moves
    /// the reader on (after a subsequent frame it waits for a key again); an
    /// error stops it.
    pub fn on_bytes(&mut self, received: &[u8]) -> (r: Result<IncomingPacket, FrameError>)
        requires
            old(self).spec_policy().server_name_max_length + 2 <= usize::MAX,
        ensures
            final(self).spec_policy() == old(self).spec_policy(),
            r is Err ==> final(self).spec_stage() == ReaderStage::Finished,
            ({
                let policy = old(self).spec_policy();
                match old(self).spec_stage() {
                    ReaderStage::ExpectServerName => match (
                        r,
                        server_name_frame(received@, policy.server_name_max_length as nat),
                    ) {
                        (Ok(p), Ok(bytes)) => is_server_name_packet(p, bytes)
                            && final(self).spec_stage() == ReaderStage::ExpectLogin,
                        (Err(e), Err(f)) => e == FrameError::ServerName(f),
                        _ => false,
                    },
                    ReaderStage::ExpectLogin => if received@.len() == 0 {
                        r == Err::<IncomingPacket, FrameError>(
                            FrameError::Login(login::PacketReadError::ConnectionClosed),
                        )
                    } else {
                        match (
                            r,
                            login_frame(
                                delivered(received@, policy.login_max_length as nat),
                                policy.login_max_length as nat,
                            ),
                        ) {
                            (Ok(p), Ok(payload)) => is_login_packet(p, payload)
                                && final(self).spec_stage() == ReaderStage::AwaitKey,
                            (Err(e), Err(f)) => e == FrameError::Login(f),
                            _ => false,
                        }
                    },
                    ReaderStage::ExpectSubsequent(key) => if received@.len() == 0 {
                        r == Err::<IncomingPacket, FrameError>(
                            FrameError::Subsequent(subsequent::PacketReadError::ConnectionClosed),
                        )
                    } else {
                        let got = delivered(received@, policy.subsequent_max_length as nat);
                        match (r, subsequent_frame(got, policy.subsequent_max_length as nat, key)) {
                            (Ok(p), Ok((kind, payload))) => is_subsequent_packet(
                                p,
                                kind,
                                payload,
                                carried_checksum(got),
                            ) && final(self).spec_stage() == ReaderStage::AwaitKey,
                            (Err(e), Err(f)) => e == FrameError::Subsequent(f),
                            _ => false,
                        }
                    },
                    _ => r == Err::<IncomingPacket, FrameError>(FrameError::Unexpected),
                }
            }),
    {
        let policy = self.policy;
        let r = match self.stage {
            ReaderStage::ExpectServerName => match server_name::read_server_name_packet(
                received,
                policy.server_name_max_length,
            ) {
                Ok(p) => {
                    self.stage = ReaderStage::ExpectLogin;
                    Ok(p)
                },
                Err(e) => Err(FrameError::ServerName(e)),
            },
            ReaderStage::ExpectLogin => match login::read_login_packet(
                received,
                policy.login_max_length,
            ) {
                Ok(p) => {
                    self.stage = ReaderStage::AwaitKey;
                    Ok(p)
                },
                Err(e) => Err(FrameError::Login(e)),
            },
            ReaderStage::ExpectSubsequent(key) => match subsequent::read_subsequent_packet(
                received,
                key,
                policy.subsequent_max_length,
            ) {
                Ok(p) => {
                    self.stage = ReaderStage::AwaitKey;
                    Ok(p)
                },
                Err(e) => Err(FrameError::Subsequent(e)),
            },
            _ => Err(FrameError::Unexpected),
        };
        if r.is_err() {
            self.stage = ReaderStage::Finished;
        }
        r
    }
}

} // verus!
