//! The split link over BLE.

use vstd::prelude::*;
use crate::split::driver::SplitDriverError;
use crate::split::SplitMessage;

pub mod central;
pub mod dfu_session;
pub mod peripheral;

verus! {

/// Where the other half of a split link was last seen, as storage keeps it.
#[derive(Clone, Copy, Debug, PartialEq, Eq)]
pub struct PeerAddress {
    pub peer_id: u8,
    pub is_valid: bool,
    pub address: [u8; 6],
}

impl PeerAddress {
    pub fn new(peer_id: u8, is_valid: bool, address: [u8; 6]) -> (r: Self)
        ensures
            r == (PeerAddress { peer_id, is_valid, address }),
    {
        PeerAddress { peer_id, is_valid, address }
    }
}

// ---------------------------------------------------------------------------
// The link as an L2CAP channel
// ---------------------------------------------------------------------------

/// PSM of the split link's L2CAP channel. The peripheral listens on this PSM and
/// the central connects to it.
pub const SPLIT_L2CAP_PSM: u16 = 0x0080;

/// Backstop for a peer that stops returning credits while the link stays up.
pub const SEND_TIMEOUT_SECS: u64 = 10;

/// Credits are granted back once about half the window is spent.
pub const CREDIT_THRESHOLD: u16 = 8;

/// Parameters of the channel.
#[derive(Clone, Copy, Debug, PartialEq, Eq, Structural)]
pub struct ChannelParams {
    pub mtu: Option<u16>,
    pub credit_threshold: u16,
}

/// The channel takes whole split messages.
pub fn split_channel_config(message_max_size: u16) -> (r: ChannelParams)
    ensures
        r == (ChannelParams {
            mtu: Some(message_max_size),
            credit_threshold: CREDIT_THRESHOLD,
        }),
{
    ChannelParams { mtu: Some(message_max_size), credit_threshold: CREDIT_THRESHOLD }
}

/// How reading a message went.
#[derive(Debug, PartialEq, Eq)]
pub enum ChannelReading {
    /// The channel failed.
    Failed,
    /// Bytes came in that are no message.
    Undecodable,
    Message(SplitMessage),
}

/// What a reading means. Every channel-level error is terminal for the session:
/// the reconnect path rebuilds the channel, so it is reported as a disconnect.
pub fn read_outcome(reading: ChannelReading) -> (r: Result<SplitMessage, SplitDriverError>)
    ensures
        match reading {
            ChannelReading::Failed => r == Err::<SplitMessage, _>(SplitDriverError::Disconnected),
            ChannelReading::Undecodable => r == Err::<SplitMessage, _>(
                SplitDriverError::DeserializeError,
            ),
            ChannelReading::Message(m) => r == Ok::<_, SplitDriverError>(m),
        },
{
    match reading {
        ChannelReading::Failed => Err(SplitDriverError::Disconnected),
        ChannelReading::Undecodable => Err(SplitDriverError::DeserializeError),
        ChannelReading::Message(m) => Ok(m),
    }
}

/// How sending a message went.
#[derive(Clone, Copy, Debug, PartialEq, Eq, Structural)]
pub enum ChannelSending {
    /// The message could not be encoded.
    NotEncoded,
    /// It went out, with that many bytes.
    Sent(usize),
    /// The channel failed.
    Failed,
    /// No credits came in time.
    TimedOut,
}

/// What a sending means.
pub fn write_outcome(sending: ChannelSending) -> (r: Result<usize, SplitDriverError>)
    ensures
        r == match sending {
            ChannelSending::NotEncoded => Err(SplitDriverError::SerializeError),
            ChannelSending::Sent(len) => Ok(len),
            ChannelSending::Failed | ChannelSending::TimedOut => Err(
                SplitDriverError::Disconnected,
            ),
        },
{
    match sending {
        ChannelSending::NotEncoded => Err(SplitDriverError::SerializeError),
        ChannelSending::Sent(len) => Ok(len),
        ChannelSending::Failed => Err(SplitDriverError::Disconnected),
        ChannelSending::TimedOut => Err(SplitDriverError::Disconnected),
    }
}

// ---------------------------------------------------------------------------
// Laws
// ---------------------------------------------------------------------------

/// A channel read gives a message exactly where one came, and a write counts exactly where it was
/// sent; a link that failed either is down.
pub proof fn law_a_failed_channel_is_disconnected(
    reading: ChannelReading,
    r: Result<SplitMessage, SplitDriverError>,
    sending: ChannelSending,
    w: Result<usize, SplitDriverError>,
)
    requires
        read_outcome.ensures((reading,), r),
        write_outcome.ensures((sending,), w),
    ensures
        r is Ok <==> reading is Message,
        r matches Ok(m) ==> reading == ChannelReading::Message(m),
        r matches Err(e) ==> (e is Disconnected <==> reading is Failed) && (e is DeserializeError
            <==> reading is Undecodable),
        w is Ok <==> sending is Sent,
        w matches Ok(n) ==> sending == ChannelSending::Sent(n),
        w matches Err(e) ==> (e is Disconnected <==> sending is Failed || sending is TimedOut) && (
        e is SerializeError <==> sending is NotEncoded),
{
}

} // verus!
