//! The failure taxonomy of the polling client.

use vstd::prelude::*;

verus! {

/// The transport operation during which a failure was observed.
#[derive(Clone, Copy, Debug, PartialEq, Eq, Structural)]
pub enum TransportOp {
    Bind,
    Connect,
    Send,
    Receive,
}

/// A datagram transport failure: which operation failed, and the detail
/// text the I/O layer reported for it.
#[derive(Clone, Debug, PartialEq, Eq)]
pub struct TransportError {
    pub op: TransportOp,
    pub detail: String,
}

/// A failure to decode a device response.
///
/// The channels are numbered `0..=3` and stand for the fields `a0..=a3` of
/// a reading; `channel_name` renders the conventional field name.
#[derive(Clone, Debug, PartialEq, Eq)]
pub enum CodecError {
    /// A binary payload held fewer than the eight required bytes.
    Truncated,
    /// A text payload ended before the field for this channel.
    MissingField { channel: u8 },
    /// The field for this channel was not an unsigned 16-bit decimal; `raw`
    /// holds the offending bytes as they came off the wire.
    InvalidField { channel: u8, raw: Vec<u8> },
}

/// The mathematical shape of a `CodecError`, used by the decoding contracts.
pub enum CodecErrorModel {
    Truncated,
    MissingField { channel: int },
    InvalidField { channel: int, raw: Seq<u8> },
}

impl View for CodecError {
    type V = CodecErrorModel;

    open spec fn view(&self) -> CodecErrorModel {
        match self {
            CodecError::Truncated => CodecErrorModel::Truncated,
            CodecError::MissingField { channel } => CodecErrorModel::MissingField {
                channel: *channel as int,
            },
            CodecError::InvalidField { channel, raw } => CodecErrorModel::InvalidField {
                channel: *channel as int,
                raw: raw@,
            },
        }
    }
}

/// A failure of `read`: the client state does not yet hold a reading.
#[derive(Clone, Copy, Debug, PartialEq, Eq, Structural)]
pub enum StateError {
    /// No poll has succeeded yet, so there is no reading to serve.
    NotYetPolled,
}

/// Any failure the polling client can report.
#[derive(Clone, Debug, PartialEq, Eq)]
pub enum ViewerBackendError {
    Transport(TransportError),
    Codec(CodecError),
    State(StateError),
}

/// The conventional name of a channel's field: `"a0"` through `"a3"`.
pub fn channel_name(channel: u8) -> (name: &'static str)
    requires
        channel < 4,
    ensures
        channel == 0 ==> name@ == "a0"@,
        channel == 1 ==> name@ == "a1"@,
        channel == 2 ==> name@ == "a2"@,
        channel == 3 ==> name@ == "a3"@,
{
    if channel == 0 {
        "a0"
    } else if channel == 1 {
        "a1"
    } else if channel == 2 {
        "a2"
    } else {
        "a3"
    }
}

} // verus!
