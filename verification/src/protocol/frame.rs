//! The frames of the WebSocket transport and the text that they carry.

use vstd::prelude::*;
use vstd::string::*;

use super::error::ProtocolError;
use super::message::MAX_PAYLOAD_LEN;
use crate::text::{byte_len, text_len};

verus! {

/// Why a peer closes the connection.
#[derive(Debug, Clone, PartialEq, Eq)]
pub struct CloseInfo {
    pub code: u16,
    pub reason: String,
}

/// A message of the WebSocket transport.
#[derive(Debug, Clone, PartialEq, Eq)]
pub enum Frame {
    Text(String),
    Binary(Vec<u8>),
    Ping(Vec<u8>),
    Pong(Vec<u8>),
    Close(Option<CloseInfo>),
    Raw(Vec<u8>),
}

/// The text that a frame carries, or why it carries none that can be read.
pub open spec fn frame_text(frame: Frame) -> Result<Seq<char>, ProtocolError> {
    match frame {
        Frame::Text(text) => if byte_len(text@) > MAX_PAYLOAD_LEN {
            Err(ProtocolError::PayloadTooLong)
        } else {
            Ok(text@)
        },
        Frame::Close(_) => Err(ProtocolError::CloseFrame),
        Frame::Binary(_) => Err(ProtocolError::BinaryFrame),
        Frame::Ping(_) => Err(ProtocolError::PingFrame),
        Frame::Pong(_) => Err(ProtocolError::PongFrame),
        Frame::Raw(_) => Err(ProtocolError::RawFrame),
    }
}

/// Take the text out of a frame.
pub fn text_payload(data: Frame) -> (r: Result<String, ProtocolError>)
    ensures
        match r {
            Ok(text) => frame_text(data) == Ok::<Seq<char>, ProtocolError>(text@),
            Err(e) => frame_text(data) == Err::<Seq<char>, ProtocolError>(e),
        },
{
    match data {
        Frame::Text(text) => {
            if text_len(text.as_str()) > MAX_PAYLOAD_LEN {
                return Err(ProtocolError::PayloadTooLong);
            }
            Ok(text)
        },
        Frame::Close(_) => Err(ProtocolError::CloseFrame),
        Frame::Binary(_) => Err(ProtocolError::BinaryFrame),
        Frame::Ping(_) => Err(ProtocolError::PingFrame),
        Frame::Pong(_) => Err(ProtocolError::PongFrame),
        Frame::Raw(_) => Err(ProtocolError::RawFrame),
    }
}

} // verus!
