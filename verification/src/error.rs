//! The error type shared by the protocol code.
use vstd::prelude::*;

verus! {

/// Errors raised while encoding, decoding or talking to an MCU.
#[derive(Debug, Clone, Copy, PartialEq, Eq, Structural)]
pub enum IOError {
    /// The input ended before a value was complete ("failed to fill whole buffer").
    UnexpectedEof,
    /// A read returned no bytes while a frame was still being assembled.
    ConnectionClosed,
    /// The peer did not answer in time.
    Timeout,
    /// A message whose length byte is zero.
    NullPacket,
    /// A message whose length byte is below the minimum frame size.
    PacketTooSmall,
    /// A message whose length byte is above the maximum frame size.
    PacketTooLarge,
    /// The trailing sync byte is not `0x7e`.
    InvalidSync,
    /// The CRC of a message does not match its contents.
    InvalidCrc,
    /// A command whose static id has no dynamic id in the dictionary.
    UnregisteredCommand { static_id: u16 },
    /// A received dynamic id with no static id in the dictionary.
    UnregisteredCommandId { id: i16 },
    /// A static id that names no command of the expected kind.
    UnknownVariant { id: i16 },
    /// A bootloader frame with an unexpected header, length or CRC.
    InvalidHeader { header: u16 },
    /// A string argument that is not valid UTF-8.
    InvalidUTF8,
    /// The identify data is not valid JSON.
    InvalidJSON,
    /// The identify data could not be inflated; carries the inflater's
    /// status code (negative for bad or truncated data).
    ZlibDecode { status: i8 },
    /// An acknowledgement was expected but a command arrived.
    UnexpectedData,
    /// A command was expected but an acknowledgement arrived.
    UnexpectedNullData,
    /// A reply of the wrong kind arrived.
    UnexpectedCommand,
    /// A pin name could not be understood.
    InvalidPin,
    /// The device is not connected.
    NotConnected,
    /// A TMC UART register write could not be verified.
    TmcUartVerificationFailed,
    /// The operating system reported this error number.
    Linux { errno: i32 },
}

} // verus!
