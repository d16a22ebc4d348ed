//! Link layer of the M-Bus (Meter-Bus) serial protocol: the four frame
//! shapes, their checksum, a streaming parser and serializer, a framed codec
//! over a byte buffer, and the decision logic of a three-port proxy.
pub mod buffer;
pub mod checksum;
pub mod codec;
pub mod frame;
pub mod parser;
pub mod streaming;
pub mod laws;
pub mod multiplexer;

pub use checksum::calculate_checksum;
pub use codec::MbusCodec;
pub use frame::{Frame, FrameIterator};
pub use parser::{parse_frame, FrameParseError, ParseError, ParseSizeNeeded};
