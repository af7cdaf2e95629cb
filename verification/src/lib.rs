//! Packet transport over chat content.
//!
//! A tunnel carries the packets of a virtual network device as the text of
//! chat messages, or of a chat's title and description. This library holds
//! what such a tunnel decides and computes: the text codecs, the framing
//! with sequence numbers, the two channel adapters and the rules of the
//! pump. It makes no network call and reads no device: the program around
//! it does, and hands over what it got.

pub mod base64;
pub mod buffer;
pub mod codec;
pub mod discord;
pub mod error;
pub mod pump;
pub mod radix116;
pub mod radix85;
pub mod sequence;
pub mod telegram;
pub mod text;
