//! Client-side SSDP: the discovery phase of UPnP.
//!
//! The crate frames raw datagrams into request-line + header packets, maps
//! those packets onto strongly typed messages and back, and folds a burst of
//! search responses into a deduplicated device inventory.

pub mod description;
pub mod discovery;
pub mod errors;
pub mod headers;
pub mod message;
pub mod num;
pub mod packet;
pub mod strutil;

pub use crate::description::{DeviceType, ServiceId, ServiceType, SpecVersion, UniqueDeviceName};
pub use crate::discovery::{Device, DiscoverySession, Service, SessionPhase};
pub use crate::errors::Error;
pub use crate::headers::HeaderMap;
pub use crate::message::codec::Codec;
pub use crate::message::types::{Ext, ManDiscover, SearchTarget, UniqueServiceName};
pub use crate::message::{Available, MSearch, Message, SearchResponse};
pub use crate::packet::decoder::Decoder;
pub use crate::packet::encoder::Encoder;
pub use crate::packet::{Packet, PacketType};

