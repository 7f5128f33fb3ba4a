//! Synthesis and relaying of VOIP-like UDP traffic driven by recorded call traces.

pub mod bytes;
pub mod codec;
pub mod config;
pub mod constants;
pub mod engine;
pub mod packet;
mod random;
pub mod relay;
pub mod stats;
pub mod trace;

pub use config::IpStrategy;
pub use trace::{largest_packet, NonZeroSize, OldPacketChainLink, PacketChainLink};
