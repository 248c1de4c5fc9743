//! Multicast soft-state synchronisation of named 3D objects and point clouds.
//!
//! Producers restate the current truth of each object over multicast UDP;
//! observers fold what arrives into a self-expiring replica table.

use vstd::prelude::*;

pub mod commands;
pub mod keyed;
pub mod laws;
pub mod multicast;
pub mod point_cloud;
pub mod pose;
pub mod replica;

pub use multicast::Endpoint;
pub use point_cloud::PointCloud2;
pub use pose::{ObjectPose, PoseClientUpdate};

verus! {

/// Why a transport could not be set up, or a message not moved.
#[derive(Clone, Debug, PartialEq, Eq)]
pub enum PosePublisherError {
    /// The group address is outside 224.0.0.0 to 239.255.255.255.
    AddressNotMulticast(Endpoint),
    /// A socket call failed; the text says how.
    IoError(String),
    /// A datagram was not well-formed UTF-8.
    StringConversionError,
    /// A datagram's text was not an instance of the expected message.
    JsonParsingError,
}

} // verus!
