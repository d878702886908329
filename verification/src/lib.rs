//! Durable-record contracts for cluster topology.
//!
//! A control plane persists one record per storage node: its identity, the
//! endpoint of its control service, and free-form operator labels.  This
//! crate states and verifies the contract every such record obeys: it is
//! addressed by a key derived from its identity alone, tagged with a storage
//! category, encoded to bytes deterministically so that decoding returns an
//! equal record, and projected to a narrower external API shape whose
//! conversions are explicitly lossy for labels.

pub mod codec;
pub mod labels;
pub mod node;
pub mod store;

pub use labels::NodeLabels;
pub use node::ApiNodeSpec;
pub use node::Node;
pub use node::NodeId;
pub use node::NodeSpec;
pub use node::NodeSpecKey;
pub use node::NodeState;
pub use node::NodeStatus;
pub use node::RuntimeNodeState;

pub use store::DecodeError;
pub use store::ObjectKey;
pub use store::StorableObject;
pub use store::StorableObjectType;
pub use store::UuidString;
