//! Layered image engine for copy-on-write subvolumes: decoding of the
//! subvolume change-log stream, replay planning, whiteout handling for OCI
//! layers and lineage walking, with their contracts proved by Verus.
pub mod args;
pub mod cgroup;
pub mod decode;
pub mod digest;
pub mod encode;
pub mod import;
pub mod laws;
pub mod layer_laws;
pub mod layers;
pub mod lineage;
pub mod replay;
pub mod stream;
pub mod tree;
pub mod wire;
