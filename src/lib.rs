//! Topology discovery for a 2-D coherent mesh interconnect, driven by
//! performance-counter probes.
pub mod args;
pub mod benchmark;
pub mod cpuinfo;
pub mod decode;
pub mod digits;
pub mod error;
pub mod event;
pub mod launch;
pub mod node_id;
pub mod probe;
pub mod text;
pub mod topology;
