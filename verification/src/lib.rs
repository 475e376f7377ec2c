//! Verified logic of the gossipsub network simulations.

pub mod bytes;
pub mod censoring;
pub mod clock;
pub mod emulation;
pub mod episub;
pub mod eth_consensus;
pub mod flood_publishing;
pub mod gen_topology;
pub mod gen_topology_files;
pub mod hashing;
pub mod influx;
pub mod instance_params;
pub mod metric_tables;
pub mod openmetrics;
pub mod ordered;
pub mod participants;
pub mod recording;
pub mod recording_laws;
pub mod rng;
pub mod scoring;
pub mod scoring_parameters;
pub mod smoke;
pub mod text;
