//! Verified core of the shotover Kafka test helpers and source/peer configuration:
//! client settings for the Kafka drivers, the rules by which consumed records are
//! compared with expected ones, and the decisions of the shotover peer health check.

pub mod expected_response;
pub mod any_order;
pub mod kafka_types;
pub mod commit_offsets;
pub mod consumer_config;
pub mod connection;
pub mod shotover_node;
pub mod redis_source;
