//! Verified core of the Heirloom inheritance-vault backend.

pub mod acl;
pub mod audit;
pub mod backup_validation;
pub mod batch;
pub mod batching;
pub mod bulkhead;
pub mod cache;
pub mod cache_invalidation;
pub mod cache_metrics;
pub mod cache_partition;
pub mod cache_recovery;
pub mod cache_warming;
pub mod canary;
pub mod cdc;
pub mod chaos;
pub mod circuit_breaker;
pub mod clock;
pub mod compliance;
pub mod consensus;
pub mod consistency;
pub mod contract_version_check;
pub mod cost_estimation;
pub mod cost_tracking;
pub mod custom_metrics;
pub mod db;
pub mod deadlock;
pub mod decompression;
pub mod degradation;
pub mod dependency_map;
pub mod distributed_tx;
pub mod dlq;
pub mod doc_generator;
pub mod error_context;
pub mod fallback;
pub mod graph;
pub mod json;
pub mod metrics;
pub mod models;
pub mod order;
pub mod ratio;
pub mod records;
pub mod ring;
pub mod rows;
pub mod scan;
pub mod sequences;
pub mod strmap;
pub mod text;
