//! Lustre statistics: parsing `lctl get_param` output into records and
//! turning the records into Prometheus metric families.

pub mod client;
pub mod histogram;
pub mod types;
pub mod text;
pub mod time;
pub mod key_value;
pub mod lockless;
pub mod rows;
pub mod extents;
pub mod rpc_stats;
pub mod io_latency;
pub mod stats;
pub mod llite;
pub mod osc;
pub mod mdc;
pub mod exports;
pub mod lctl;
pub mod prom_label;
pub mod stream;
pub mod routes;
pub mod family;
pub mod strings;
pub mod client_target;
pub mod controller;
pub mod llite_metrics;
pub mod metrics;
pub mod registration;

