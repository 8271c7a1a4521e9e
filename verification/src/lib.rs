//! Domain model of a small fleet-deployment tracker: nodes, services,
//! deployments and lifecycle tasks, the forms they are built from, and the
//! printable rows they are shown as.

pub mod architecture;
pub mod builder;
pub mod configuration;
pub mod decimal;
pub mod deployment;
pub mod deployment_row;
pub mod document;
pub mod image_row;
pub mod logsource;
pub mod node;
pub mod node_row;
pub mod service;
pub mod service_row;
pub mod settings;
pub mod task;
pub mod timestamp;
pub mod utils;
