//! Feature gates, dynamic configs and layers, evaluated in-process against a
//! rule set, with the exposure queue and the bootstrap document that go with
//! them.

pub mod text;
pub mod decimal;
pub mod json;
pub mod eval_helpers;
pub mod hashing;
pub mod country_lookup;
pub mod statsig_user;
pub mod eval_details;
pub mod eval_result;
pub mod data_types;
pub mod ua_parser;
pub mod specs;
pub mod statsig_evaluator;
pub mod client_init_response_formatter;
pub mod statsig_options;
pub mod statsig_error;
pub mod statsig_event;
pub mod statsig_event_internal;
pub mod statsig_logger;
pub mod statsig_store;
pub mod statsig_network;
pub mod feature_gate;
pub mod dynamic_config;
pub mod layer;
pub mod helpers;
pub mod statsig_driver;

pub use statsig_event::StatsigEvent;
pub use statsig_options::StatsigOptions;
pub use statsig_user::StatsigUser;
