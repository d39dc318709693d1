//! What is decoded, how it is asked for, and where it goes.
pub mod cuda;
pub mod filter;
pub mod filter_laws;
pub mod format;
pub mod frame;
pub mod graph;
pub mod graph_laws;
pub mod offer_laws;
pub mod path_laws;
pub mod plan;
pub mod plan_laws;
pub mod probe;
pub mod request;
pub mod request_laws;
pub mod session;
pub mod session_laws;
pub mod session_offer_laws;
pub mod session_run_laws;
pub mod slots;
pub mod stream;
pub mod stream_laws;
