//! Label filters over labeled records, with the recomputation of which
//! label options would still narrow the surviving records.
//!
//! The classification of label options and the state machine of the rounds
//! that hand classification jobs out to workers are verified here; the
//! threads, the lock and the drawing of the filters live around it.

pub mod label;
pub mod labeled_data;
pub mod sub_filter;
pub mod label_vec;
pub mod classify;
pub mod thread_communicator;
pub mod main_filter;
pub mod laws;

pub use label::{Label, SubLabel, TopLabel};
pub use labeled_data::LabeledData;
pub use main_filter::MainFilter;
