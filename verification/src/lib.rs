//! Client-side core of a medical-image analysis pipeline.
//!
//! Loose DICOM files are grouped into studies, each study is uploaded as one
//! multipart bundle, the remote service is polled until it reports the study
//! done, and one result bundle per requested parameter set is decoded and
//! planned onto the output directory.  Everything here is pure logic over
//! plain values; the HTTP transport, the filesystem and the attribute reader
//! live outside the library and hand values in.

pub use structs::check_study_uids;
pub use structs::params_from_args;
pub use structs::InferenceCommand;
pub use structs::Language;
pub use structs::MilvueError;
pub use structs::MilvueParams;
pub use structs::MilvueUrl;
pub use structs::OutputFormat;
pub use structs::OutputSelection;
pub use structs::RecapTheme;
pub use structs::RunArgs;
pub use structs::StaticReportFormat;
pub use structs::StatusResponse;
pub use structs::StructuredReportFormat;
pub use uid::generate_dicom_uid;

pub mod fanout;
pub mod inventory;
pub mod multipart;
pub mod poll;
pub mod request;
pub mod search;
pub mod structs;
pub mod uid;
pub mod worker;
