//! Session-scoped GIF recompression: a session registry with expiry, the
//! decisions of multipart ingestion, the recompression pipeline and the
//! packaging of results for download.
pub mod compress;
pub mod ingest;
pub mod package;
pub mod paths;
pub mod report;
pub mod session;
