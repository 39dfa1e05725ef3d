//! Bulk scanner for archives of tagged medical-image objects.
//!
//! The library finds the objects of the expected binary format inside an
//! in-memory archive in two phases — a cheap signature prefilter over every
//! entry, then a bounded structured decode that extracts a fixed field set
//! with per-field "absent" sentinels — derives the acquisition spatial
//! resolution from the raw acquisition fields, and groups the results into a
//! study-to-series index. The archive container and the tagged-object decoder
//! are outside libraries, consumed through contracts over an entry model and
//! a field-map model; everything that decides, parses or aggregates is
//! verified against those contracts.
pub mod aggregate;
pub mod archive;
pub mod deep;
pub mod dicom_io;
pub mod matrix;
pub mod prefilter;
pub mod resolution;
pub mod text;
