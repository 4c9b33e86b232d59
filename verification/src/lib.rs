//! Verified core of a virtual Xbox controller automation tool: input naming,
//! controller event encoding, OCR output parsing and step-log validation.

pub mod capture;
pub mod controller;
pub mod daemon;
pub mod json;
pub mod names;
pub mod ocr;
pub mod steplog;
pub mod text;
