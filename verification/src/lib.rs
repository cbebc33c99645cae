//! A small greeting service: it takes the optional raw body of an HTTP-style
//! event, extracts a few named fields from it (tolerating absent or malformed
//! bodies by falling back to fixed defaults), computes a greeting, and builds
//! a JSON response with a fixed status code and header set.

pub mod encode;
pub mod escape;
pub mod fields;
pub mod greeting;
pub mod jsonparse;
pub mod laws;
pub mod numeral;
pub mod response;
pub mod strutil;
