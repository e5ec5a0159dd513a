//! A verified client for a networked document-scanner appliance: discovery
//! of the device's base URL from collected service-discovery responses, and
//! the typed client that turns that base URL into scan-listing,
//! scan-download and scan-deletion requests and judges the device's
//! responses, including its redirect-as-not-found convention.
//!
//! All network and file I/O stays outside this library: callers collect
//! responses and perform HTTP round trips, and hand the results in as plain
//! values.

pub mod datetime;
pub mod digits;
pub mod discover;
pub mod doxie;
pub mod jsontext;
pub mod urls;
