//! Decision logic of a single-use loopback listener that captures the
//! redirect of a browser-based sign-in and hands the final URL to the
//! embedding application at most once.
//!
//! The library performs no I/O. A driver accepts connections, reads bytes and
//! writes responses; every decision it takes comes from here.

pub mod request;
pub mod scan;
pub mod session;
pub mod window;
