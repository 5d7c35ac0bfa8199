//! A buffer of machine-code bytes that lives in a page-aligned memory
//! mapping obtained from the operating system.  The mapping is either
//! writable or executable, never both at once; bytes and fixed-width
//! integers are appended under a capacity check, and the finished region
//! can be handed out for execution.

pub mod buffer;
pub mod bytes;
pub mod region;
