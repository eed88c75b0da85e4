//! Attachment layer for hardware memory watchpoints.
//!
//! Translates a logical breakpoint request (address, access kind, width)
//! into the kernel's event-descriptor structure, selects version-dependent
//! precision settings, parses the online-CPU topology, and plans the
//! per-CPU fan-out of event creation and program attachment.

pub mod perf;
pub mod utils;

pub use perf::BpType;
pub use utils::hexstr2int;
