//! Verified sampling core for a process/cgroup/host/TCP metrics exporter.
//!
//! The library interprets the kernel's text interfaces (`/proc`,
//! `/sys/fs/cgroup`, `/sys/class/net`) as typed numeric snapshots and
//! resolves a configured process target to a set of PIDs.  All file and
//! network I/O stays outside; every function here is a pure computation
//! over the bytes it is handed.

pub mod aggregate;
pub mod cgroup;
pub mod host;
pub mod net;
pub mod num;
pub mod proc;
pub mod settings;
pub mod target;
pub mod tcp;
pub mod text;
