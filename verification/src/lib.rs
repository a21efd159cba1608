//! Boot orchestration for a first process: the rules by which a kernel command
//! line becomes boot options, a root device is prepared and mounted, and control
//! is handed to the real init. Everything here decides and computes; the caller
//! performs the system calls that the decisions name.

pub mod cmdline;
pub mod dmverity;
pub mod init;
pub mod mount;
pub mod systemd;
pub mod text;
pub mod usbg_9pfs;
pub mod util;
