//! Process-level guard for a secrets directory.
//!
//! The library holds the verified core of an interposition layer that denies
//! a process's own file-opening calls access to a guarded directory: the
//! per-call allow/deny decision over pathnames, the table describing each
//! guarded primitive and its native failure sentinel, and the errno value a
//! denial reports. The surrounding shim (symbol hooks, C-string handling,
//! the per-thread errno write) is ordinary foreign-function code and lives
//! outside the library.

pub mod errno;
pub mod guard;
pub mod handle;
pub mod paths;
pub mod table;
