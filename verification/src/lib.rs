//! A hypervisor control-plane library.
//!
//! One abstraction over several virtual-machine backends: a shared data
//! model (VMs, snapshots, NICs, shared folders, power states, a typed error
//! taxonomy), injection-safe argument escaping for a script host, parsers
//! for each backend's machine-readable output, per-backend error
//! translators, and a power-state convergence engine.
//!
//! The library itself performs no I/O: each adapter builds the exact
//! command line or HTTP request to issue and interprets the text that came
//! back. A thin host program runs the subprocess or HTTP call and feeds the
//! output to the functions here.
pub mod convergence;
pub mod hyperv;
pub mod json;
pub mod text;
pub mod types;
pub mod virtualbox;
pub mod vmware;

