//! A static, interrupt-driven real-time scheduling framework core.
//!
//! The crate models and verifies the three algorithmic pieces of a
//! priority-ceiling based real-time executive for small microcontrollers:
//!
//! * resource ceiling analysis over a static task set (`analysis`),
//! * the priority-ceiling lock protocol and a simulated-core model of
//!   preemptive dispatch (`kernel`, `export`),
//! * a monotonic timer queue with cancellable delays and timeouts
//!   (`time`, `timer_queue`, `monotonics`).
//!
//! The `command` module carries the build-runner command model that
//! accompanies the framework.

pub mod analysis;
pub mod bindings;
pub mod command;
pub mod export;
pub mod kernel;
pub mod monotonics;
pub mod time;
pub mod timer_queue;
