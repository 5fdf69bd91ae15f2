//! The control interface: memory of the kernel, controller sessions, and the
//! requests of a controller.

use vstd::prelude::*;

pub mod allocator;
pub mod device;
pub mod dispatch;
pub mod entry;
pub mod fidelity;
pub mod ioctl;
pub mod layout;
pub mod protocol;
pub mod requests;
pub mod service;
pub mod session;
pub mod wire;

verus! {

} // verus!
