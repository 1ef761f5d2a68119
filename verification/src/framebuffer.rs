//! The linear framebuffer description handed to the kernel.
//!
//! The boot orchestrator fills this in from the firmware's graphics
//! output protocol; the library only carries the plain values.

use vstd::prelude::*;

verus! {

/// BOOTBOOT linear framebuffer information.
#[derive(Clone, Copy, Debug)]
pub struct Framebuffer {
    pub ptr: u64,
    pub size: u32,
    pub width: u32,
    pub height: u32,
    pub scanline: u32,
}

} // verus!
