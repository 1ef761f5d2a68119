//! The initial ramdisk: an in-memory archive the kernel file is read
//! from.
//!
//! The boot orchestrator reads the archive from disk; the library owns
//! the bytes and looks files up by name.  The only supported archive
//! format is ustar.

use vstd::prelude::*;

pub mod ustar;

use vstd::string::StringSliceAdditionalSpecFns;

verus! {

/// BOOTBOOT initrd.
#[derive(Clone)]
pub struct Initrd {
    initrd_raw: Vec<u8>,
}

impl View for Initrd {
    type V = Seq<u8>;

    closed spec fn view(&self) -> Seq<u8> {
        self.initrd_raw@
    }
}

impl Initrd {
    /// Wraps the raw archive bytes.
    pub fn new(initrd: Vec<u8>) -> (r: Self)
        ensures
            r@ == initrd@,
    {
        Self { initrd_raw: initrd }
    }

    /// Tries to read `filename` from the initrd.
    ///
    /// Returns `None` if `filename` does not exist.
    ///
    /// Currently the only supported file system is ustar.
    pub fn read_file(&self, filename: &str) -> (r: Option<&[u8]>)
        ensures
            match ustar::spec_ustar_lookup(self@, filename.spec_bytes(), 0) {
                Some(loc) => r matches Some(f) && f@ == self@.subrange(loc.0, loc.0 + loc.1),
                None => r is None,
            },
    {
        ustar::read_ustar(self.initrd_raw.as_slice(), filename)
    }

    /// Returns the initrd file's size in bytes.
    pub fn size(&self) -> (r: usize)
        ensures
            r == self@.len(),
    {
        self.initrd_raw.len()
    }
}

} // verus!
