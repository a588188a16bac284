//! The running image and what the host loaded it from.

use vstd::prelude::*;

use crate::device::Device;
use crate::path::Path;

verus! {

/// The host's handle for a loaded image.
#[derive(Clone, Copy, PartialEq, Eq, Structural, Debug)]
pub struct Image {
    /// The raw host handle.
    pub handle: u64,
}

/// What the host records about a loaded image: the device it came from,
/// the path of its file on that device, and where it sits in memory.
#[derive(Debug)]
pub struct LoadedImage {
    /// The device the image was loaded from.
    pub device: Device,
    /// The path of the image's file on that device.
    pub file_path: Path,
    /// The address the image was loaded at.
    pub image_base: u64,
}

impl LoadedImage {
    /// The device the image was loaded from.
    pub fn device(&self) -> (r: &Device)
        ensures
            *r == self.device,
    {
        &self.device
    }

    /// The path of the image's file on that device.
    pub fn file_path(&self) -> (r: &Path)
        ensures
            *r == self.file_path,
    {
        &self.file_path
    }

    /// The address the image was loaded at.
    pub fn image_base(&self) -> (r: u64)
        ensures
            r == self.image_base,
    {
        self.image_base
    }
}

} // verus!
