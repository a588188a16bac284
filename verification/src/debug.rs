//! A log file next to the running image.
//!
//! The debug sink is a file created on the volume the image was loaded
//! from, named after the image's own file with an extra extension.  Every
//! step can fail — the device may expose no filesystem, the volume may not
//! open, the extension may not encode, the file may not create — and each
//! failure names the step that broke; a root handle opened along the way
//! is closed again on every path.

use vstd::prelude::*;

use crate::boot::BootServices;
use crate::filesystem::{has_terminal_info, File, FileAttributes, FileCreateError};
use crate::pointer::Owned;
use crate::image::LoadedImage;
use crate::path::{bytes_to_units, media_payload_wf, Path, PathNode, MEDIA_FILE_SUBTYPE, MEDIA_TYPE};
use crate::status::{Status, SUCCESS};
use crate::string::{encode_units, unit_char, EfiChar, EfiString};

verus! {

/// The units of the log file's name: the image file's name, a full stop,
/// and the extension, re-terminated.
pub open spec fn debug_name_units(name: Seq<u16>, ext: Seq<char>) -> Seq<u16> {
    name.drop_last().push(0x2e) + encode_units(ext) + seq![0u16]
}

/// A debug sink backed by a file on the image's own volume.
#[derive(Debug)]
pub struct DebugFile {
    /// The open log file, to be closed exactly once.
    pub file: Owned<File>,
}

/// Why the debug file could not be set up.
#[derive(Debug)]
pub enum DebugFileError {
    /// The device the image was loaded from exposes no filesystem.
    UnsupportedImageLocation,
    /// The volume's root directory would not open: the image path, and the
    /// host's status.
    OpenRootFailed(Path, Status),
    /// The extension holds a character that does not fit the host's
    /// strings.
    UnsupportedExtension,
    /// The file could not be created: the name tried, and why.
    CreateFileFailed(EfiString, FileCreateError),
}

impl DebugFile {
    /// Creates the log file next to the image: `ext` is the extra
    /// extension, without its leading dot.
    ///
    /// The image's own file name is read from the leading media file-path
    /// record of its device path; a full stop and the extension are
    /// appended; the file is created on the image's volume.  The root
    /// handle opened along the way is closed again before returning,
    /// whatever the outcome.
    pub fn next_to_image(bs: &mut BootServices, im: &mut LoadedImage, ext: &str) -> (r: Result<
        DebugFile,
        DebugFileError,
    >)
        requires
            old(bs).wf(),
            old(bs).next_handle + 2 < u64::MAX,
            old(im).file_path.wf(),
            old(im).file_path.records().len() > 0,
            old(im).file_path.records()[0].0 == MEDIA_TYPE,
            old(im).file_path.records()[0].1 == MEDIA_FILE_SUBTYPE,
            media_payload_wf(old(im).file_path.records()[0].2),
            bytes_to_units(old(im).file_path.records()[0].2).len() + ext@.len() + 8 < usize::MAX,
            (old(im).device.file_system matches Some(fs) && fs.open_responses@.len() >= 1
                && fs.open_responses@[0].status.0 == SUCCESS) ==> ({
                let script = (old(im).device.file_system->0).open_responses@[0].script;
                &&& script.open_responses@.len() >= 1
                &&& (script.open_responses@[0].status.0 == SUCCESS ==> ({
                    let child = script.open_responses@[0].script;
                    &&& has_terminal_info(child)
                    &&& old(bs).pool_next + crate::filesystem::info_demand(
                        child.info_events@,
                        crate::filesystem::info_layout(1),
                    ) <= old(bs).pool_mem@.len()
                }))
            }),
            old(im).device.file_system matches Some(fs) ==> fs.open_responses@.len() >= 1,
        ensures
            final(bs).wf(),
            final(bs).hdr == old(bs).hdr,
            final(bs).memory_map_events@ == old(bs).memory_map_events@,
            old(im).device.file_system is None ==> (r matches Err(e) && e
                is UnsupportedImageLocation && *final(bs) == *old(bs)),
            (old(im).device.file_system matches Some(fs)
                && fs.open_responses@[0].status.0 != SUCCESS) ==> (r matches Err(e) && (
            e matches DebugFileError::OpenRootFailed(p, st) && p@ == old(im).file_path@ && st
                == (old(im).device.file_system->0).open_responses@[0].status)),
            (old(im).device.file_system matches Some(fs)
                && fs.open_responses@[0].status.0 == SUCCESS && (exists|i: int|
                0 <= i < ext@.len() && !unit_char(#[trigger] ext@[i]))) ==> (r matches Err(e) && e
                is UnsupportedExtension && final(bs).closed_handles@ == old(
                bs,
            ).closed_handles@.push(old(bs).next_handle)),
            r matches Err(DebugFileError::CreateFileFailed(name, why)) ==> (name@
                == debug_name_units(bytes_to_units(old(im).file_path.records()[0].2), ext@)
                && old(im).device.file_system is Some && (old(
                im,
            ).device.file_system->0).open_responses@[0].status.0 == SUCCESS),
            r matches Ok(d) ==> ({
                &&& d.file.dtor == crate::pointer::Dtor::Function(
                    crate::pointer::ReleaseFn::CloseHandle,
                )
                &&& d.file.raw == d.file.value.handle
                &&& d.file.value.handle == old(bs).next_handle + 1
                &&& final(bs).open_handles@.contains(d.file.value.handle)
                &&& final(bs).closed_handles@ == old(bs).closed_handles@.push(
                    old(bs).next_handle,
                )
            }),
    {
        // Find the filesystem on the image's device.
        if im.device.file_system.is_none() {
            return Err(DebugFileError::UnsupportedImageLocation);
        }
        let fs = match &mut im.device.file_system {
            Some(v) => v,
            None => {
                proof {
                    assert(false);
                }
                return Err(DebugFileError::UnsupportedImageLocation);
            },
        };
        // Open the root of the volume.
        let root = match fs.open(bs) {
            Ok(v) => v,
            Err(e) => {
                let p = im.file_path.to_path_buf().as_path();
                return Err(DebugFileError::OpenRootFailed(p, e));
            },
        };
        let mut root = root;
        // Build the log file's name from the image's own.
        let name = match im.file_path.read() {
            PathNode::MediaFilePath(v) => v,
        };
        let mut path = name.to_efi_string();
        path.push(EfiChar::full_stop());
        if path.push_str(ext).is_err() {
            proof {
                assert(bs.open_handles@.last() == root.raw);
            }
            root.release(bs);
            return Err(DebugFileError::UnsupportedExtension);
        }
        // Create the file, then let go of the root either way.
        let created = root.value.create(bs, &path.as_str(), FileAttributes::empty());
        match created {
            Ok(file) => {
                proof {
                    let s0 = bs.open_handles@;
                    assert(s0[s0.len() - 2] == root.raw);
                    assert(s0[s0.len() - 1] == file.value.handle);
                    assert(s0.contains(root.raw));
                    assert(s0.index_of(root.raw) == s0.len() - 2) by {
                        let w = s0.index_of(root.raw);
                        assert(s0[w] == root.raw);
                        if w < s0.len() - 2 {
                            assert(s0[w] != s0[s0.len() - 2]);
                        }
                        if w == s0.len() - 1 {
                            assert(root.raw != file.value.handle);
                        }
                    }
                }
                root.release(bs);
                proof {
                    assert(bs.open_handles@[bs.open_handles@.len() - 1] == file.value.handle);
                    assert(bs.open_handles@.contains(file.value.handle));
                }
                Ok(DebugFile { file })
            },
            Err(e) => {
                proof {
                    assert(bs.open_handles@[bs.open_handles@.len() - 1] == root.raw);
                    assert(bs.open_handles@.contains(root.raw));
                    assert(path@ =~= debug_name_units(
                        bytes_to_units(old(im).file_path.records()[0].2),
                        ext@,
                    ));
                }
                root.release(bs);
                Err(DebugFileError::CreateFileFailed(path, e))
            },
        }
    }
}

} // verus!
