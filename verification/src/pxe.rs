//! PXE/TFTP boot folder layout.
//!
//! Network boot needs no disk image: the firmware fetches the UEFI
//! bootloader (under the name given in the DHCP `filename` option) and the
//! bootloader then fetches the kernel under a fixed name. This module
//! computes that folder's contents; writing the files to disk is the
//! caller's concern.
use vstd::prelude::*;

use crate::FileEntry;
use crate::bytes::clone_bytes;
use crate::kernel_file_name;

verus! {

/// Name the DHCP `filename` option must point at: the UEFI bootloader.
pub open spec fn pxe_bootloader_name() -> Seq<u8> {
    seq![98u8, 111u8, 111u8, 116u8, 108u8, 111u8, 97u8, 100u8, 101u8, 114u8]
}

/// The file name of the PXE bootloader, as bytes.
pub fn pxe_bootloader_name_bytes() -> (r: Vec<u8>)
    ensures
        r@ == pxe_bootloader_name(),
{
    let mut r: Vec<u8> = Vec::new();
    r.push(98u8);
    r.push(111u8);
    r.push(111u8);
    r.push(116u8);
    r.push(108u8);
    r.push(111u8);
    r.push(97u8);
    r.push(100u8);
    r.push(101u8);
    r.push(114u8);
    assert(r@ =~= pxe_bootloader_name());
    r
}

/// Lays out the TFTP folder for UEFI network boot: the bootloader under the
/// fixed PXE name, and the kernel under the fixed kernel file name.
pub fn create_uefi_tftp_folder(bootloader: &Vec<u8>, kernel: &Vec<u8>) -> (r: Vec<FileEntry>)
    ensures
        r@.len() == 2,
        r@[0].path@ == pxe_bootloader_name(),
        r@[0].data@ == bootloader@,
        r@[1].path@ == kernel_file_name(),
        r@[1].data@ == kernel@,
{
    let mut out: Vec<FileEntry> = Vec::new();
    out.push(FileEntry { path: pxe_bootloader_name_bytes(), data: clone_bytes(bootloader) });
    out.push(FileEntry { path: crate::kernel_file_name_bytes(), data: clone_bytes(kernel) });
    out
}

} // verus!
