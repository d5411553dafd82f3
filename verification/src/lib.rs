use vstd::prelude::*;

pub mod bytes;
pub mod fat;
pub mod gpt;
pub mod mbr;
pub mod pxe;

verus! {

/// One file to be placed in a filesystem or folder being built: a
/// destination path (segments separated by `/`, as bytes) and the file's
/// contents.
pub struct FileEntry {
    pub path: Vec<u8>,
    pub data: Vec<u8>,
}

/// The fixed name under which the kernel binary is stored, both in the boot
/// partition and in the PXE folder; the bootloader looks the kernel up under
/// this exact name.
pub open spec fn kernel_file_name() -> Seq<u8> {
    seq![107u8, 101u8, 114u8, 110u8, 101u8, 108u8, 45u8, 120u8, 56u8, 54u8, 95u8, 54u8, 52u8]
}

/// The kernel file name, as bytes.
pub fn kernel_file_name_bytes() -> (r: Vec<u8>)
    ensures
        r@ == kernel_file_name(),
{
    let mut r: Vec<u8> = Vec::new();
    r.push(107u8);
    r.push(101u8);
    r.push(114u8);
    r.push(110u8);
    r.push(101u8);
    r.push(108u8);
    r.push(45u8);
    r.push(120u8);
    r.push(56u8);
    r.push(54u8);
    r.push(95u8);
    r.push(54u8);
    r.push(52u8);
    assert(r@ =~= kernel_file_name());
    r
}

/// The fixed destination path of the UEFI bootloader inside the boot
/// partition: `efi/boot/bootx64.efi`, the path UEFI firmware loads from a
/// removable disk.
pub open spec fn bootx64_path() -> Seq<u8> {
    seq![
        101u8, 102u8, 105u8, 47u8, 98u8, 111u8, 111u8, 116u8, 47u8, 98u8, 111u8, 111u8, 116u8,
        120u8, 54u8, 52u8, 46u8, 101u8, 102u8, 105u8,
    ]
}

/// The bootloader's destination path, as bytes.
pub fn bootx64_path_bytes() -> (r: Vec<u8>)
    ensures
        r@ == bootx64_path(),
{
    let mut r: Vec<u8> = Vec::new();
    r.push(101u8);
    r.push(102u8);
    r.push(105u8);
    r.push(47u8);
    r.push(98u8);
    r.push(111u8);
    r.push(111u8);
    r.push(116u8);
    r.push(47u8);
    r.push(98u8);
    r.push(111u8);
    r.push(111u8);
    r.push(116u8);
    r.push(120u8);
    r.push(54u8);
    r.push(52u8);
    r.push(46u8);
    r.push(101u8);
    r.push(102u8);
    r.push(105u8);
    assert(r@ =~= bootx64_path());
    r
}

/// Creates the bootable FAT partition image: a FAT volume holding the UEFI
/// bootloader under `efi/boot/bootx64.efi` and the kernel under the fixed
/// kernel file name.
///
/// The two fixed paths are well formed and cannot collide, so the only
/// possible failure is a capacity overflow — and success is owed whenever
/// each blob is at most 16 MiB. On success the image is a whole number of
/// 512-byte sectors, carries the boot signature, and holds both input
/// blobs verbatim at their recorded sector-aligned offsets.
pub fn create_boot_partition(bootloader: &Vec<u8>, kernel: &Vec<u8>) -> (r: Result<
    fat::FatImage,
    BuildError,
>)
    ensures
        r matches Err(e) ==> e == BuildError::Capacity,
        bootloader@.len() <= 0x0100_0000 && kernel@.len() <= 0x0100_0000 ==> r is Ok,
        r matches Ok(fi) ==> {
            &&& fat::fat_header_ok(fi.bytes@)
            &&& fi.bytes@.len() % 512 == 0
            &&& fi.file_offsets@.len() == 2
            &&& fi.file_offsets@[0] % 512 == 0
            &&& fi.file_offsets@[0] + bootloader@.len() <= fi.bytes@.len()
            &&& fi.bytes@.subrange(
                fi.file_offsets@[0] as int,
                fi.file_offsets@[0] + bootloader@.len(),
            ) == bootloader@
            &&& fi.file_offsets@[1] % 512 == 0
            &&& fi.file_offsets@[1] + kernel@.len() <= fi.bytes@.len()
            &&& fi.bytes@.subrange(
                fi.file_offsets@[1] as int,
                fi.file_offsets@[1] + kernel@.len(),
            ) == kernel@
            &&& (bootloader@.len() > 0 && kernel@.len() > 0 ==> fi.file_offsets@[0]
                + bootloader@.len() <= fi.file_offsets@[1])
        },
{
    let mut files: Vec<FileEntry> = Vec::new();
    files.push(FileEntry { path: bootx64_path_bytes(), data: bytes::clone_bytes(bootloader) });
    files.push(FileEntry { path: kernel_file_name_bytes(), data: bytes::clone_bytes(kernel) });
    proof {
        assert(fat::path_ok(bootx64_path()));
        assert(fat::path_ok(kernel_file_name()));
        assert(fat::all_paths_ok(files@));
        assert(!fat::entries_collide(files@[0].path@, files@[1].path@)) by {
            assert(bootx64_path()[13] != 47u8);
            assert(bootx64_path().len() != kernel_file_name().len());
        }
        assert(!fat::has_collision(files@));
        if bootloader@.len() <= 0x0100_0000 && kernel@.len() <= 0x0100_0000 {
            assert(fat::fat_inputs_fit(files@)) by {
                assert(files@[0].path@.len() == 20 && files@[1].path@.len() == 13);
                assert(files@[0].data@.len() <= 0x0100_0000 && files@[1].data@.len()
                    <= 0x0100_0000);
            }
        }
    }
    let r = fat::create_fat_filesystem(&files);
    match r {
        Ok(fi) => {
            proof {
                assert(fat::placement_at(files@, fi.bytes@, fi.file_offsets@, 0));
                assert(fat::placement_at(files@, fi.bytes@, fi.file_offsets@, 1));
            }
            Ok(fi)
        },
        Err(e) => Err(e),
    }
}

/// Creates the UEFI disk image: the finished FAT boot partition wrapped in
/// a GUID Partition Table with a protective MBR, mirrored headers with
/// valid CRC32 fields, and the partition aligned to 1 MiB. The whole image
/// is pinned byte for byte by [`gpt::gpt_disk_spec`].
pub fn create_uefi_disk_image(boot_partition: &Vec<u8>) -> (r: Result<Vec<u8>, BuildError>)
    ensures
        !gpt::gpt_fits(boot_partition@) ==> r == Err::<Vec<u8>, BuildError>(BuildError::Capacity),
        gpt::gpt_fits(boot_partition@) ==> r is Ok && r->Ok_0@ == gpt::gpt_disk_spec(
            boot_partition@,
        ),
{
    gpt::create_gpt_disk(boot_partition)
}

/// Creates the BIOS disk image: the boot sector (partition table patched
/// in place), the second-stage loader from sector 1, and the FAT boot
/// partition at the following sector boundary. The whole image is pinned
/// byte for byte by [`mbr::mbr_disk_spec`].
pub fn create_bios_disk_image(
    boot_sector: &Vec<u8>,
    second_stage: &Vec<u8>,
    boot_partition: &Vec<u8>,
) -> (r: Result<Vec<u8>, BuildError>)
    ensures
        !mbr::boot_sector_ok(boot_sector@) ==> r == Err::<Vec<u8>, BuildError>(BuildError::Format),
        mbr::boot_sector_ok(boot_sector@) && !mbr::mbr_fits(second_stage@, boot_partition@) ==> r
            == Err::<Vec<u8>, BuildError>(BuildError::Capacity),
        mbr::boot_sector_ok(boot_sector@) && mbr::mbr_fits(second_stage@, boot_partition@) ==> r
            is Ok && r->Ok_0@ == mbr::mbr_disk_spec(boot_sector@, second_stage@, boot_partition@),
{
    mbr::create_mbr_disk(boot_sector, second_stage, boot_partition)
}

/// Lays out the folder served over TFTP for UEFI network boot: the
/// bootloader under the fixed PXE file name, the kernel under the fixed
/// kernel file name.
pub fn create_uefi_pxe_tftp_folder(bootloader: &Vec<u8>, kernel: &Vec<u8>) -> (r: Vec<FileEntry>)
    ensures
        r@.len() == 2,
        r@[0].path@ == pxe::pxe_bootloader_name(),
        r@[0].data@ == bootloader@,
        r@[1].path@ == kernel_file_name(),
        r@[1].data@ == kernel@,
{
    pxe::create_uefi_tftp_folder(bootloader, kernel)
}

/// The ways a disk-image builder can fail.
///
/// `Format`: an input blob or destination path is malformed (bad boot-sector
/// signature, ill-formed path). `Capacity`: the computed geometry cannot
/// represent the requested content within the format's limits. `Collision`:
/// two entries claim the same destination path, or a path is used both as a
/// file and as a directory.
#[derive(Clone, Copy, Debug, PartialEq, Eq, Structural)]
pub enum BuildError {
    Format,
    Capacity,
    Collision,
}

} // verus!
