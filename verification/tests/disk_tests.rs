use bootloader::{
    create_bios_disk_image, create_uefi_disk_image, create_uefi_pxe_tftp_folder, BuildError,
};

fn pattern(n: usize, seed: u8) -> Vec<u8> {
    let mut v = Vec::with_capacity(n);
    for i in 0..n {
        v.push(((i as u32).wrapping_mul(17).wrapping_add(seed as u32) % 253) as u8);
    }
    v
}

fn boot_sector() -> Vec<u8> {
    let mut bs = pattern(512, 21);
    bs[510] = 0x55;
    bs[511] = 0xaa;
    bs
}

fn le32_at(img: &[u8], off: usize) -> u32 {
    u32::from_le_bytes([img[off], img[off + 1], img[off + 2], img[off + 3]])
}

fn le64_at(img: &[u8], off: usize) -> u64 {
    let mut b = [0u8; 8];
    b.copy_from_slice(&img[off..off + 8]);
    u64::from_le_bytes(b)
}

/// Scenario: a 512-byte boot sector, a 3000-byte (six sector) second
/// stage, and a 10 MiB FAT partition: the second stage occupies sectors 1
/// through 6 and the FAT partition starts at sector 7 with a matching
/// partition-table entry.
#[test]
fn mbr_scenario_layout() {
    let bs = boot_sector();
    let ss = pattern(3000, 33);
    let fat = pattern(10 * 1024 * 1024, 44);
    let img = create_bios_disk_image(&bs, &ss, &fat).unwrap();
    // boot signature (offsets 510 and 511)
    assert_eq!(img[510], 0x55);
    assert_eq!(img[511], 0xaa);
    // the boot code area is kept
    assert_eq!(&img[..446], &bs[..446]);
    // second partition slot: bootable, FAT with LBA addressing, starting
    // exactly where the FAT bytes begin
    assert_eq!(img[462], 0x80);
    assert_eq!(img[462 + 4], 0x0c);
    assert_eq!(le32_at(&img, 470), 7);
    assert_eq!(le32_at(&img, 474), (10 * 1024 * 1024) / 512);
    // second stage at sectors 1..=6
    assert_eq!(&img[512..512 + 3000], &ss[..]);
    // FAT partition verbatim from sector 7
    assert_eq!(&img[7 * 512..7 * 512 + fat.len()], &fat[..]);
    assert_eq!(img.len(), 512 * (1 + 6 + 20480));
    assert_eq!(img.len() % 512, 0);
}

/// A malformed boot sector (wrong length or missing signature) is
/// rejected with a format error.
#[test]
fn mbr_rejects_bad_boot_sector() {
    let ss = pattern(3000, 1);
    let fat = pattern(4096, 2);
    let short = pattern(511, 3);
    assert_eq!(create_bios_disk_image(&short, &ss, &fat).unwrap_err(), BuildError::Format);
    let mut nosig = pattern(512, 4);
    nosig[510] = 0;
    nosig[511] = 0;
    assert_eq!(create_bios_disk_image(&nosig, &ss, &fat).unwrap_err(), BuildError::Format);
}

/// The GPT image's checksums validate: each header's CRC32 over its own
/// body (CRC field zeroed) matches the stored field, each stored array
/// CRC32 matches the array, the EFI System Partition starts at sector
/// 2048, and the FAT bytes are stored there verbatim.
#[test]
fn gpt_checksums_validate() {
    let fat = pattern(1024 * 1024 + 300, 55);
    let img = create_uefi_disk_image(&fat).unwrap();
    assert_eq!(img.len() % 512, 0);
    // protective MBR
    assert_eq!(img[510], 0x55);
    assert_eq!(img[511], 0xaa);
    assert_eq!(img[446 + 4], 0xee);
    let total = img.len() / 512;
    for hdr in [512usize, (total - 1) * 512] {
        assert_eq!(&img[hdr..hdr + 8], b"EFI PART");
        let mut body = img[hdr..hdr + 92].to_vec();
        let stored = le32_at(&img, hdr + 16);
        for k in 16..20 {
            body[k] = 0;
        }
        assert_eq!(stored, crc32fast::hash(&body));
    }
    // primary and backup array CRCs
    let fat_sectors = (fat.len() + 511) / 512;
    let backup_array = (2048 + fat_sectors) * 512;
    let stored_primary = le32_at(&img, 512 + 88);
    let stored_backup = le32_at(&img, (total - 1) * 512 + 88);
    assert_eq!(stored_primary, crc32fast::hash(&img[1024..1024 + 16384]));
    assert_eq!(stored_backup, crc32fast::hash(&img[backup_array..backup_array + 16384]));
    // the ESP entry starts at sector 2048 — 1 MiB aligned
    assert_eq!(le64_at(&img, 1024 + 32), 2048);
    assert_eq!(2048 % 2048, 0);
    // FAT partition verbatim in the aligned data region
    assert_eq!(&img[2048 * 512..2048 * 512 + fat.len()], &fat[..]);
}

/// Idempotence: both disk builders give byte-identical images on
/// identical inputs.
#[test]
fn disk_builds_are_deterministic() {
    let bs = boot_sector();
    let ss = pattern(3000, 61);
    let fat = pattern(70000, 62);
    assert_eq!(
        create_bios_disk_image(&bs, &ss, &fat).unwrap(),
        create_bios_disk_image(&bs, &ss, &fat).unwrap()
    );
    assert_eq!(create_uefi_disk_image(&fat).unwrap(), create_uefi_disk_image(&fat).unwrap());
}

/// The PXE folder holds the bootloader under the fixed DHCP file name and
/// the kernel under the fixed kernel name; building twice gives the same
/// folder.
#[test]
fn pxe_folder_layout() {
    let bl = pattern(5000, 71);
    let kn = pattern(9000, 72);
    let folder = create_uefi_pxe_tftp_folder(&bl, &kn);
    assert_eq!(folder.len(), 2);
    assert_eq!(folder[0].path, b"bootloader".to_vec());
    assert_eq!(folder[0].data, bl);
    assert_eq!(folder[1].path, b"kernel-x86_64".to_vec());
    assert_eq!(folder[1].data, kn);
    let again = create_uefi_pxe_tftp_folder(&bl, &kn);
    assert_eq!(again[0].path, folder[0].path);
    assert_eq!(again[0].data, folder[0].data);
    assert_eq!(again[1].path, folder[1].path);
    assert_eq!(again[1].data, folder[1].data);
}

/// A UEFI disk wrapping an unaligned FAT length still comes out whole:
/// the partition region is padded to a full sector.
#[test]
fn gpt_pads_partial_sector() {
    let fat = pattern(700, 81);
    let img = create_uefi_disk_image(&fat).unwrap();
    assert_eq!(img.len(), 512 * (2048 + 2 + 33));
    assert_eq!(&img[2048 * 512..2048 * 512 + 700], &fat[..]);
    // the pad bytes are zero
    assert!(img[2048 * 512 + 700..2048 * 512 + 1024].iter().all(|&b| b == 0));
}
