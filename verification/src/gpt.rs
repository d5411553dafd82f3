//! GPT (UEFI) disk image builder.
//!
//! The UEFI disk image wraps a finished FAT partition in a GUID Partition
//! Table: a protective MBR at sector 0, the primary header and partition
//! array, the EFI System Partition aligned to 1 MiB (sector 2048), and the
//! mirrored backup array and header at the end of the disk. The whole image
//! is pinned byte for byte by [`gpt_disk_spec`].
//!
//! All GUIDs written here are fixed constants, so builds are reproducible:
//! the same FAT partition always yields the same disk image.
use vstd::prelude::*;

use crate::BuildError;
use crate::bytes::{le32, le64, zeros, push_byte, push_u32le, push_u64le, push_zeros, push_bytes,
    push_all};
use crate::mbr::{sectors_for, mbr_partition_entry};

verus! {

/// The IEEE CRC32 of a byte sequence, as `crc32fast` computes it.
pub uninterp spec fn crc32_of(s: Seq<u8>) -> u32;

/// Relies on `crc32fast::hash`: the IEEE CRC32 checksum of the bytes, a
/// function of the bytes alone.
#[verifier::external_body]
fn crc32(data: &Vec<u8>) -> (r: u32)
    ensures
        r == crc32_of(data@),
{
    crc32fast::hash(data.as_slice())
}

/// The EFI System Partition type GUID (C12A7328-F81F-11D2-BA4B-00A0C93EC93B)
/// in its on-disk byte order.
pub open spec fn esp_type_guid() -> Seq<u8> {
    seq![
        0x28u8, 0x73u8, 0x2au8, 0xc1u8, 0x1fu8, 0xf8u8, 0xd2u8, 0x11u8,
        0xbau8, 0x4bu8, 0x00u8, 0xa0u8, 0xc9u8, 0x3eu8, 0xc9u8, 0x3bu8,
    ]
}

/// Fixed disk GUID, chosen once so that builds are byte-reproducible.
pub open spec fn disk_guid() -> Seq<u8> {
    seq![
        0x8du8, 0x33u8, 0x9au8, 0x62u8, 0x11u8, 0x7cu8, 0x40u8, 0x47u8,
        0x9eu8, 0x4du8, 0x05u8, 0x3cu8, 0x27u8, 0x61u8, 0x95u8, 0x10u8,
    ]
}

/// Fixed unique GUID of the boot partition, chosen once so that builds are
/// byte-reproducible.
pub open spec fn partition_guid() -> Seq<u8> {
    seq![
        0xc3u8, 0x7au8, 0x24u8, 0x51u8, 0x90u8, 0x1eu8, 0x4cu8, 0x8fu8,
        0xb1u8, 0x6au8, 0x70u8, 0x5eu8, 0x42u8, 0x88u8, 0x13u8, 0x7eu8,
    ]
}

/// First LBA of the data partition: 2048 sectors = 1 MiB alignment.
pub const PARTITION_START_LBA: u64 = 2048;

/// Total sectors of the GPT disk wrapping a FAT partition of `fat_len`
/// bytes: protective MBR + primary header + primary array + padding up to
/// 1 MiB + the partition itself + backup array + backup header.
pub open spec fn gpt_total_sectors(fat_len: nat) -> nat {
    2048 + sectors_for(fat_len) + 33
}

/// The image fits in memory.
pub open spec fn gpt_fits(fat: Seq<u8>) -> bool {
    512 * gpt_total_sectors(fat.len()) <= usize::MAX
}

/// The single partition-array entry describing the EFI System Partition,
/// followed by the 127 empty entries; one full copy of the partition array.
pub open spec fn gpt_array_spec(fat_len: nat) -> Seq<u8> {
    esp_type_guid() + partition_guid() + le64(PARTITION_START_LBA) + le64(
        (2048 + sectors_for(fat_len) - 1) as u64,
    ) + le64(0) + zeros(72) + zeros((16384 - 128) as nat)
}

/// A GPT header's 92-byte body with its own CRC field still zero. The
/// backup header mirrors the primary with the LBA fields swapped and its
/// own array location, so those stand as parameters.
pub open spec fn gpt_header_body(
    current_lba: u64,
    backup_lba: u64,
    array_lba: u64,
    fat_len: nat,
    array_crc: u32,
) -> Seq<u8> {
    seq![0x45u8, 0x46u8, 0x49u8, 0x20u8, 0x50u8, 0x41u8, 0x52u8, 0x54u8]  // "EFI PART"
     + le32(0x00010000) + le32(92) + le32(0) + le32(0) + le64(current_lba) + le64(backup_lba)
        + le64(34) + le64((2048 + sectors_for(fat_len) - 1) as u64) + disk_guid() + le64(array_lba)
        + le32(128) + le32(128) + le32(array_crc)
}

/// A full header sector: the header body with its CRC32 (computed over the
/// body with the CRC field zeroed) spliced in at offset 16, padded to 512
/// bytes.
pub open spec fn gpt_header_sector(
    current_lba: u64,
    backup_lba: u64,
    array_lba: u64,
    fat_len: nat,
    array_crc: u32,
) -> Seq<u8> {
    let body = gpt_header_body(current_lba, backup_lba, array_lba, fat_len, array_crc);
    body.subrange(0, 16) + le32(crc32_of(body)) + body.subrange(20, 92) + zeros(420)
}

/// The protective MBR sector: a single partition entry of type `0xEE`
/// spanning the whole disk (its sector count capped at the 32-bit field's
/// maximum), so that legacy tools see the disk as occupied.
pub open spec fn protective_mbr_spec(fat_len: nat) -> Seq<u8> {
    zeros(446) + mbr_partition_entry(
        0x00u8,
        0xeeu8,
        1,
        if gpt_total_sectors(fat_len) - 1 > 0xffff_ffff {
            0xffff_ffffu32
        } else {
            (gpt_total_sectors(fat_len) - 1) as u32
        },
    ) + zeros(48) + seq![0x55u8, 0xaau8]
}

/// The full UEFI disk image, byte for byte.
pub open spec fn gpt_disk_spec(fat: Seq<u8>) -> Seq<u8> {
    let f = sectors_for(fat.len());
    let total = gpt_total_sectors(fat.len());
    let array_crc = crc32_of(gpt_array_spec(fat.len()));
    protective_mbr_spec(fat.len()) + gpt_header_sector(
        1,
        (total - 1) as u64,
        2,
        fat.len(),
        array_crc,
    ) + gpt_array_spec(fat.len()) + zeros((2014 * 512) as nat) + fat + zeros(
        (512 * f - fat.len()) as nat,
    ) + gpt_array_spec(fat.len()) + gpt_header_sector(
        (total - 1) as u64,
        1,
        (2048 + f) as u64,
        fat.len(),
        array_crc,
    )
}

/// Builds one copy of the partition array.
fn build_array(fat_sectors: u64) -> (r: Vec<u8>)
    requires
        fat_sectors <= u64::MAX - 2047,
    ensures
        forall|n: nat| fat_sectors == sectors_for(n) ==> r@ == gpt_array_spec(n),
        r@.len() == 16384,
{
    let mut a: Vec<u8> = Vec::new();
    // ESP type GUID
    a.push(0x28u8);
    a.push(0x73u8);
    a.push(0x2au8);
    a.push(0xc1u8);
    a.push(0x1fu8);
    a.push(0xf8u8);
    a.push(0xd2u8);
    a.push(0x11u8);
    a.push(0xbau8);
    a.push(0x4bu8);
    a.push(0x00u8);
    a.push(0xa0u8);
    a.push(0xc9u8);
    a.push(0x3eu8);
    a.push(0xc9u8);
    a.push(0x3bu8);
    assert(a@ =~= esp_type_guid());
    // unique partition GUID
    a.push(0xc3u8);
    a.push(0x7au8);
    a.push(0x24u8);
    a.push(0x51u8);
    a.push(0x90u8);
    a.push(0x1eu8);
    a.push(0x4cu8);
    a.push(0x8fu8);
    a.push(0xb1u8);
    a.push(0x6au8);
    a.push(0x70u8);
    a.push(0x5eu8);
    a.push(0x42u8);
    a.push(0x88u8);
    a.push(0x13u8);
    a.push(0x7eu8);
    assert(a@ =~= esp_type_guid() + partition_guid());
    push_u64le(&mut a, 2048);
    push_u64le(&mut a, fat_sectors + 2047);
    push_u64le(&mut a, 0);
    push_zeros(&mut a, 72);
    push_zeros(&mut a, 16384 - 128);
    proof {
        assert forall|n: nat| fat_sectors == sectors_for(n) implies a@ == gpt_array_spec(n) by {
            assert(a@ =~= gpt_array_spec(n));
        }
    }
    a
}

/// Builds one GPT header sector, computing the header CRC over the body
/// with the CRC field zeroed.
fn build_header_sector(
    current_lba: u64,
    backup_lba: u64,
    array_lba: u64,
    fat_sectors: u64,
    array_crc: u32,
) -> (r: Vec<u8>)
    requires
        fat_sectors <= u64::MAX - 2047,
    ensures
        forall|n: nat| fat_sectors == sectors_for(n) ==> r@ == gpt_header_sector(
            current_lba,
            backup_lba,
            array_lba,
            n,
            array_crc,
        ),
        r@.len() == 512,
{
    let mut body: Vec<u8> = Vec::new();
    body.push(0x45u8);
    body.push(0x46u8);
    body.push(0x49u8);
    body.push(0x20u8);
    body.push(0x50u8);
    body.push(0x41u8);
    body.push(0x52u8);
    body.push(0x54u8);
    assert(body@ =~= seq![0x45u8, 0x46u8, 0x49u8, 0x20u8, 0x50u8, 0x41u8, 0x52u8, 0x54u8]);
    push_u32le(&mut body, 0x00010000);
    push_u32le(&mut body, 92);
    push_u32le(&mut body, 0);
    push_u32le(&mut body, 0);
    push_u64le(&mut body, current_lba);
    push_u64le(&mut body, backup_lba);
    push_u64le(&mut body, 34);
    push_u64le(&mut body, fat_sectors + 2047);
    // disk GUID
    body.push(0x8du8);
    body.push(0x33u8);
    body.push(0x9au8);
    body.push(0x62u8);
    body.push(0x11u8);
    body.push(0x7cu8);
    body.push(0x40u8);
    body.push(0x47u8);
    body.push(0x9eu8);
    body.push(0x4du8);
    body.push(0x05u8);
    body.push(0x3cu8);
    body.push(0x27u8);
    body.push(0x61u8);
    body.push(0x95u8);
    body.push(0x10u8);
    push_u64le(&mut body, array_lba);
    push_u32le(&mut body, 128);
    push_u32le(&mut body, 128);
    push_u32le(&mut body, array_crc);
    proof {
        assert forall|n: nat| fat_sectors == sectors_for(n) implies body@ == gpt_header_body(
            current_lba,
            backup_lba,
            array_lba,
            n,
            array_crc,
        ) by {
            assert(body@ =~= gpt_header_body(current_lba, backup_lba, array_lba, n, array_crc));
        }
    }
    let crc = crc32(&body);
    let mut sec: Vec<u8> = Vec::new();
    push_bytes(&mut sec, &body, 0, 16);
    push_u32le(&mut sec, crc);
    push_bytes(&mut sec, &body, 20, 92);
    push_zeros(&mut sec, 420);
    sec
}

/// Builds the UEFI disk image wrapping the given FAT partition.
///
/// Succeeds exactly when the image fits in memory; the result is then the
/// byte sequence [`gpt_disk_spec`] describes.
pub fn create_gpt_disk(fat: &Vec<u8>) -> (r: Result<Vec<u8>, BuildError>)
    ensures
        !gpt_fits(fat@) ==> r == Err::<Vec<u8>, BuildError>(BuildError::Capacity),
        gpt_fits(fat@) ==> r is Ok && r->Ok_0@ == gpt_disk_spec(fat@),
{
    let f: u64 = fat.len() as u64 / 512 + if fat.len() % 512 != 0 {
        1u64
    } else {
        0u64
    };
    assert(f == sectors_for(fat@.len()));
    let total: u64 = 2048 + f + 33;
    if !(total <= usize::MAX as u64 / 512) {
        proof {
            assert(512 * total > usize::MAX) by (nonlinear_arith)
                requires
                    total > usize::MAX as u64 / 512,
            ;
        }
        return Err(BuildError::Capacity);
    }
    proof {
        assert(512 * total <= usize::MAX) by (nonlinear_arith)
            requires
                total <= usize::MAX as u64 / 512,
        ;
        assert(512 * total == 512 * 2081 + 512 * f) by (nonlinear_arith)
            requires
                total == 2081 + f,
        ;
        assert(fat@.len() <= 512 * f);
    }
    let array = build_array(f);
    let array_crc = crc32(&array);
    let primary = build_header_sector(1, total - 1, 2, f, array_crc);
    let backup = build_header_sector(total - 1, 1, 2048 + f, f, array_crc);
    let mut img: Vec<u8> = Vec::new();
    // protective MBR
    push_zeros(&mut img, 446);
    let psize: u32 = if total - 1 > 0xffff_ffff {
        0xffff_ffffu32
    } else {
        (total - 1) as u32
    };
    crate::mbr::push_mbr_entry(&mut img, 0x00, 0xee, 1, psize);
    push_zeros(&mut img, 48);
    push_byte(&mut img, 0x55);
    push_byte(&mut img, 0xaa);
    assert(img@ =~= protective_mbr_spec(fat@.len()));
    push_all(&mut img, &primary);
    push_all(&mut img, &array);
    push_zeros(&mut img, 2014 * 512);
    assert(img@.len() == 2048 * 512);
    push_all(&mut img, fat);
    push_zeros(&mut img, (512 * f - fat.len() as u64) as usize);
    assert(img@.len() == 2048 * 512 + 512 * f);
    push_all(&mut img, &array);
    push_all(&mut img, &backup);
    assert(img@.len() == 512 * total);
    assert(img@ == gpt_disk_spec(fat@));
    Ok(img)
}

/// LAW: the GPT builder is deterministic — the image is a function of the
/// FAT partition bytes alone, so two builds from identical inputs produce
/// byte-identical disk images.
pub proof fn lemma_gpt_deterministic(fat1: Seq<u8>, fat2: Seq<u8>)
    requires
        fat1 == fat2,
    ensures
        gpt_disk_spec(fat1) == gpt_disk_spec(fat2),
{
}

/// LAW: in the UEFI disk image both GPT headers' CRC32 fields validate
/// against their own bodies (recomputing the checksum over the 92-byte
/// header with the CRC field zeroed gives the stored value), each header's
/// partition-array CRC32 validates against the array copy it points at, and
/// the EFI System Partition starts at sector 2048 — a multiple of 2048 —
/// with the FAT partition bytes stored there verbatim.
pub proof fn lemma_gpt_layout(fat: Seq<u8>)
    requires
        gpt_fits(fat),
    ensures
        ({
            let img = gpt_disk_spec(fat);
            let total = gpt_total_sectors(fat.len());
            let f = sectors_for(fat.len());
            let phdr = img.subrange(512int, 604int);
            let bhdr = img.subrange(512 * (total - 1) as int, 512 * (total - 1) as int + 92);
            &&& img.len() == 512 * total
            &&& img.len() % 512 == 0
            &&& img[510] == 0x55u8
            &&& img[511] == 0xaau8
            // primary header CRC validates against its own body
            &&& phdr.subrange(16, 20) == le32(
                crc32_of(phdr.subrange(0, 16) + le32(0) + phdr.subrange(20, 92)),
            )
            // backup header CRC validates against its own body
            &&& bhdr.subrange(16, 20) == le32(
                crc32_of(bhdr.subrange(0, 16) + le32(0) + bhdr.subrange(20, 92)),
            )
            // each header's array CRC validates against the array it points at
            &&& phdr.subrange(88, 92) == le32(crc32_of(img.subrange(1024int, 17408int)))
            &&& bhdr.subrange(88, 92) == le32(
                crc32_of(
                    img.subrange(
                        512 * (2048 + f) as int,
                        512 * (2048 + f) as int + 16384,
                    ),
                ),
            )
            // the ESP starts at sector 2048, 1 MiB aligned
            &&& img.subrange(1056int, 1064int) == le64(PARTITION_START_LBA)
            &&& PARTITION_START_LBA % 2048 == 0
            // and the FAT partition bytes stand there verbatim
            &&& img.subrange(1048576int, 1048576int + fat.len() as int) == fat
        }),
{
    let img = gpt_disk_spec(fat);
    let total = gpt_total_sectors(fat.len());
    let f = sectors_for(fat.len());
    let array_crc = crc32_of(gpt_array_spec(fat.len()));
    let pbody = gpt_header_body(1, (total - 1) as u64, 2, fat.len(), array_crc);
    let bbody = gpt_header_body((total - 1) as u64, 1, (2048 + f) as u64, fat.len(), array_crc);
    assert(fat.len() <= 512 * f);
    assert(img.len() == 512 * total);
    let phdr = img.subrange(512int, 604int);
    let bhdr = img.subrange(512 * (total - 1) as int, 512 * (total - 1) as int + 92);
    assert(phdr =~= pbody.subrange(0, 16) + le32(crc32_of(pbody)) + pbody.subrange(20, 92));
    assert(bhdr =~= bbody.subrange(0, 16) + le32(crc32_of(bbody)) + bbody.subrange(20, 92));
    assert(phdr.subrange(0, 16) + le32(0) + phdr.subrange(20, 92) =~= pbody);
    assert(bhdr.subrange(0, 16) + le32(0) + bhdr.subrange(20, 92) =~= bbody);
    assert(phdr.subrange(16, 20) =~= le32(crc32_of(pbody)));
    assert(bhdr.subrange(16, 20) =~= le32(crc32_of(bbody)));
    assert(phdr.subrange(88, 92) =~= le32(array_crc));
    assert(bhdr.subrange(88, 92) =~= le32(array_crc));
    assert(img.subrange(1024int, 17408int) =~= gpt_array_spec(fat.len()));
    assert(img.subrange(512 * (2048 + f) as int, 512 * (2048 + f) as int + 16384) =~= gpt_array_spec(
        fat.len(),
    ));
    assert(img.subrange(1056int, 1064int) =~= le64(PARTITION_START_LBA));
    assert(img.subrange(1048576int, 1048576int + fat.len() as int) =~= fat);
    assert(img[510] == 0x55u8);
    assert(img[511] == 0xaau8);
}

} // verus!
