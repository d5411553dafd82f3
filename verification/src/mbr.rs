//! Legacy MBR disk image builder.
//!
//! The BIOS disk image interleaves three externally supplied blobs: the boot
//! sector at sector 0 (its partition table patched in place), the
//! second-stage loader from sector 1, and the FAT boot partition at the
//! next sector boundary after the second stage. The whole image is pinned
//! byte for byte by [`mbr_disk_spec`].
use vstd::prelude::*;

use crate::BuildError;
use crate::bytes::{le32, zeros, push_byte, push_u32le, push_zeros, push_bytes, push_all};

verus! {

/// Number of 512-byte sectors needed to hold `n` bytes.
pub open spec fn sectors_for(n: nat) -> nat {
    (n + 511) / 512
}

/// A boot sector is well-formed when it is exactly one sector long and ends
/// in the boot signature `0x55 0xAA`.
pub open spec fn boot_sector_ok(bs: Seq<u8>) -> bool {
    &&& bs.len() == 512
    &&& bs[510] == 0x55u8
    &&& bs[511] == 0xaau8
}

/// The computed layout stays within the partition table's 32-bit LBA fields
/// and the image fits in memory.
pub open spec fn mbr_fits(ss: Seq<u8>, fat: Seq<u8>) -> bool {
    &&& 1 + sectors_for(ss.len()) + sectors_for(fat.len()) <= 0xffff_ffff
    &&& 512 * (1 + sectors_for(ss.len()) + sectors_for(fat.len())) <= usize::MAX
}

/// One 16-byte legacy partition table entry. The CHS fields hold the
/// "LBA-only" sentinel `0xFF`; placement is given by the 32-bit LBA fields.
pub open spec fn mbr_partition_entry(status: u8, ptype: u8, start_lba: u32, num_sectors: u32) -> Seq<
    u8,
> {
    seq![status, 0xffu8, 0xffu8, 0xffu8, ptype, 0xffu8, 0xffu8, 0xffu8] + le32(start_lba) + le32(
        num_sectors,
    )
}

/// The full BIOS disk image, byte for byte: the boot sector's code area,
/// a partition entry pointing the loader at the second stage (sectors
/// `1..=K`), the bootable FAT partition entry (type `0x0C`, FAT32 with LBA
/// addressing), two unused entries, the boot signature, then the second
/// stage and the FAT partition each padded to a sector boundary.
pub open spec fn mbr_disk_spec(bs: Seq<u8>, ss: Seq<u8>, fat: Seq<u8>) -> Seq<u8> {
    bs.subrange(0, 446) + mbr_partition_entry(0x00u8, 0x20u8, 1, sectors_for(ss.len()) as u32)
        + mbr_partition_entry(
        0x80u8,
        0x0cu8,
        (1 + sectors_for(ss.len())) as u32,
        sectors_for(fat.len()) as u32,
    ) + zeros(32) + seq![0x55u8, 0xaau8] + ss + zeros((512 * sectors_for(ss.len()) - ss.len()) as nat)
        + fat + zeros((512 * sectors_for(fat.len()) - fat.len()) as nat)
}

/// Appends one legacy partition table entry.
pub(crate) fn push_mbr_entry(buf: &mut Vec<u8>, status: u8, ptype: u8, start_lba: u32, num_sectors: u32)
    requires
        old(buf)@.len() + 16 <= usize::MAX,
    ensures
        final(buf)@ == old(buf)@ + mbr_partition_entry(status, ptype, start_lba, num_sectors),
{
    push_byte(buf, status);
    push_byte(buf, 0xff);
    push_byte(buf, 0xff);
    push_byte(buf, 0xff);
    push_byte(buf, ptype);
    push_byte(buf, 0xff);
    push_byte(buf, 0xff);
    push_byte(buf, 0xff);
    push_u32le(buf, start_lba);
    push_u32le(buf, num_sectors);
    assert(buf@ =~= old(buf)@ + mbr_partition_entry(status, ptype, start_lba, num_sectors));
}

/// Builds the BIOS disk image from the boot sector, the second-stage
/// loader, and the finished FAT boot partition.
///
/// Succeeds exactly when the boot sector is well-formed and the layout fits
/// the partition table's 32-bit sector addressing; the result is then the
/// byte sequence [`mbr_disk_spec`] describes.
pub fn create_mbr_disk(bs: &Vec<u8>, ss: &Vec<u8>, fat: &Vec<u8>) -> (r: Result<
    Vec<u8>,
    BuildError,
>)
    ensures
        !boot_sector_ok(bs@) ==> r == Err::<Vec<u8>, BuildError>(BuildError::Format),
        boot_sector_ok(bs@) && !mbr_fits(ss@, fat@) ==> r == Err::<Vec<u8>, BuildError>(
            BuildError::Capacity,
        ),
        boot_sector_ok(bs@) && mbr_fits(ss@, fat@) ==> r is Ok && r->Ok_0@ == mbr_disk_spec(
            bs@,
            ss@,
            fat@,
        ),
{
    if !(bs.len() == 512 && bs[510] == 0x55u8 && bs[511] == 0xaau8) {
        return Err(BuildError::Format);
    }
    let k: u64 = ss.len() as u64 / 512 + if ss.len() % 512 != 0 {
        1u64
    } else {
        0u64
    };
    let f: u64 = fat.len() as u64 / 512 + if fat.len() % 512 != 0 {
        1u64
    } else {
        0u64
    };
    assert(k == sectors_for(ss@.len()));
    assert(f == sectors_for(fat@.len()));
    let total: u64 = 1 + k + f;
    if !(total <= 0xffff_ffff && 512 * total <= usize::MAX as u64) {
        return Err(BuildError::Capacity);
    }
    let total_bytes: usize = (512 * total) as usize;
    proof {
        assert(512 * total == 512 + 512 * k + 512 * f) by (nonlinear_arith)
            requires
                total == 1 + k + f,
        ;
        assert(ss@.len() <= 512 * k);
        assert(fat@.len() <= 512 * f);
    }
    let mut img: Vec<u8> = Vec::new();
    push_bytes(&mut img, bs, 0, 446);
    push_mbr_entry(&mut img, 0x00, 0x20, 1, k as u32);
    push_mbr_entry(&mut img, 0x80, 0x0c, (1 + k) as u32, f as u32);
    push_zeros(&mut img, 32);
    push_byte(&mut img, 0x55);
    push_byte(&mut img, 0xaa);
    assert(img@.len() == 512);
    push_all(&mut img, ss);
    push_zeros(&mut img, (512 * k - ss.len() as u64) as usize);
    assert(img@.len() == 512 + 512 * k);
    push_all(&mut img, fat);
    push_zeros(&mut img, (512 * f - fat.len() as u64) as usize);
    assert(img@.len() == total_bytes);
    assert(img@ =~= mbr_disk_spec(bs@, ss@, fat@));
    Ok(img)
}

/// LAW: in a well-formed BIOS disk image the boot signature stands at
/// offsets 510 and 511, the boot partition's table entry names the sector
/// where the FAT partition bytes actually begin, the FAT partition's bytes
/// appear there verbatim, and the image is a whole number of sectors.
pub proof fn lemma_mbr_layout(bs: Seq<u8>, ss: Seq<u8>, fat: Seq<u8>)
    requires
        boot_sector_ok(bs),
        mbr_fits(ss, fat),
    ensures
        mbr_disk_spec(bs, ss, fat).len() == 512 * (1 + sectors_for(ss.len()) + sectors_for(
            fat.len(),
        )),
        mbr_disk_spec(bs, ss, fat).len() % 512 == 0,
        mbr_disk_spec(bs, ss, fat)[510] == 0x55u8,
        mbr_disk_spec(bs, ss, fat)[511] == 0xaau8,
        // the boot (FAT) partition entry is the second slot, at offset 462;
        // its start-LBA field names the first sector after the second stage
        mbr_disk_spec(bs, ss, fat).subrange(470, 474) == le32(
            (1 + sectors_for(ss.len())) as u32,
        ),
        // and the FAT image bytes indeed begin at that sector
        mbr_disk_spec(bs, ss, fat).subrange(
            512 * (1 + sectors_for(ss.len())) as int,
            512 * (1 + sectors_for(ss.len())) as int + fat.len() as int,
        ) == fat,
{
    let img = mbr_disk_spec(bs, ss, fat);
    let k = sectors_for(ss.len());
    let f = sectors_for(fat.len());
    assert(ss.len() <= 512 * k);
    assert(fat.len() <= 512 * f);
    assert(img.len() == 512 * (1 + k + f));
    assert(img.subrange(470, 474) =~= le32((1 + k) as u32));
    assert(img.subrange(512 * (1 + k) as int, 512 * (1 + k) as int + fat.len() as int) =~= fat);
}

/// LAW: the MBR builder is deterministic — the image is a function of the
/// three input blobs alone, so two builds from identical inputs produce
/// byte-identical disk images.
pub proof fn lemma_mbr_deterministic(
    bs1: Seq<u8>,
    ss1: Seq<u8>,
    fat1: Seq<u8>,
    bs2: Seq<u8>,
    ss2: Seq<u8>,
    fat2: Seq<u8>,
)
    requires
        bs1 == bs2,
        ss1 == ss2,
        fat1 == fat2,
    ensures
        mbr_disk_spec(bs1, ss1, fat1) == mbr_disk_spec(bs2, ss2, fat2),
{
}

} // verus!
