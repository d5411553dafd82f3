//! FAT filesystem image builder.
//!
//! Builds a complete FAT12/16/32 volume, byte for byte, from a list of
//! (destination path, contents) entries: boot sector and BIOS parameter
//! block, two copies of the allocation table, the root directory, the
//! directory tree with short-name and long-name entries, and every file's
//! contents in freshly allocated cluster chains.
//!
//! The FAT variant is chosen by an explicit search: the smallest variant
//! (and, if need be, a larger cluster size) whose addressable cluster count
//! covers the content, since the variant boundaries are not proportional to
//! payload size.
use vstd::prelude::*;
use vstd::pervasive::VecAdditionalExecFns;

use crate::BuildError;
use crate::FileEntry;
use crate::bytes::{le16, push_byte, push_u16le, push_u32le, push_zeros, push_bytes, push_all};

verus! {

/// Bytes allowed inside a path segment: printable ASCII without the
/// characters the FAT naming rules forbid (`" * / : < > ? \ |`) and
/// without spaces.
pub open spec fn seg_char_ok(c: u8) -> bool {
    &&& 33 <= c <= 126
    &&& c != 34
    &&& c != 42
    &&& c != 47
    &&& c != 58
    &&& c != 60
    &&& c != 62
    &&& c != 63
    &&& c != 92
    &&& c != 124
}

/// A destination path is well formed when it is 1..=255 bytes of allowed
/// characters separated by single `/` bytes, with no leading, trailing or
/// doubled separator — so every segment is non-empty and no segment
/// escapes the volume root.
pub open spec fn path_ok(p: Seq<u8>) -> bool {
    &&& 1 <= p.len() <= 255
    &&& forall|i: int| 0 <= i < p.len() ==> (seg_char_ok(#[trigger] p[i]) || p[i] == 47)
    &&& p[0] != 47u8
    &&& p[p.len() - 1] != 47u8
    &&& forall|i: int| 0 <= i < p.len() - 1 ==> !(#[trigger] p[i] == 47u8 && p[i + 1] == 47u8)
}

/// `a` names a directory on the way to `b`.
pub open spec fn is_dir_prefix(a: Seq<u8>, b: Seq<u8>) -> bool {
    &&& a.len() < b.len()
    &&& b.subrange(0, a.len() as int) == a
    &&& b[a.len() as int] == 47u8
}

/// Two destination paths collide when they are equal or one is a directory
/// prefix of the other (the same name would have to be both a file and a
/// directory).
pub open spec fn entries_collide(a: Seq<u8>, b: Seq<u8>) -> bool {
    ||| a == b
    ||| is_dir_prefix(a, b)
    ||| is_dir_prefix(b, a)
}

/// Some pair of input entries collides.
pub open spec fn has_collision(files: Seq<FileEntry>) -> bool {
    exists|i: int, j: int|
        0 <= i < j < files.len() && entries_collide(files[i].path@, files[j].path@)
}

/// Every input path is well formed.
pub open spec fn all_paths_ok(files: Seq<FileEntry>) -> bool {
    forall|i: int| 0 <= i < files.len() ==> path_ok(#[trigger] files[i].path@)
}

/// Checks one path against [`path_ok`].
fn check_path(p: &Vec<u8>) -> (b: bool)
    ensures
        b == path_ok(p@),
{
    let n = p.len();
    if n < 1 || n > 255 {
        return false;
    }
    if p[0] == 47u8 || p[n - 1] == 47u8 {
        return false;
    }
    let mut i: usize = 0;
    while i < n
        invariant
            n == p@.len(),
            1 <= n <= 255,
            i <= n,
            forall|k: int| 0 <= k < i ==> (seg_char_ok(#[trigger] p@[k]) || p@[k] == 47),
            forall|k: int|
                0 <= k < i ==> !(#[trigger] p@[k] == 47u8 && k + 1 < n && p@[k + 1] == 47u8),
        decreases n - i,
    {
        let c = p[i];
        let ok = c >= 33 && c <= 126 && c != 34 && c != 42 && c != 58 && c != 60 && c != 62 && c
            != 63 && c != 92 && c != 124;
        if !ok {
            return false;
        }
        if c == 47u8 && i + 1 < n && p[i + 1] == 47u8 {
            return false;
        }
        i = i + 1;
    }
    true
}

/// Compares two paths for byte equality.
fn bytes_eq(a: &Vec<u8>, b: &Vec<u8>) -> (r: bool)
    ensures
        r == (a@ == b@),
{
    if a.len() != b.len() {
        assert(a@ != b@);
        return false;
    }
    let n = a.len();
    let mut i: usize = 0;
    while i < n
        invariant
            n == a@.len() == b@.len(),
            i <= n,
            forall|k: int| 0 <= k < i ==> a@[k] == b@[k],
        decreases n - i,
    {
        if a[i] != b[i] {
            return false;
        }
        i = i + 1;
    }
    assert(a@ =~= b@);
    true
}

/// Decides whether `a` is a directory prefix of `b`.
fn check_dir_prefix(a: &Vec<u8>, b: &Vec<u8>) -> (r: bool)
    ensures
        r == is_dir_prefix(a@, b@),
{
    if !(a.len() < b.len()) {
        return false;
    }
    if b[a.len()] != 47u8 {
        return false;
    }
    let n = a.len();
    let mut i: usize = 0;
    while i < n
        invariant
            n == a@.len() < b@.len(),
            i <= n,
            forall|k: int| 0 <= k < i ==> a@[k] == b@[k],
        decreases n - i,
    {
        if a[i] != b[i] {
            assert(b@.subrange(0, a@.len() as int)[i as int] != a@[i as int]);
            return false;
        }
        i = i + 1;
    }
    assert(b@.subrange(0, a@.len() as int) =~= a@);
    true
}

/// Decides whether two destination paths collide.
fn check_collide(a: &Vec<u8>, b: &Vec<u8>) -> (r: bool)
    ensures
        r == entries_collide(a@, b@),
{
    if bytes_eq(a, b) {
        return true;
    }
    if check_dir_prefix(a, b) {
        return true;
    }
    if check_dir_prefix(b, a) {
        return true;
    }
    false
}

/// Splits a well-formed path into its non-empty segments.
fn split_segments(p: &Vec<u8>) -> (r: Vec<Vec<u8>>)
    requires
        path_ok(p@),
    ensures
        1 <= r@.len() <= 255,
        2 * r@.len() <= p@.len() + 1,
        forall|k: int| 0 <= k < r@.len() ==> 1 <= (#[trigger] r@[k])@.len() <= 255,
        forall|k: int, i: int|
            0 <= k < r@.len() && 0 <= i < r@[k]@.len() ==> seg_char_ok(#[trigger] r@[k]@[i]),
{
    let n = p.len();
    let mut r: Vec<Vec<u8>> = Vec::new();
    let mut cur: Vec<u8> = Vec::new();
    let ghost mut s: int = 0;
    let mut i: usize = 0;
    while i < n
        invariant
            path_ok(p@),
            n == p@.len(),
            i <= n,
            0 <= s <= i,
            cur@ == p@.subrange(s, i as int),
            s == 0 || p@[s - 1] == 47u8,
            forall|k: int| s <= k < i ==> p@[k] != 47u8,
            r@.len() <= s,
            2 * r@.len() <= s,
            forall|k: int| 0 <= k < r@.len() ==> 1 <= (#[trigger] r@[k])@.len() <= 255,
            forall|k: int, t: int|
                0 <= k < r@.len() && 0 <= t < r@[k]@.len() ==> seg_char_ok(#[trigger] r@[k]@[t]),
        decreases n - i,
    {
        let c = p[i];
        if c == 47u8 {
            proof {
                // a separator cannot open the path nor follow another
                assert(i > 0);
                assert(p@[i - 1] != 47u8);
                assert(s < i);
            }
            r.push(cur);
            cur = Vec::new();
            proof {
                s = i + 1;
            }
            assert(cur@ =~= p@.subrange(s, i + 1));
        } else {
            cur.push(c);
            assert(cur@ =~= p@.subrange(s, i + 1));
        }
        i = i + 1;
    }
    proof {
        // the path does not end in a separator, so the last segment is
        // non-empty
        assert(p@[n - 1] != 47u8);
        assert(s < n);
    }
    r.push(cur);
    r
}

/// One directory of the tree being built: its parent's index and its name.
/// Index 0 is the root, whose name is empty.
struct DirInfo {
    parent: usize,
    name: Vec<u8>,
}

/// One file of the tree: the index of the directory holding it and its
/// name; the file at tree index `i` is input entry `i`.
struct FileInfo {
    dir: usize,
    name: Vec<u8>,
}

/// Structural bounds the later stages rely on: parents are in range and
/// every name is a non-empty segment of at most 255 bytes.
spec fn tree_wf(dirs: Seq<DirInfo>, fils: Seq<FileInfo>) -> bool {
    &&& 1 <= dirs.len()
    &&& forall|d: int|
        1 <= d < dirs.len() ==> (#[trigger] dirs[d]).parent < dirs.len() && 1 <= dirs[d].name@.len()
            <= 255
    &&& forall|i: int|
        0 <= i < fils.len() ==> (#[trigger] fils[i]).dir < dirs.len() && 1 <= fils[i].name@.len()
            <= 255
}

/// Finds the directory with the given parent and name, if already created.
fn find_dir(dirs: &Vec<DirInfo>, parent: usize, name: &Vec<u8>) -> (r: Option<usize>)
    ensures
        r matches Some(d) ==> 0 < d < dirs@.len(),
{
    let n = dirs.len();
    let mut d: usize = 1;
    while d < n
        invariant
            n == dirs@.len(),
            1 <= d,
        decreases n - d,
    {
        if dirs[d].parent == parent && bytes_eq(&dirs[d].name, name) {
            return Some(d);
        }
        d = d + 1;
    }
    None
}

/// Builds the directory tree: walks every destination path, creating each
/// missing intermediate directory once (an already created prefix is
/// reused), and records each file under its directory.
fn build_tree(files: &Vec<FileEntry>) -> (r: (Vec<DirInfo>, Vec<FileInfo>))
    requires
        all_paths_ok(files@),
    ensures
        tree_wf(r.0@, r.1@),
        r.1@.len() == files@.len(),
        (forall|k: int| 0 <= k < files@.len() ==> (#[trigger] files@[k]).path@.len() <= 64)
            ==> r.0@.len() <= 1 + 32 * files@.len(),
{
    let ghost short_paths = forall|k: int|
        0 <= k < files@.len() ==> (#[trigger] files@[k]).path@.len() <= 64;
    let mut dirs: Vec<DirInfo> = Vec::new();
    dirs.push(DirInfo { parent: 0, name: Vec::new() });
    let mut fils: Vec<FileInfo> = Vec::new();
    let nf = files.len();
    let mut i: usize = 0;
    while i < nf
        invariant
            nf == files@.len(),
            i <= nf,
            all_paths_ok(files@),
            tree_wf(dirs@, fils@),
            fils@.len() == i,
            short_paths == (forall|k: int|
                0 <= k < files@.len() ==> (#[trigger] files@[k]).path@.len() <= 64),
            short_paths ==> dirs@.len() <= 1 + 32 * i,
        decreases nf - i,
    {
        assert(path_ok(files@[i as int].path@));
        let segs = split_segments(&files[i].path);
        let nseg = segs.len();
        let mut cur: usize = 0;
        let mut k: usize = 0;
        let ghost dirs_at_entry = dirs@.len();
        proof {
            if short_paths {
                assert(files@[i as int].path@.len() <= 64);
                assert(2 * nseg <= 65);
            }
        }
        while k < nseg - 1
            invariant
                nseg == segs@.len(),
                1 <= nseg,
                k <= nseg - 1,
                cur < dirs@.len(),
                tree_wf(dirs@, fils@),
                dirs@.len() <= dirs_at_entry + k,
                short_paths ==> dirs_at_entry <= 1 + 32 * i && 2 * nseg <= 65,
                forall|t: int| 0 <= t < segs@.len() ==> 1 <= (#[trigger] segs@[t])@.len() <= 255,
            decreases nseg - 1 - k,
        {
            match find_dir(&dirs, cur, &segs[k]) {
                Some(d) => {
                    cur = d;
                },
                None => {
                    dirs.push(DirInfo { parent: cur, name: crate::bytes::clone_bytes(&segs[k]) });
                    cur = dirs.len() - 1;
                },
            }
            k = k + 1;
        }
        fils.push(FileInfo { dir: cur, name: crate::bytes::clone_bytes(&segs[nseg - 1]) });
        i = i + 1;
    }
    (dirs, fils)
}

/// Decides whether a byte may stand in an 8.3 short name: uppercase
/// letters, digits, and the short-name punctuation — except `~`, which
/// this builder reserves for generated aliases so that aliases can never
/// collide with a name stored directly.
fn short_char(c: u8) -> bool {
    (65 <= c && c <= 90) || (48 <= c && c <= 57) || c == 33 || c == 35 || c == 36 || c == 37 || c
        == 38 || c == 39 || c == 40 || c == 41 || c == 45 || c == 64 || c == 94 || c == 95 || c
        == 96 || c == 123 || c == 125
}

/// Decides whether a name can be stored as a bare 8.3 short entry with no
/// long-name entries: at most eight short-name bytes, optionally a dot and
/// a one-to-three byte extension.
fn fits83(name: &Vec<u8>) -> bool {
    let n = name.len();
    if n == 0 || n > 12 {
        return false;
    }
    let mut dot: usize = n;
    let mut i: usize = 0;
    while i < n
        invariant
            n == name@.len(),
            i <= n,
            dot <= n,
        decreases n - i,
    {
        let c = name[i];
        if c == 46 {
            if dot != n {
                return false;  // more than one dot
            }
            dot = i;
        } else if !short_char(c) {
            return false;
        }
        i = i + 1;
    }
    if dot == n {
        n <= 8
    } else {
        1 <= dot && dot <= 8 && n - dot - 1 >= 1 && n - dot - 1 <= 3
    }
}

/// Long-name directory entries needed for a name beside its short entry:
/// none when the name fits 8.3 directly, else one per 13 characters.
fn lfn_count(name: &Vec<u8>) -> (r: u64)
    requires
        1 <= name@.len() <= 255,
    ensures
        r <= 20,
{
    if fits83(name) {
        0
    } else {
        (name.len() as u64 + 12) / 13
    }
}

/// Uppercases an ASCII byte.
fn upper(c: u8) -> u8 {
    if 97 <= c && c <= 122 {
        c - 32
    } else {
        c
    }
}

/// Maps a byte to one allowed in a short name, uppercasing letters and
/// replacing everything else with `_`.
fn short_mapped(c: u8) -> (r: u8) {
    let u = upper(c);
    if short_char(u) {
        u
    } else {
        95
    }
}

/// Pads `v` with `fill` up to exactly `target` bytes; fails if `v` is
/// already longer.
fn pad_exact(v: &mut Vec<u8>, target: usize, fill: u8) -> (ok: bool)
    ensures
        ok ==> final(v)@.len() == target,
        old(v)@.len() <= target ==> ok,
{
    if v.len() > target {
        return false;
    }
    while v.len() < target
        invariant
            v@.len() <= target,
        decreases target - v@.len(),
    {
        v.push(fill);
    }
    true
}

/// Builds the 11-byte short name stored in a directory entry. A name that
/// fits 8.3 is stored as itself; any other name gets a generated alias
/// `BASE~N` (plus up to three extension bytes), `N` being the child's
/// ordinal in its directory, so aliases within a directory are distinct.
fn make_short11(name: &Vec<u8>, ordinal: u64) -> (r: Vec<u8>)
    requires
        1 <= name@.len() <= 255,
        ordinal <= 999999,
    ensures
        r@.len() == 11,
{
    let n = name.len();
    // position of the last dot, or n when there is none
    let mut dot: usize = n;
    let mut i: usize = 0;
    while i < n
        invariant
            n == name@.len(),
            i <= n,
            dot <= n,
        decreases n - i,
    {
        if name[i] == 46 {
            dot = i;
        }
        i = i + 1;
    }
    let mut s: Vec<u8> = Vec::new();
    if fits83(name) {
        let mut k: usize = 0;
        while k < 8
            invariant
                n == name@.len(),
                dot <= n,
                s@.len() == k,
                k <= 8,
            decreases 8 - k,
        {
            if k < dot && k < n {
                s.push(name[k]);
            } else {
                s.push(32);
            }
            k = k + 1;
        }
        let mut e: usize = 0;
        while e < 3
            invariant
                n == name@.len(),
                n <= 255,
                dot <= n,
                s@.len() == 8 + e,
                e <= 3,
            decreases 3 - e,
        {
            if dot < n && dot + 1 + e < n {
                s.push(name[dot + 1 + e]);
            } else {
                s.push(32);
            }
            e = e + 1;
        }
        assert(s@.len() == 11);
        s
    } else {
        // decimal digits of the ordinal, least significant first
        let mut rev: Vec<u8> = Vec::new();
        let mut v: u64 = ordinal;
        rev.push(48 + (v % 10) as u8);
        v = v / 10;
        if v > 0 {
            rev.push(48 + (v % 10) as u8);
            v = v / 10;
        }
        if v > 0 {
            rev.push(48 + (v % 10) as u8);
            v = v / 10;
        }
        if v > 0 {
            rev.push(48 + (v % 10) as u8);
            v = v / 10;
        }
        if v > 0 {
            rev.push(48 + (v % 10) as u8);
            v = v / 10;
        }
        if v > 0 {
            rev.push(48 + (v % 10) as u8);
            v = v / 10;
        }
        assert(v == 0);
        let dlen = rev.len();
        assert(1 <= dlen <= 6);
        // cleaned base: mapped bytes before the last dot
        let mut base: Vec<u8> = Vec::new();
        let mut k: usize = 0;
        while k < dot
            invariant
                n == name@.len(),
                dot <= n,
                k <= dot,
                base@.len() == k,
            decreases dot - k,
        {
            base.push(short_mapped(name[k]));
            k = k + 1;
        }
        if base.len() == 0 {
            base.push(95);
        }
        // keep at most 7 - dlen base bytes, then '~' and the digits
        assert(dlen <= 7);
        let keep = 7 - dlen;
        let mut t: usize = 0;
        while t < keep && t < base.len()
            invariant
                s@.len() == t,
                t <= keep,
                keep <= 7,
            decreases keep - t,
        {
            s.push(base[t]);
            t = t + 1;
        }
        s.push(126);
        let mut g: usize = dlen;
        proof {
            assert(s@.len() <= 8 - dlen);
        }
        while g > 0
            invariant
                g <= dlen,
                dlen == rev@.len(),
                s@.len() <= 8 - g,
            decreases g,
        {
            s.push(rev[g - 1]);
            g = g - 1;
        }
        let padded = pad_exact(&mut s, 8, 32);
        assert(padded);
        // cleaned extension: mapped bytes after the last dot
        let mut e: usize = 0;
        while e < 3
            invariant
                n == name@.len(),
                n <= 255,
                dot <= n,
                s@.len() == 8 + e,
                e <= 3,
            decreases 3 - e,
        {
            if dot < n && dot + 1 + e < n {
                s.push(short_mapped(name[dot + 1 + e]));
            } else {
                s.push(32);
            }
            e = e + 1;
        }
        assert(s@.len() == 11);
        s
    }
}

/// The checksum of an 11-byte short name that every long-name entry of the
/// same child carries.
fn lfn_checksum(s: &Vec<u8>) -> (r: u8)
    requires
        s@.len() == 11,
{
    let mut sum: u32 = 0;
    let mut i: usize = 0;
    while i < 11
        invariant
            s@.len() == 11,
            i <= 11,
            sum <= 255,
        decreases 11 - i,
    {
        sum = (sum % 2 * 128 + sum / 2 + s[i] as u32) % 256;
        i = i + 1;
    }
    sum as u8
}

/// Appends one UCS-2 character of a long name: the name byte zero-extended,
/// a single NUL terminator right after the name, `0xFFFF` padding beyond.
fn push_lfn_char(out: &mut Vec<u8>, name: &Vec<u8>, pos: usize)
    ensures
        final(out)@.len() == old(out)@.len() + 2,
{
    if pos < name.len() {
        out.push(name[pos]);
        out.push(0);
    } else if pos == name.len() {
        out.push(0);
        out.push(0);
    } else {
        out.push(0xff);
        out.push(0xff);
    }
}

/// Appends the long-name entries for `name`, last entry first, each
/// carrying 13 characters and the short-name checksum.
fn push_lfn_entries(out: &mut Vec<u8>, name: &Vec<u8>, count: u64, cksum: u8)
    requires
        1 <= name@.len() <= 255,
        1 <= count <= 20,
    ensures
        final(out)@.len() == old(out)@.len() + 32 * count,
{
    let mut seqno: u64 = count;
    while seqno > 0
        invariant
            1 <= name@.len() <= 255,
            count <= 20,
            seqno <= count,
            out@.len() == old(out)@.len() + 32 * (count - seqno),
        decreases seqno,
    {
        let ord: u8 = if seqno == count {
            (seqno as u8) + 64  // last logical entry carries the terminator flag
        } else {
            seqno as u8
        };
        out.push(ord);
        let start: usize = 13 * ((seqno - 1) as usize);
        let mut k: usize = 0;
        while k < 5
            invariant
                name@.len() <= 255,
                start <= 260,
                k <= 5,
                out@.len() == old(out)@.len() + 32 * (count - seqno) + 1 + 2 * k,
            decreases 5 - k,
        {
            push_lfn_char(out, name, start + k);
            k = k + 1;
        }
        out.push(0x0f);  // long-name attribute
        out.push(0);
        out.push(cksum);
        let mut k2: usize = 0;
        while k2 < 6
            invariant
                name@.len() <= 255,
                start <= 260,
                k2 <= 6,
                out@.len() == old(out)@.len() + 32 * (count - seqno) + 14 + 2 * k2,
            decreases 6 - k2,
        {
            push_lfn_char(out, name, start + 5 + k2);
            k2 = k2 + 1;
        }
        out.push(0);
        out.push(0);
        let mut k3: usize = 0;
        while k3 < 2
            invariant
                name@.len() <= 255,
                start <= 260,
                k3 <= 2,
                out@.len() == old(out)@.len() + 32 * (count - seqno) + 28 + 2 * k3,
            decreases 2 - k3,
        {
            push_lfn_char(out, name, start + 11 + k3);
            k3 = k3 + 1;
        }
        seqno = seqno - 1;
    }
}

/// Appends one 32-byte short directory entry: name, attributes, fixed
/// deterministic timestamps, first cluster and size.
fn push_short_entry(out: &mut Vec<u8>, short11: &Vec<u8>, attr: u8, first_cluster: u64, size: u32)
    requires
        short11@.len() == 11,
        first_cluster <= 0x0fff_ffff,
    ensures
        final(out)@.len() == old(out)@.len() + 32,
{
    push_bytes(out, short11, 0, 11);
    push_byte(out, attr);
    push_byte(out, 0);  // reserved
    push_byte(out, 0);  // creation time, tenths
    push_u16le(out, 0);  // creation time
    push_u16le(out, 0x0021);  // creation date (1980-01-01)
    push_u16le(out, 0x0021);  // access date
    push_u16le(out, (first_cluster / 65536) as u16);
    push_u16le(out, 0);  // write time
    push_u16le(out, 0x0021);  // write date
    push_u16le(out, (first_cluster % 65536) as u16);
    push_u32le(out, size);
}

/// The FAT variant, named by the width of an allocation-table entry. The
/// on-disk entry encoding differs materially per variant, so each has its
/// own packing below.
#[derive(Clone, Copy, Debug, PartialEq, Eq, Structural)]
pub enum FatKind {
    Fat12,
    Fat16,
    Fat32,
}

/// A consistent volume geometry: variant, cluster size, cluster count and
/// the sizes of every fixed region.
struct Geometry {
    kind: FatKind,
    spc: u64,
    cb: u64,
    clusters: u64,
    fat_sectors: u64,
    reserved: u64,
    root_sectors: u64,
    total_sectors: u64,
}

/// The bounds a selected geometry guarantees: the variant's cluster-count
/// window is respected, every BPB field fits its width, and the whole
/// volume fits in memory.
spec fn geometry_wf(g: Geometry) -> bool {
    &&& 1 <= g.spc <= 128
    &&& g.cb == g.spc * 512
    &&& 1 <= g.clusters <= 0x0fff_fff4
    &&& 1 <= g.fat_sectors <= 0x0020_0000
    &&& (g.kind is Fat12 ==> g.clusters <= 4084)
    &&& (g.kind is Fat16 ==> g.clusters >= 4085)
    &&& (g.kind is Fat32 ==> g.clusters >= 65525)
    &&& (g.kind is Fat32 ==> g.reserved == 32 && g.root_sectors == 0)
    &&& (!(g.kind is Fat32) ==> g.reserved == 1 && g.root_sectors == 32 && g.fat_sectors <= 0xffff
        && g.clusters <= 65524)
    &&& g.total_sectors == g.reserved + 2 * g.fat_sectors + g.root_sectors + g.clusters * g.spc
    &&& g.total_sectors <= 0xffff_ffff
    &&& 512 * g.total_sectors <= usize::MAX
    &&& (g.kind is Fat12 ==> ((g.clusters + 2) * 3 + 1) / 2 <= g.fat_sectors * 512)
    &&& (g.kind is Fat16 ==> (g.clusters + 2) * 2 <= g.fat_sectors * 512)
    &&& (g.kind is Fat32 ==> (g.clusters + 2) * 4 <= g.fat_sectors * 512)
}

/// Clusters needed to hold `len` bytes of directory entries (at least
/// one: even an empty directory owns a cluster).
fn clusters_for_dir_bytes(len: u64, cb: u64) -> (r: Option<u64>)
    requires
        512 <= cb <= 65536,
    ensures
        r matches Some(c) ==> 1 <= c <= 0x0040_0000 && len <= c * cb,
        len <= 0x0008_0000 && cb == 512 ==> (r matches Some(c) && c <= 1024),
{
    let q0 = len / cb;
    if q0 > 0x0040_0000 {
        return None;
    }
    let q1: u64 = if len % cb != 0 {
        q0 + 1
    } else {
        q0
    };
    let q: u64 = if q1 == 0 {
        1
    } else {
        q1
    };
    if q > 0x0040_0000 {
        return None;
    }
    proof {
        vstd::arithmetic::div_mod::lemma_fundamental_div_mod(len as int, cb as int);
        assert(len == cb * (len / cb) + len % cb);
        assert(len <= q * cb) by (nonlinear_arith)
            requires
                len == cb * q0 + len % cb,
                0 <= len % cb < cb,
                q1 == if len % cb != 0 { q0 + 1 } else { q0 as int },
                q == if q1 == 0 { 1int } else { q1 as int },
                cb >= 512,
        ;
    }
    Some(q)
}

/// Clusters needed for a file of `len` bytes; an empty file owns none.
fn clusters_for_file_bytes(len: u64, cb: u64) -> (r: Option<u64>)
    requires
        512 <= cb <= 65536,
    ensures
        r matches Some(c) ==> c <= 0x0080_0000 && len <= c * cb && (len == 0 <==> c == 0),
        len <= 0x0100_0000 && cb == 512 ==> (r matches Some(c) && c <= 32768),
{
    if len == 0 {
        return Some(0);
    }
    let q0 = len / cb;
    if q0 > 0x0080_0000 {
        return None;
    }
    let q: u64 = if len % cb != 0 {
        q0 + 1
    } else {
        q0
    };
    if q > 0x0080_0000 {
        return None;
    }
    proof {
        vstd::arithmetic::div_mod::lemma_fundamental_div_mod(len as int, cb as int);
        assert(len == cb * (len / cb) + len % cb);
        assert(len <= q * cb && q >= 1) by (nonlinear_arith)
            requires
                len == cb * q0 + len % cb,
                0 <= len % cb < cb,
                q == if len % cb != 0 { q0 + 1 } else { q0 as int },
                cb >= 512,
                len >= 1,
        ;
    }
    Some(q)
}

/// Completes a geometry candidate: allocation-table size, region sizes and
/// volume total; `None` when a field would overflow its on-disk width or
/// the volume cannot fit in memory.
fn finish_geometry(kind: FatKind, spc: u64, cb: u64, clusters: u64) -> (r: Option<Geometry>)
    requires
        1 <= spc <= 128,
        cb == spc * 512,
        1 <= clusters <= 0x0fff_fff4,
        kind is Fat12 ==> clusters <= 4084,
        kind is Fat16 ==> clusters >= 4085,
        kind is Fat32 ==> clusters >= 65525,
        !(kind is Fat32) ==> clusters <= 65524,
    ensures
        r matches Some(g) ==> geometry_wf(g) && g.spc == spc && g.cb == cb && g.clusters
            == clusters && g.kind == kind,
        spc == 1 && clusters <= 3000000 ==> r is Some,
{
    let fat_bytes: u64 = match kind {
        FatKind::Fat12 => ((clusters + 2) * 3 + 1) / 2,
        FatKind::Fat16 => (clusters + 2) * 2,
        FatKind::Fat32 => (clusters + 2) * 4,
    };
    let fat_sectors = (fat_bytes + 511) / 512;
    proof {
        vstd::arithmetic::div_mod::lemma_fundamental_div_mod(fat_bytes as int + 511, 512);
        assert(fat_bytes + 511 == 512 * ((fat_bytes + 511) / 512) + (fat_bytes + 511) % 512);
        assert(fat_bytes <= fat_sectors * 512);
        assert(fat_bytes >= 4);
        assert(fat_sectors >= 1);
        if clusters <= 3000000 {
            assert(fat_bytes <= 12000008);
            vstd::arithmetic::div_mod::lemma_div_is_ordered(
                fat_bytes as int + 511,
                12000519,
                512,
            );
            assert(fat_sectors <= 23438);
        }
    }
    if fat_sectors == 0 || fat_sectors > 0x0020_0000 {
        proof {
            if spc == 1 && clusters <= 3000000 {
                assert(false);
            }
        }
        return None;
    }
    let is32 = match kind {
        FatKind::Fat32 => true,
        _ => false,
    };
    if !is32 && fat_sectors > 0xffff {
        proof {
            if spc == 1 && clusters <= 3000000 {
                assert(fat_bytes <= 262104);
                vstd::arithmetic::div_mod::lemma_div_is_ordered(fat_bytes as int + 511, 262615, 512);
                assert(false);
            }
        }
        return None;
    }
    let reserved: u64 = if is32 {
        32
    } else {
        1
    };
    let root_sectors: u64 = if is32 {
        0
    } else {
        32
    };
    proof {
        assert(clusters * spc <= 0x0fff_fff4 * 128) by (nonlinear_arith)
            requires
                clusters <= 0x0fff_fff4,
                spc <= 128,
                clusters >= 0,
                spc >= 0,
        ;
    }
    let data_sectors = clusters * spc;
    let total = reserved + 2 * fat_sectors + root_sectors + data_sectors;
    proof {
        if spc == 1 && clusters <= 3000000 {
            assert(data_sectors == clusters * 1) by (nonlinear_arith)
                requires
                    spc == 1,
                    data_sectors == clusters * spc,
            ;
            assert(total <= 32 + 2 * 23438 + 32 + 3000000);
            assert(usize::MAX as u64 / 512 >= 8388607);
        }
    }
    if total > 0xffff_ffff {
        proof {
            if spc == 1 && clusters <= 3000000 {
                assert(false);
            }
        }
        return None;
    }
    if total > usize::MAX as u64 / 512 {
        proof {
            if spc == 1 && clusters <= 3000000 {
                assert(false);
            }
        }
        return None;
    }
    proof {
        assert(512 * total <= usize::MAX) by (nonlinear_arith)
            requires
                total <= usize::MAX as u64 / 512,
        ;
    }
    Some(
        Geometry {
            kind,
            spc,
            cb,
            clusters,
            fat_sectors,
            reserved,
            root_sectors,
            total_sectors: total,
        },
    )
}

/// Bounds under which the geometry search is guaranteed to succeed at one
/// sector per cluster.
spec fn geometry_inputs_fit(blk_lens: Seq<usize>, file_lens: Seq<u64>) -> bool {
    &&& 1 <= blk_lens.len() <= 600
    &&& forall|d: int| 0 <= d < blk_lens.len() ==> #[trigger] blk_lens[d] <= 0x0008_0000
    &&& file_lens.len() <= 64
    &&& forall|i: int| 0 <= i < file_lens.len() ==> #[trigger] file_lens[i] <= 0x0100_0000
}

/// Chooses the volume geometry by explicit search: for each cluster size
/// (ascending powers of two), counts the clusters the content needs and
/// picks the smallest FAT variant whose cluster-count window holds that
/// count — padding up to the FAT32 minimum with free clusters when the
/// smaller variants cannot apply. Also returns the cluster count granted
/// to each directory block and each file; the granted clusters cover the
/// bytes and sum to at most the volume's cluster count.
fn select_geometry(blk_lens: &Vec<usize>, file_lens: &Vec<u64>) -> (r: Option<
    (Geometry, Vec<u64>, Vec<u64>),
>)
    requires
        blk_lens@.len() >= 1,
    ensures
        r matches Some(p) ==> {
            &&& geometry_wf(p.0)
            &&& p.1@.len() == blk_lens@.len()
            &&& p.2@.len() == file_lens@.len()
            &&& forall|d: int|
                0 <= d < p.1@.len() ==> 1 <= #[trigger] p.1@[d] <= 0x0040_0000 && blk_lens@[d]
                    <= p.1@[d] * p.0.cb
            &&& forall|i: int|
                0 <= i < p.2@.len() ==> #[trigger] p.2@[i] <= 0x0080_0000 && file_lens@[i]
                    <= p.2@[i] * p.0.cb && (file_lens@[i] == 0 <==> p.2@[i] == 0)
            &&& (if p.0.kind is Fat32 {
                p.1@[0] as int
            } else {
                0int
            }) + sum64(p.1@.subrange(1, p.1@.len() as int)) + sum64(p.2@) <= p.0.clusters
            &&& (!(p.0.kind is Fat32) ==> blk_lens@[0] <= 16384)
        },
        geometry_inputs_fit(blk_lens@, file_lens@) ==> (r is Some && (r matches Some(p) ==> {
            &&& p.0.spc == 1
            &&& p.0.clusters <= 3000000
            &&& forall|d: int| 0 <= d < p.1@.len() ==> #[trigger] p.1@[d] <= 1024
            &&& forall|i: int| 0 <= i < p.2@.len() ==> #[trigger] p.2@[i] <= 32768
        })),
{
    let ghost hyp = geometry_inputs_fit(blk_lens@, file_lens@);
    let nd = blk_lens.len();
    let nf = file_lens.len();
    let mut spc: u64 = 1;
    while spc <= 128
        invariant
            1 <= spc <= 256,
            nd == blk_lens@.len(),
            nf == file_lens@.len(),
            nd >= 1,
            hyp == geometry_inputs_fit(blk_lens@, file_lens@),
            hyp ==> spc == 1,
        decreases 256 - spc,
    {
        let cb = spc * 512;
        proof {
            assert(512 <= cb <= 65536) by (nonlinear_arith)
                requires
                    1 <= spc <= 128,
                    cb == spc * 512,
            ;
        }
        let mut dirc: Vec<u64> = Vec::new();
        let mut filec: Vec<u64> = Vec::new();
        let mut body: u64 = 0;  // clusters besides the root directory
        let mut fits = true;
        proof {
            if hyp {
                assert(blk_lens@[0] <= 0x0008_0000);
            }
        }
        match clusters_for_dir_bytes(blk_lens[0] as u64, cb) {
            Some(c) => {
                dirc.push(c);
            },
            None => {
                proof {
                    if hyp && spc == 1 {
                        assert(false);
                    }
                }
                fits = false;
                dirc.push(1);
            },
        }
        let mut d2: usize = 1;
        while d2 < nd && fits
            invariant
                nd == blk_lens@.len(),
                1 <= d2 <= nd,
                512 <= cb <= 65536,
                cb == spc * 512,
                1 <= spc <= 128,
                body <= 0x0fff_fff4,
                hyp == geometry_inputs_fit(blk_lens@, file_lens@),
                fits ==> dirc@.len() == d2,
                fits ==> forall|k: int|
                    0 <= k < dirc@.len() ==> 1 <= #[trigger] dirc@[k] <= 0x0040_0000
                        && blk_lens@[k] <= dirc@[k] * cb,
                fits ==> body == sum64(dirc@.subrange(1, d2 as int)),
                hyp && spc == 1 ==> fits && body <= 1024 * (d2 - 1) && (forall|k: int|
                    0 <= k < dirc@.len() ==> #[trigger] dirc@[k] <= 1024),
            decreases nd - d2,
        {
            proof {
                if hyp {
                    assert(blk_lens@[d2 as int] <= 0x0008_0000);
                }
            }
            match clusters_for_dir_bytes(blk_lens[d2] as u64, cb) {
                None => {
                    proof {
                        if hyp && spc == 1 {
                            assert(false);
                        }
                    }
                    fits = false;
                },
                Some(c) => {
                    if c > 0x0fff_fff4 - body {
                        proof {
                            if hyp && spc == 1 {
                                assert(false);
                            }
                        }
                        fits = false;
                    } else {
                        proof {
                            let pre_s = dirc@.subrange(1, d2 as int);
                            assert(dirc@.push(c).subrange(1, (d2 + 1) as int) =~= pre_s.push(c));
                            assert(pre_s.push(c).drop_last() =~= pre_s);
                        }
                        body = body + c;
                        dirc.push(c);
                    }
                },
            }
            d2 = d2 + 1;
        }
        let ghost dir_body = body as int;
        let mut i: usize = 0;
        while i < nf && fits
            invariant
                nd == blk_lens@.len(),
                nf == file_lens@.len(),
                i <= nf,
                512 <= cb <= 65536,
                cb == spc * 512,
                1 <= spc <= 128,
                body <= 0x0fff_fff4,
                hyp == geometry_inputs_fit(blk_lens@, file_lens@),
                fits ==> dirc@.len() == nd,
                fits ==> forall|k: int|
                    0 <= k < dirc@.len() ==> 1 <= #[trigger] dirc@[k] <= 0x0040_0000
                        && blk_lens@[k] <= dirc@[k] * cb,
                fits ==> filec@.len() == i,
                fits ==> forall|k: int|
                    0 <= k < filec@.len() ==> #[trigger] filec@[k] <= 0x0080_0000 && file_lens@[k]
                        <= filec@[k] * cb && (file_lens@[k] == 0 <==> filec@[k] == 0),
                fits ==> body == sum64(dirc@.subrange(1, nd as int)) + sum64(filec@),
                hyp && spc == 1 ==> fits && body <= 1024 * 600 + 32768 * i && (forall|k: int|
                    0 <= k < dirc@.len() ==> #[trigger] dirc@[k] <= 1024) && (forall|k: int|
                    0 <= k < filec@.len() ==> #[trigger] filec@[k] <= 32768),
            decreases nf - i,
        {
            proof {
                if hyp {
                    assert(file_lens@[i as int] <= 0x0100_0000);
                }
            }
            match clusters_for_file_bytes(file_lens[i], cb) {
                None => {
                    proof {
                        if hyp && spc == 1 {
                            assert(false);
                        }
                    }
                    fits = false;
                },
                Some(c) => {
                    if c > 0x0fff_fff4 - body {
                        proof {
                            if hyp && spc == 1 {
                                assert(false);
                            }
                        }
                        fits = false;
                    } else {
                        proof {
                            assert(filec@.push(c).drop_last() =~= filec@);
                        }
                        body = body + c;
                        filec.push(c);
                    }
                },
            }
            i = i + 1;
        }
        if fits {
            let root_small = blk_lens[0] <= 16384;
            if body <= 4084 && root_small {
                let clusters: u64 = if body == 0 {
                    1
                } else {
                    body
                };
                match finish_geometry(FatKind::Fat12, spc, cb, clusters) {
                    Some(g) => {
                        proof {
                            assert(dirc@.subrange(1, dirc@.len() as int) =~= dirc@.subrange(
                                1,
                                nd as int,
                            ));
                        }
                        return Some((g, dirc, filec));
                    },
                    None => {},
                }
            } else if body <= 65524 && root_small {
                match finish_geometry(FatKind::Fat16, spc, cb, body) {
                    Some(g) => {
                        proof {
                            assert(dirc@.subrange(1, dirc@.len() as int) =~= dirc@.subrange(
                                1,
                                nd as int,
                            ));
                        }
                        return Some((g, dirc, filec));
                    },
                    None => {},
                }
            } else {
                let rootc = dirc[0];
                if rootc <= 0x0fff_fff4 - body {
                    let c32 = body + rootc;
                    let clusters: u64 = if c32 < 65525 {
                        65525  // pad with free clusters up to the FAT32 window
                    } else {
                        c32
                    };
                    match finish_geometry(FatKind::Fat32, spc, cb, clusters) {
                        Some(g) => {
                            proof {
                                assert(dirc@.subrange(1, dirc@.len() as int) =~= dirc@.subrange(
                                    1,
                                    nd as int,
                                ));
                            }
                            return Some((g, dirc, filec));
                        },
                        None => {},
                    }
                }
            }
        }
        proof {
            if hyp && spc == 1 {
                assert(false);
            }
        }
        spc = spc * 2;
    }
    None
}

/// Writes one 12-bit allocation-table entry: entry `idx` straddles bytes
/// `idx*3/2` and the next, low nibble first.
fn set_fat12(t: &mut Vec<u8>, idx: u64, val: u32)
    requires
        idx <= 0x0fff_fff6,
        val <= 0xfff,
        idx * 3 / 2 + 2 <= old(t)@.len(),
    ensures
        final(t)@.len() == old(t)@.len(),
{
    let off = (idx * 3 / 2) as usize;
    if idx % 2 == 0 {
        let prev = t[off + 1];
        t.set(off, (val % 256) as u8);
        t.set(off + 1, prev / 16 * 16 + (val / 256) as u8);
    } else {
        let prev = t[off];
        t.set(off, prev % 16 + (val % 16) as u8 * 16);
        t.set(off + 1, (val / 16) as u8);
    }
}

/// Writes one 16-bit allocation-table entry.
fn set_fat16(t: &mut Vec<u8>, idx: u64, val: u32)
    requires
        idx <= 0x0fff_fff6,
        val <= 0xffff,
        idx * 2 + 2 <= old(t)@.len(),
    ensures
        final(t)@.len() == old(t)@.len(),
{
    let off = (idx * 2) as usize;
    t.set(off, (val % 256) as u8);
    t.set(off + 1, (val / 256) as u8);
}

/// Writes one 32-bit allocation-table entry (the top four bits stay zero).
fn set_fat32(t: &mut Vec<u8>, idx: u64, val: u32)
    requires
        idx <= 0x0fff_fff6,
        val <= 0x0fff_ffff,
        idx * 4 + 4 <= old(t)@.len(),
    ensures
        final(t)@.len() == old(t)@.len(),
{
    let off = (idx * 4) as usize;
    t.set(off, (val % 256) as u8);
    t.set(off + 1, (val / 256 % 256) as u8);
    t.set(off + 2, (val / 65536 % 256) as u8);
    t.set(off + 3, (val / 16777216) as u8);
}

/// Writes one allocation-table entry in the geometry's variant.
fn set_fat_entry(t: &mut Vec<u8>, g: &Geometry, idx: u64, val: u32)
    requires
        geometry_wf(*g),
        idx <= g.clusters + 1,
        val <= 0x0fff_ffff,
        g.kind is Fat12 ==> val <= 0xfff,
        g.kind is Fat16 ==> val <= 0xffff,
        old(t)@.len() == g.fat_sectors * 512,
    ensures
        final(t)@.len() == old(t)@.len(),
{
    match g.kind {
        FatKind::Fat12 => {
            proof {
                assert(idx * 3 / 2 + 2 <= ((g.clusters + 2) * 3 + 1) / 2);
            }
            set_fat12(t, idx, val);
        },
        FatKind::Fat16 => {
            set_fat16(t, idx, val);
        },
        FatKind::Fat32 => {
            set_fat32(t, idx, val);
        },
    }
}

/// The end-of-chain mark of a variant.
fn eoc_value(kind: FatKind) -> (r: u32)
    ensures
        r <= 0x0fff_ffff,
        kind is Fat12 ==> r <= 0xfff,
        kind is Fat16 ==> r <= 0xffff,
{
    match kind {
        FatKind::Fat12 => 0xfff,
        FatKind::Fat16 => 0xffff,
        FatKind::Fat32 => 0x0fff_ffff,
    }
}

/// Builds one copy of the allocation table: the two reserved entries, then
/// one chain of consecutively linked clusters per allocation, each ending
/// in the end-of-chain mark.
fn build_fat_table(g: &Geometry, chains: &Vec<(u64, u64)>) -> (r: Vec<u8>)
    requires
        geometry_wf(*g),
        forall|c: int|
            0 <= c < chains@.len() ==> {
                let e = #[trigger] chains@[c];
                2 <= e.0 && 1 <= e.1 && e.0 + e.1 <= g.clusters + 2
            },
    ensures
        r@.len() == g.fat_sectors * 512,
{
    let flen = (g.fat_sectors * 512) as usize;
    let mut t: Vec<u8> = Vec::new();
    push_zeros(&mut t, flen);
    // reserved entries: media descriptor and end-of-chain
    let e0: u32 = match g.kind {
        FatKind::Fat12 => 0xff8,
        FatKind::Fat16 => 0xfff8,
        FatKind::Fat32 => 0x0fff_fff8,
    };
    set_fat_entry(&mut t, g, 0, e0);
    set_fat_entry(&mut t, g, 1, eoc_value(g.kind));
    let nch = chains.len();
    let mut c: usize = 0;
    while c < nch
        invariant
            nch == chains@.len(),
            c <= nch,
            t@.len() == g.fat_sectors * 512,
            geometry_wf(*g),
            forall|x: int|
                0 <= x < chains@.len() ==> {
                    let e = #[trigger] chains@[x];
                    2 <= e.0 && 1 <= e.1 && e.0 + e.1 <= g.clusters + 2
                },
        decreases nch - c,
    {
        let (first, cnt) = chains[c];
        let mut k: u64 = 0;
        while k < cnt
            invariant
                k <= cnt,
                2 <= first,
                1 <= cnt,
                first + cnt <= g.clusters + 2,
                t@.len() == g.fat_sectors * 512,
                geometry_wf(*g),
            decreases cnt - k,
        {
            let idx = first + k;
            let val: u32 = if k + 1 < cnt {
                (idx + 1) as u32
            } else {
                eoc_value(g.kind)
            };
            set_fat_entry(&mut t, g, idx, val);
            k = k + 1;
        }
        c = c + 1;
    }
    t
}

/// Appends the 8-byte OEM name.
fn push_oem_name(out: &mut Vec<u8>)
    ensures
        final(out)@.len() == old(out)@.len() + 8,
{
    out.push(77);  // "MSWIN4.1"
    out.push(83);
    out.push(87);
    out.push(73);
    out.push(78);
    out.push(52);
    out.push(46);
    out.push(49);
}

/// Appends the 11-byte volume label (`BOOT`, space padded).
fn push_volume_label(out: &mut Vec<u8>)
    ensures
        final(out)@.len() == old(out)@.len() + 11,
{
    out.push(66);
    out.push(79);
    out.push(79);
    out.push(84);
    let mut k: usize = 0;
    while k < 7
        invariant
            k <= 7,
            out@.len() == old(out)@.len() + 4 + k,
        decreases 7 - k,
    {
        out.push(32);
        k = k + 1;
    }
}

/// Appends the 8-byte filesystem-type label of the variant.
fn push_fs_type(out: &mut Vec<u8>, kind: FatKind)
    ensures
        final(out)@.len() == old(out)@.len() + 8,
{
    out.push(70);  // "FAT"
    out.push(65);
    out.push(84);
    match kind {
        FatKind::Fat12 => {
            out.push(49);
            out.push(50);
        },
        FatKind::Fat16 => {
            out.push(49);
            out.push(54);
        },
        FatKind::Fat32 => {
            out.push(51);
            out.push(50);
        },
    }
    out.push(32);
    out.push(32);
    out.push(32);
}

/// Builds the 512-byte boot sector with its BIOS parameter block. The
/// volume serial number is a fixed constant, so builds are reproducible.
fn build_boot_sector(g: &Geometry) -> (r: Vec<u8>)
    requires
        geometry_wf(*g),
    ensures
        r@.len() == 512,
        r@[510] == 0x55u8,
        r@[511] == 0xaau8,
        r@.subrange(11, 13) == le16(512),
        r@[13] == g.spc as u8,
{
    let is32 = match g.kind {
        FatKind::Fat32 => true,
        _ => false,
    };
    let mut head: Vec<u8> = Vec::new();
    // jump instruction over the parameter block
    head.push(0xeb);
    head.push(if is32 {
        0x58
    } else {
        0x3c
    });
    head.push(0x90);
    push_oem_name(&mut head);
    assert(head@.len() == 11);
    push_u16le(&mut head, 512);  // bytes per sector
    push_byte(&mut head, g.spc as u8);
    assert(head@.len() == 14);
    assert(head@.subrange(11, 13) =~= le16(512));
    assert(head@[13] == g.spc as u8);
    let mut tail: Vec<u8> = Vec::new();
    push_u16le(&mut tail, g.reserved as u16);
    push_byte(&mut tail, 2);  // two copies of the allocation table
    push_u16le(
        &mut tail,
        if is32 {
            0
        } else {
            512  // fixed root-directory capacity of FAT12/16
        },
    );
    let total16: u16 = if !is32 && g.total_sectors <= 0xffff {
        g.total_sectors as u16
    } else {
        0
    };
    push_u16le(&mut tail, total16);
    push_byte(&mut tail, 0xf8);  // media descriptor: fixed disk
    push_u16le(
        &mut tail,
        if is32 {
            0
        } else {
            g.fat_sectors as u16
        },
    );
    push_u16le(&mut tail, 32);  // sectors per track
    push_u16le(&mut tail, 64);  // heads
    push_u32le(&mut tail, 0);  // hidden sectors
    let total32: u32 = if total16 != 0 {
        0
    } else {
        g.total_sectors as u32
    };
    push_u32le(&mut tail, total32);
    assert(tail@.len() == 22);
    if is32 {
        push_u32le(&mut tail, g.fat_sectors as u32);
        push_u16le(&mut tail, 0);  // mirroring flags: all copies live
        push_u16le(&mut tail, 0);  // filesystem version
        push_u32le(&mut tail, 2);  // root directory's first cluster
        push_u16le(&mut tail, 1);  // filesystem-information sector
        push_u16le(&mut tail, 6);  // backup boot sector
        push_zeros(&mut tail, 12);
        assert(tail@.len() == 50);
    }
    push_byte(&mut tail, 0x80);  // drive number
    push_byte(&mut tail, 0);
    push_byte(&mut tail, 0x29);  // extended boot signature
    push_u32le(&mut tail, 0x1981_0830);  // fixed volume serial number
    push_volume_label(&mut tail);
    push_fs_type(&mut tail, g.kind);
    push_zeros(
        &mut tail,
        if is32 {
            420
        } else {
            448
        },
    );
    assert(tail@.len() == 496);
    let mut b: Vec<u8> = Vec::new();
    push_all(&mut b, &head);
    push_all(&mut b, &tail);
    push_byte(&mut b, 0x55);
    push_byte(&mut b, 0xaa);
    assert(b@.len() == 512);
    assert(b@.subrange(11, 13) =~= head@.subrange(11, 13));
    assert(b@[13] == head@[13]);
    b
}

/// Builds the FAT32 filesystem-information sector. The free-cluster count
/// and allocation hint are left unset (all bits one), as the format allows.
fn build_fsinfo() -> (r: Vec<u8>)
    ensures
        r@.len() == 512,
{
    let mut b: Vec<u8> = Vec::new();
    push_u32le(&mut b, 0x4161_5252);  // lead signature
    push_zeros(&mut b, 480);
    push_u32le(&mut b, 0x6141_7272);  // structure signature
    push_u32le(&mut b, 0xffff_ffff);  // free clusters: unknown
    push_u32le(&mut b, 0xffff_ffff);  // next free cluster: unknown
    push_zeros(&mut b, 12);
    push_u32le(&mut b, 0xaa55_0000);  // trailing signature
    assert(b@.len() == 512);
    b
}

/// Appends the 11-byte `.` or `..` name.
fn push_dot_name(out: &mut Vec<u8>, two: bool)
    ensures
        final(out)@.len() == old(out)@.len() + 11,
{
    out.push(46);
    let start: usize = if two {
        out.push(46);
        2
    } else {
        1
    };
    let mut k: usize = start;
    while k < 11
        invariant
            start <= k <= 11,
            out@.len() == old(out)@.len() + k,
        decreases 11 - k,
    {
        out.push(32);
        k = k + 1;
    }
}

/// Where a 32-byte directory entry's first-cluster field must be filled
/// in once clusters are allocated: the first cluster of a directory of the
/// tree, or of a file.
enum FixTarget {
    Dir(usize),
    File(usize),
}

/// One pending cluster-field write: the entry's byte offset inside its
/// block, and whose first cluster belongs there.
struct FixUp {
    off: usize,
    target: FixTarget,
}

/// Every fix-up lies inside the block and names a node of the tree.
spec fn fixes_ok(fixes: Seq<FixUp>, blk_len: int, nd: int, nf: int) -> bool {
    forall|j: int|
        0 <= j < fixes.len() ==> {
            let f = #[trigger] fixes[j];
            &&& f.off + 32 <= blk_len
            &&& match f.target {
                FixTarget::Dir(d) => d < nd,
                FixTarget::File(i) => i < nf,
            }
        }
}

/// Builds one directory's 32-byte entries: the dot entries (outside the
/// root), then one short entry — preceded by its long-name entries where
/// the name does not fit 8.3 — for each child directory and file, in tree
/// order. Cluster-number fields are left zero; a fix-up records each one
/// for patching once clusters are allocated.
fn build_dir_block(dirs: &Vec<DirInfo>, fils: &Vec<FileInfo>, files: &Vec<FileEntry>, d: usize) -> (r:
    Option<(Vec<u8>, Vec<FixUp>)>)
    requires
        tree_wf(dirs@, fils@),
        d < dirs@.len(),
        fils@.len() == files@.len(),
        forall|k: int| 0 <= k < files@.len() ==> (#[trigger] files@[k]).data@.len() <= 0xffff_ffff,
    ensures
        r matches Some(bf) ==> {
            &&& bf.0@.len() <= 64 + 672 * (dirs@.len() + fils@.len())
            &&& fixes_ok(bf.1@, bf.0@.len() as int, dirs@.len() as int, fils@.len() as int)
        },
        dirs@.len() + fils@.len() <= 100000 ==> r is Some,
{
    let nd = dirs.len();
    let nf = fils.len();
    let mut out: Vec<u8> = Vec::new();
    let mut fixes: Vec<FixUp> = Vec::new();
    if d != 0 {
        let mut dot: Vec<u8> = Vec::new();
        push_dot_name(&mut dot, false);
        fixes.push(FixUp { off: out.len(), target: FixTarget::Dir(d) });
        push_short_entry(&mut out, &dot, 0x10, 0, 0);
        let mut dotdot: Vec<u8> = Vec::new();
        push_dot_name(&mut dotdot, true);
        let p = dirs[d].parent;
        if p != 0 {
            // the root is reached with cluster number zero, already in place
            fixes.push(FixUp { off: out.len(), target: FixTarget::Dir(p) });
        }
        push_short_entry(&mut out, &dotdot, 0x10, 0, 0);
    }
    assert(out@.len() <= 64);
    let mut ordinal: u64 = 0;
    let mut d2: usize = 1;
    while d2 < nd
        invariant
            nd == dirs@.len(),
            nf == fils@.len() == files@.len(),
            1 <= d2 <= nd,
            ordinal <= d2 - 1,
            ordinal <= 999999,
            tree_wf(dirs@, fils@),
            d < dirs@.len(),
            out@.len() <= 64 + 672 * (d2 - 1),
            fixes_ok(fixes@, out@.len() as int, nd as int, nf as int),
        decreases nd - d2,
    {
        if dirs[d2].parent == d {
            if ordinal >= 999999 {
                proof {
                    if nd + nf <= 100000 {
                        assert(false);
                    }
                }
                return None;
            }
            ordinal = ordinal + 1;
            let s11 = make_short11(&dirs[d2].name, ordinal);
            let lc = lfn_count(&dirs[d2].name);
            if lc > 0 {
                let ck = lfn_checksum(&s11);
                push_lfn_entries(&mut out, &dirs[d2].name, lc, ck);
            }
            fixes.push(FixUp { off: out.len(), target: FixTarget::Dir(d2) });
            push_short_entry(&mut out, &s11, 0x10, 0, 0);
        }
        d2 = d2 + 1;
    }
    let mut i: usize = 0;
    while i < nf
        invariant
            nd == dirs@.len(),
            nf == fils@.len() == files@.len(),
            i <= nf,
            ordinal <= nd - 1 + i,
            ordinal <= 999999,
            tree_wf(dirs@, fils@),
            d < dirs@.len(),
            forall|k: int|
                0 <= k < files@.len() ==> (#[trigger] files@[k]).data@.len() <= 0xffff_ffff,
            out@.len() <= 64 + 672 * (nd - 1 + i),
            fixes_ok(fixes@, out@.len() as int, nd as int, nf as int),
        decreases nf - i,
    {
        if fils[i].dir == d {
            if ordinal >= 999999 {
                proof {
                    if nd + nf <= 100000 {
                        assert(false);
                    }
                }
                return None;
            }
            ordinal = ordinal + 1;
            let s11 = make_short11(&fils[i].name, ordinal);
            let lc = lfn_count(&fils[i].name);
            if lc > 0 {
                let ck = lfn_checksum(&s11);
                push_lfn_entries(&mut out, &fils[i].name, lc, ck);
            }
            assert(files@[i as int].data@.len() <= 0xffff_ffff);
            fixes.push(FixUp { off: out.len(), target: FixTarget::File(i) });
            push_short_entry(&mut out, &s11, 0x20, 0, files[i].data.len() as u32);
        }
        i = i + 1;
    }
    Some((out, fixes))
}

/// Fills the recorded cluster-number fields of one block from the
/// allocated first clusters.
fn patch_dir_block(
    blk: &mut Vec<u8>,
    fixes: &Vec<FixUp>,
    dir_first: &Vec<u64>,
    file_first: &Vec<u64>,
)
    requires
        fixes_ok(fixes@, old(blk)@.len() as int, dir_first@.len() as int, file_first@.len() as int),
        forall|k: int| 0 <= k < dir_first@.len() ==> #[trigger] dir_first@[k] <= 0x0fff_ffff,
        forall|k: int| 0 <= k < file_first@.len() ==> #[trigger] file_first@[k] <= 0x0fff_ffff,
    ensures
        final(blk)@.len() == old(blk)@.len(),
{
    let n = fixes.len();
    let bl = blk.len();
    let mut j: usize = 0;
    while j < n
        invariant
            n == fixes@.len(),
            j <= n,
            blk@.len() == bl,
            blk@.len() == old(blk)@.len(),
            fixes_ok(fixes@, blk@.len() as int, dir_first@.len() as int, file_first@.len() as int),
            forall|k: int| 0 <= k < dir_first@.len() ==> #[trigger] dir_first@[k] <= 0x0fff_ffff,
            forall|k: int| 0 <= k < file_first@.len() ==> #[trigger] file_first@[k] <= 0x0fff_ffff,
        decreases n - j,
    {
        proof {
            assert(fixes@[j as int].off + 32 <= blk@.len());
        }
        let off = fixes[j].off;
        let fc: u64 = match fixes[j].target {
            FixTarget::Dir(dx) => dir_first[dx],
            FixTarget::File(fx) => file_first[fx],
        };
        // the high half of the cluster number lives at entry offset 20,
        // the low half at 26, both little endian
        blk.set(off + 20, ((fc / 65536) % 256) as u8);
        blk.set(off + 21, (fc / 65536 / 256) as u8);
        blk.set(off + 26, (fc % 256) as u8);
        blk.set(off + 27, ((fc / 256) % 256) as u8);
        j = j + 1;
    }
}

/// The sum of a sequence of cluster counts.
pub open spec fn sum64(s: Seq<u64>) -> int
    decreases s.len(),
{
    if s.len() == 0 {
        0
    } else {
        sum64(s.drop_last()) + s.last()
    }
}

/// A sum of unsigned counts is never negative.
proof fn lemma_sum64_nonneg(s: Seq<u64>)
    ensures
        sum64(s) >= 0,
    decreases s.len(),
{
    if s.len() > 0 {
        lemma_sum64_nonneg(s.drop_last());
    }
}

/// A prefix never sums to more than the whole.
proof fn lemma_sum64_prefix(s: Seq<u64>, k: int)
    requires
        0 <= k <= s.len(),
    ensures
        sum64(s.subrange(0, k)) <= sum64(s),
    decreases s.len() - k,
{
    if k == s.len() {
        assert(s.subrange(0, k) =~= s);
    } else {
        lemma_sum64_prefix(s.drop_last(), k);
        assert(s.drop_last().subrange(0, k) =~= s.subrange(0, k));
    }
}

/// A finished FAT volume: its bytes, the byte offset where each input
/// entry's contents were stored (in input order), the FAT variant the
/// geometry search selected, and the volume's data-cluster count.
#[derive(Debug)]
pub struct FatImage {
    pub bytes: Vec<u8>,
    pub file_offsets: Vec<usize>,
    pub fat_type: FatKind,
    pub cluster_count: u64,
}

/// The fixed header facts of a built volume: at least one sector, the boot
/// signature, and 512-byte sectors recorded in the parameter block.
pub open spec fn fat_header_ok(img: Seq<u8>) -> bool {
    &&& img.len() >= 512
    &&& img[510] == 0x55u8
    &&& img[511] == 0xaau8
    &&& img.subrange(11, 13) == le16(512)
}

/// Entry `k`'s contents stand verbatim at its recorded offset, which is
/// sector aligned.
pub open spec fn placement_at(files: Seq<FileEntry>, img: Seq<u8>, offs: Seq<usize>, k: int) -> bool {
    &&& offs[k] % 512 == 0
    &&& offs[k] + files[k].data@.len() <= img.len()
    &&& img.subrange(offs[k] as int, offs[k] + files[k].data@.len()) == files[k].data@
}

/// Every input entry is placed in the image.
pub open spec fn fat_placements_ok(files: Seq<FileEntry>, img: Seq<u8>, offs: Seq<usize>) -> bool {
    &&& offs.len() == files.len()
    &&& forall|k: int| 0 <= k < files.len() ==> #[trigger] placement_at(files, img, offs, k)
}

/// Extending a byte sequence on the right preserves any subrange of the
/// existing part.
proof fn lemma_subrange_prefix(a: Seq<u8>, b: Seq<u8>, x: int, y: int)
    requires
        0 <= x <= y <= a.len(),
        a.len() <= b.len(),
        forall|k: int| 0 <= k < a.len() ==> a[k] == b[k],
    ensures
        b.subrange(x, y) == a.subrange(x, y),
{
    assert(b.subrange(x, y) =~= a.subrange(x, y));
}

/// Extending the image preserves the header facts.
proof fn lemma_header_prefix(a: Seq<u8>, b: Seq<u8>)
    requires
        fat_header_ok(a),
        a.len() <= b.len(),
        forall|k: int| 0 <= k < a.len() ==> a[k] == b[k],
    ensures
        fat_header_ok(b),
{
    lemma_subrange_prefix(a, b, 11, 13);
}

/// Extending the image preserves every placement already made.
proof fn lemma_placements_prefix(
    files: Seq<FileEntry>,
    a: Seq<u8>,
    b: Seq<u8>,
    offs: Seq<usize>,
    m: int,
)
    requires
        a.len() <= b.len(),
        forall|k: int| 0 <= k < a.len() ==> a[k] == b[k],
        m <= files.len(),
        m <= offs.len(),
        forall|k: int| 0 <= k < m ==> #[trigger] placement_at(files, a, offs, k),
    ensures
        forall|k: int| 0 <= k < m ==> #[trigger] placement_at(files, b, offs, k),
{
    assert forall|k: int| 0 <= k < m implies #[trigger] placement_at(files, b, offs, k) by {
        assert(placement_at(files, a, offs, k));
        lemma_subrange_prefix(a, b, offs[k] as int, offs[k] + files[k].data@.len());
    }
}

/// Inputs on which the builder owes success: at most sixteen entries,
/// destination paths of at most 64 bytes, and at most 16 MiB of contents
/// per entry — comfortably inside every supported geometry.
pub open spec fn fat_inputs_fit(files: Seq<FileEntry>) -> bool {
    &&& files.len() <= 16
    &&& forall|k: int|
        0 <= k < files.len() ==> (#[trigger] files[k]).path@.len() <= 64 && files[k].data@.len()
            <= 0x0100_0000
}

/// Multiples of the sector size stay multiples under addition.
proof fn lemma_mod512_add(a: int, b: int)
    requires
        a % 512 == 0,
        b % 512 == 0,
    ensures
        (a + b) % 512 == 0,
{
    assert((a + b) % 512 == 0) by (nonlinear_arith)
        requires
            a % 512 == 0,
            b % 512 == 0,
    ;
}

/// Builds a complete FAT volume holding the given entries.
///
/// Fails with `Format` exactly when some destination path is ill-formed,
/// with `Collision` exactly when the paths are well-formed but two entries
/// collide, and with `Capacity` only when the content overflows the
/// supported geometries — never on inputs within [`fat_inputs_fit`]. On
/// success the image starts with a valid boot sector over 512-byte
/// sectors, is a whole number of sectors long, stores every entry's
/// contents verbatim at its recorded sector-aligned offset, and reports a
/// FAT variant consistent with its cluster count: the count lies inside
/// the variant's window, so the variant is the one a reader determines
/// from the count.
pub fn create_fat_filesystem(files: &Vec<FileEntry>) -> (r: Result<FatImage, BuildError>)
    ensures
        (r == Err::<FatImage, BuildError>(BuildError::Format)) <==> !all_paths_ok(files@),
        (r == Err::<FatImage, BuildError>(BuildError::Collision)) <==> (all_paths_ok(files@)
            && has_collision(files@)),
        r matches Ok(fi) ==> {
            &&& all_paths_ok(files@)
            &&& !has_collision(files@)
            &&& fat_header_ok(fi.bytes@)
            &&& fi.bytes@.len() % 512 == 0
            &&& fat_placements_ok(files@, fi.bytes@, fi.file_offsets@)
            &&& forall|x: int, y: int|
                #![trigger fi.file_offsets@[x], fi.file_offsets@[y]]
                0 <= x < y < files@.len() && files@[x].data@.len() > 0 && files@[y].data@.len()
                    > 0 ==> fi.file_offsets@[x] + files@[x].data@.len() <= fi.file_offsets@[y]
        },
        r matches Ok(fi) ==> {
            &&& 1 <= fi.cluster_count
            &&& (fi.fat_type is Fat12 ==> fi.cluster_count <= 4084)
            &&& (fi.fat_type is Fat16 ==> 4085 <= fi.cluster_count <= 65524)
            &&& (fi.fat_type is Fat32 ==> 65525 <= fi.cluster_count)
        },
        all_paths_ok(files@) && !has_collision(files@) && fat_inputs_fit(files@) ==> r is Ok,
{
    let ghost fit = fat_inputs_fit(files@);
    let nf = files.len();
    // every destination path must be well formed
    let mut i: usize = 0;
    while i < nf
        invariant
            nf == files@.len(),
            i <= nf,
            forall|k: int| 0 <= k < i ==> path_ok(#[trigger] files@[k].path@),
        decreases nf - i,
    {
        if !check_path(&files[i].path) {
            return Err(BuildError::Format);
        }
        i = i + 1;
    }
    assert(all_paths_ok(files@));
    // no two destination paths may collide
    let mut a: usize = 0;
    while a < nf
        invariant
            nf == files@.len(),
            a <= nf,
            all_paths_ok(files@),
            forall|x: int, y: int|
                0 <= x < y < a ==> !entries_collide(files@[x].path@, files@[y].path@),
        decreases nf - a,
    {
        let mut b: usize = 0;
        while b < a
            invariant
                nf == files@.len(),
                b <= a < nf,
                all_paths_ok(files@),
                forall|x: int, y: int|
                    0 <= x < y < a ==> !entries_collide(files@[x].path@, files@[y].path@),
                forall|x: int|
                    0 <= x < b ==> !entries_collide(files@[x].path@, files@[a as int].path@),
            decreases a - b,
        {
            if check_collide(&files[b].path, &files[a].path) {
                assert(has_collision(files@));
                return Err(BuildError::Collision);
            }
            b = b + 1;
        }
        a = a + 1;
    }
    assert(!has_collision(files@));
    // sizes must fit the 32-bit file-size field
    let mut file_lens: Vec<u64> = Vec::new();
    i = 0;
    while i < nf
        invariant
            nf == files@.len(),
            i <= nf,
            file_lens@.len() == i,
            all_paths_ok(files@),
            !has_collision(files@),
            fit == fat_inputs_fit(files@),
            forall|k: int| 0 <= k < i ==> #[trigger] file_lens@[k] <= 0xffff_ffff,
            forall|k: int| 0 <= k < i ==> #[trigger] file_lens@[k] == files@[k].data@.len(),
        decreases nf - i,
    {
        if files[i].data.len() as u64 > 0xffff_ffff {
            proof {
                if fit {
                    assert(files@[i as int].data@.len() <= 0x0100_0000);
                    assert(false);
                }
            }
            return Err(BuildError::Capacity);
        }
        file_lens.push(files[i].data.len() as u64);
        i = i + 1;
    }
    assert forall|k: int| 0 <= k < files@.len() implies (#[trigger] files@[k]).data@.len()
        <= 0xffff_ffff by {
        assert(file_lens@[k] == files@[k].data@.len());
        assert(file_lens@[k] <= 0xffff_ffff);
    }
    // directory tree
    let (dirs, fils) = build_tree(files);
    let nd = dirs.len();
    proof {
        if fit {
            assert(dirs@.len() <= 1 + 32 * files@.len());
        }
    }
    // every directory's entries, with cluster fields pending
    let mut blocks: Vec<Vec<u8>> = Vec::new();
    let mut fixes_all: Vec<Vec<FixUp>> = Vec::new();
    let mut blk_lens: Vec<usize> = Vec::new();
    let mut d: usize = 0;
    while d < nd
        invariant
            nd == dirs@.len(),
            d <= nd,
            tree_wf(dirs@, fils@),
            fils@.len() == files@.len(),
            nf == files@.len(),
            all_paths_ok(files@),
            !has_collision(files@),
            fit == fat_inputs_fit(files@),
            fit ==> nd <= 513,
            forall|k: int|
                0 <= k < files@.len() ==> (#[trigger] files@[k]).data@.len() <= 0xffff_ffff,
            blocks@.len() == d,
            fixes_all@.len() == d,
            blk_lens@.len() == d,
            forall|k: int| 0 <= k < d ==> #[trigger] blk_lens@[k] == blocks@[k]@.len(),
            forall|k: int|
                0 <= k < d ==> (#[trigger] blocks@[k])@.len() <= 64 + 672 * (dirs@.len()
                    + fils@.len()),
            forall|k: int|
                0 <= k < d ==> fixes_ok(
                    (#[trigger] fixes_all@[k])@,
                    blocks@[k]@.len() as int,
                    dirs@.len() as int,
                    fils@.len() as int,
                ),
        decreases nd - d,
    {
        match build_dir_block(&dirs, &fils, files, d) {
            None => {
                proof {
                    if fit {
                        assert(dirs@.len() + fils@.len() <= 100000);
                        assert(false);
                    }
                }
                return Err(BuildError::Capacity);
            },
            Some(bf) => {
                let (blk, fx) = bf;
                blk_lens.push(blk.len());
                blocks.push(blk);
                fixes_all.push(fx);
            },
        }
        d = d + 1;
    }
    // geometry search over the block and file sizes
    let sel = select_geometry(&blk_lens, &file_lens);
    proof {
        if fit {
            assert(geometry_inputs_fit(blk_lens@, file_lens@)) by {
                assert(1 <= blk_lens@.len() <= 600);
                assert forall|k: int| 0 <= k < blk_lens@.len() implies #[trigger] blk_lens@[k]
                    <= 0x0008_0000 by {
                    assert(blk_lens@[k] == blocks@[k]@.len());
                    assert(blocks@[k]@.len() <= 64 + 672 * (dirs@.len() + fils@.len()));
                    assert(dirs@.len() + fils@.len() <= 529);
                }
                assert forall|k: int| 0 <= k < file_lens@.len() implies #[trigger] file_lens@[k]
                    <= 0x0100_0000 by {
                    assert(file_lens@[k] == files@[k].data@.len());
                    assert(files@[k].data@.len() <= 0x0100_0000);
                }
            }
        }
    }
    let (g, dirc, filec) = match sel {
        None => {
            proof {
                if fit {
                    assert(false);
                }
            }
            return Err(BuildError::Capacity);
        },
        Some(p) => p,
    };
    let is32 = match g.kind {
        FatKind::Fat32 => true,
        _ => false,
    };
    proof {
        lemma_sum64_nonneg(dirc@.subrange(1, nd as int));
        lemma_sum64_nonneg(filec@);
    }
    // allocate the cluster chains: FAT32 root first, then each directory,
    // then each non-empty file, in order
    let mut chains: Vec<(u64, u64)> = Vec::new();
    let mut dir_first: Vec<u64> = Vec::new();
    let mut nc: u64 = 2;
    if is32 {
        dir_first.push(2);
        chains.push((2, dirc[0]));
        nc = 2 + dirc[0];
    } else {
        dir_first.push(0);
    }
    let ghost root_part: int = if is32 {
        dirc@[0] as int
    } else {
        0
    };
    let mut d2: usize = 1;
    while d2 < nd
        invariant
            nd == dirs@.len() == dirc@.len() == blk_lens@.len(),
            1 <= d2 <= nd,
            dir_first@.len() == d2,
            geometry_wf(g),
            root_part == if is32 {
                dirc@[0] as int
            } else {
                0int
            },
            is32 == g.kind is Fat32,
            root_part + sum64(dirc@.subrange(1, nd as int)) + sum64(filec@) <= g.clusters,
            nc as int == 2 + root_part + sum64(dirc@.subrange(1, d2 as int)),
            2 <= nc,
            nc as int <= 2 + g.clusters,
            forall|k: int| 0 <= k < dirc@.len() ==> 1 <= #[trigger] dirc@[k] <= 0x0040_0000,
            forall|k: int| 0 <= k < d2 ==> #[trigger] dir_first@[k] <= 0x0fff_ffff,
            forall|c: int|
                0 <= c < chains@.len() ==> {
                    let e = #[trigger] chains@[c];
                    2 <= e.0 && 1 <= e.1 && e.0 + e.1 <= nc
                },
        decreases nd - d2,
    {
        let c = dirc[d2];
        proof {
            let pre_s = dirc@.subrange(1, d2 as int);
            assert(dirc@.subrange(1, (d2 + 1) as int) =~= pre_s.push(c));
            assert(pre_s.push(c).drop_last() =~= pre_s);
            let whole = dirc@.subrange(1, nd as int);
            lemma_sum64_prefix(whole, (d2 as int));
            assert(whole.subrange(0, d2 as int) =~= dirc@.subrange(1, (d2 + 1) as int));
            lemma_sum64_nonneg(filec@);
            assert(nc as int + c <= 2 + g.clusters);
        }
        dir_first.push(nc);
        chains.push((nc, c));
        nc = nc + c;
        d2 = d2 + 1;
    }
    let ghost dirs_sum: int = sum64(dirc@.subrange(1, nd as int));
    let mut file_first: Vec<u64> = Vec::new();
    i = 0;
    while i < nf
        invariant
            nf == files@.len() == file_lens@.len() == filec@.len(),
            nd == dirs@.len() == dirc@.len(),
            i <= nf,
            file_first@.len() == i,
            dir_first@.len() == nd,
            geometry_wf(g),
            dirs_sum == sum64(dirc@.subrange(1, nd as int)),
            root_part + dirs_sum + sum64(filec@) <= g.clusters,
            nc as int == 2 + root_part + dirs_sum + sum64(filec@.subrange(0, i as int)),
            2 <= nc,
            nc as int <= 2 + g.clusters,
            forall|k: int| 0 <= k < filec@.len() ==> #[trigger] filec@[k] <= 0x0080_0000,
            forall|k: int|
                0 <= k < filec@.len() ==> (#[trigger] file_lens@[k] == 0 <==> filec@[k] == 0),
            forall|k: int| 0 <= k < i ==> #[trigger] file_first@[k] <= 0x0fff_ffff,
            forall|k: int| 0 <= k < nd ==> #[trigger] dir_first@[k] <= 0x0fff_ffff,
            forall|c: int|
                0 <= c < chains@.len() ==> {
                    let e = #[trigger] chains@[c];
                    2 <= e.0 && 1 <= e.1 && e.0 + e.1 <= nc
                },
        decreases nf - i,
    {
        let c = filec[i];
        proof {
            let pre_s = filec@.subrange(0, i as int);
            assert(filec@.subrange(0, (i + 1) as int) =~= pre_s.push(c));
            assert(pre_s.push(c).drop_last() =~= pre_s);
            lemma_sum64_prefix(filec@, (i + 1) as int);
            assert(filec@.subrange(0, filec@.len() as int) =~= filec@);
            assert(nc as int + c <= 2 + g.clusters);
        }
        if c == 0 {
            file_first.push(0);
        } else {
            file_first.push(nc);
            chains.push((nc, c));
        }
        nc = nc + c;
        i = i + 1;
    }
    let used = nc - 2;
    // one copy of the allocation table
    let fat_table = build_fat_table(&g, &chains);
    // assemble the volume
    let boot = build_boot_sector(&g);
    let mut img: Vec<u8> = Vec::new();
    push_all(&mut img, &boot);
    assert(fat_header_ok(img@));
    if is32 {
        let ghost pre = img@;
        let fsinfo = build_fsinfo();
        push_all(&mut img, &fsinfo);
        push_zeros(&mut img, 2048);  // sectors 2 through 5
        push_all(&mut img, &boot);  // backup boot sector at sector 6
        push_all(&mut img, &fsinfo);  // backup information sector at 7
        push_zeros(&mut img, 12288);  // rest of the 32 reserved sectors
        proof {
            lemma_header_prefix(pre, img@);
        }
        assert(img@.len() == 16384);
    }
    assert(img@.len() % 512 == 0);
    let ghost pre_fats = img@;
    push_all(&mut img, &fat_table);
    push_all(&mut img, &fat_table);
    proof {
        lemma_header_prefix(pre_fats, img@);
        assert((g.fat_sectors * 512) % 512 == 0) by (nonlinear_arith);
        lemma_mod512_add(pre_fats.len() as int, (g.fat_sectors * 512) as int);
        lemma_mod512_add(
            pre_fats.len() as int + (g.fat_sectors * 512) as int,
            (g.fat_sectors * 512) as int,
        );
    }
    assert(img@.len() % 512 == 0);
    if !is32 {
        // fixed root directory region of 512 entries
        let mut rb = crate::bytes::clone_bytes(&blocks[0]);
        patch_dir_block(&mut rb, &fixes_all[0], &dir_first, &file_first);
        assert(rb@.len() == blk_lens@[0]);
        assert(blk_lens@[0] <= 16384);
        let pad = 16384 - rb.len();
        let ghost pre = img@;
        push_all(&mut img, &rb);
        push_zeros(&mut img, pad);
        proof {
            lemma_header_prefix(pre, img@);
            lemma_mod512_add(pre.len() as int, 16384);
        }
    }
    assert(img@.len() % 512 == 0);
    // data region: FAT32 root chain first, then the directories
    let mut dd: usize = if is32 {
        0
    } else {
        1
    };
    while dd < nd
        invariant
            nd == dirs@.len() == dirc@.len() == blk_lens@.len() == blocks@.len()
                == fixes_all@.len(),
            dir_first@.len() == nd,
            file_first@.len() == nf,
            nf == files@.len() == fils@.len(),
            fat_header_ok(img@),
            img@.len() % 512 == 0,
            all_paths_ok(files@),
            !has_collision(files@),
            fit == fat_inputs_fit(files@),
            tree_wf(dirs@, fils@),
            geometry_wf(g),
            fit ==> g.spc == 1 && (forall|k: int|
                0 <= k < dirc@.len() ==> #[trigger] dirc@[k] <= 1024),
            forall|k: int| 0 <= k < nd ==> #[trigger] blk_lens@[k] == blocks@[k]@.len(),
            forall|k: int|
                0 <= k < nd ==> fixes_ok(
                    (#[trigger] fixes_all@[k])@,
                    blocks@[k]@.len() as int,
                    dirs@.len() as int,
                    fils@.len() as int,
                ),
            forall|k: int| 0 <= k < nd ==> 1 <= #[trigger] dirc@[k] <= 0x0040_0000 && blk_lens@[k]
                <= dirc@[k] * g.cb,
            forall|k: int| 0 <= k < nd ==> #[trigger] dir_first@[k] <= 0x0fff_ffff,
            forall|k: int| 0 <= k < nf ==> #[trigger] file_first@[k] <= 0x0fff_ffff,
        decreases nd - dd,
    {
        let mut blk = crate::bytes::clone_bytes(&blocks[dd]);
        patch_dir_block(&mut blk, &fixes_all[dd], &dir_first, &file_first);
        proof {
            assert(dirc@[dd as int] * g.cb <= 0x0040_0000 * 65536) by (nonlinear_arith)
                requires
                    dirc@[dd as int] <= 0x0040_0000,
                    g.cb <= 65536,
                    dirc@[dd as int] >= 0,
                    g.cb >= 0,
            ;
        }
        let cap64 = dirc[dd] * g.cb;
        if cap64 > usize::MAX as u64 {
            proof {
                if fit {
                    assert(g.cb == 512);
                    assert(cap64 == dirc@[dd as int] * 512);
                    assert(dirc@[dd as int] <= 1024);
                    assert(cap64 <= 524288);
                    assert(usize::MAX >= 0xffff_ffff);
                    assert(false);
                }
            }
            return Err(BuildError::Capacity);
        }
        assert(blk@.len() as u64 <= cap64);
        let pad = (cap64 - blk.len() as u64) as usize;
        let ghost pre = img@;
        push_all(&mut img, &blk);
        push_zeros(&mut img, pad);
        proof {
            lemma_header_prefix(pre, img@);
            assert(dirc@[dd as int] * g.cb == (dirc@[dd as int] * g.spc) * 512)
                by (nonlinear_arith)
                requires
                    g.cb == g.spc * 512,
            ;
            vstd::arithmetic::div_mod::lemma_mod_multiples_basic(
                (dirc@[dd as int] * g.spc) as int,
                512,
            );
            lemma_mod512_add(pre.len() as int, cap64 as int);
        }
        dd = dd + 1;
    }
    // file contents, each at a fresh sector-aligned offset
    let mut offs: Vec<usize> = Vec::new();
    i = 0;
    while i < nf
        invariant
            nf == files@.len() == file_lens@.len() == filec@.len(),
            i <= nf,
            offs@.len() == i,
            fat_header_ok(img@),
            img@.len() % 512 == 0,
            all_paths_ok(files@),
            !has_collision(files@),
            fit == fat_inputs_fit(files@),
            geometry_wf(g),
            fit ==> g.spc == 1 && (forall|k: int|
                0 <= k < filec@.len() ==> #[trigger] filec@[k] <= 32768),
            forall|k: int| 0 <= k < nf ==> #[trigger] file_lens@[k] == files@[k].data@.len(),
            forall|k: int| 0 <= k < nf ==> #[trigger] filec@[k] <= 0x0080_0000 && file_lens@[k]
                <= filec@[k] * g.cb,
            forall|k: int| 0 <= k < i ==> #[trigger] placement_at(files@, img@, offs@, k),
            forall|x: int, y: int|
                #![trigger offs@[x], offs@[y]]
                0 <= x < y < i && files@[x].data@.len() > 0 && files@[y].data@.len() > 0
                    ==> offs@[x] + files@[x].data@.len() <= offs@[y],
        decreases nf - i,
    {
        let len = files[i].data.len();
        if len == 0 {
            let ghost offs_pre = offs@;
            offs.push(0);
            proof {
                assert(placement_at(files@, img@, offs@, i as int)) by {
                    assert(offs@[i as int] == 0usize);
                    assert(files@[i as int].data@ =~= img@.subrange(0, 0));
                }
                assert forall|k: int| 0 <= k < i implies #[trigger] placement_at(
                    files@,
                    img@,
                    offs@,
                    k,
                ) by {
                    assert(placement_at(files@, img@, offs_pre, k));
                    assert(offs@[k] == offs_pre[k]);
                }
                assert forall|x: int, y: int|
                    #![trigger offs@[x], offs@[y]]
                    0 <= x < y < i + 1 && files@[x].data@.len() > 0 && files@[y].data@.len() > 0
                        implies offs@[x] + files@[x].data@.len() <= offs@[y] by {
                    assert(files@[i as int].data@.len() == 0);
                    assert(y < i);
                    assert(offs@[x] == offs_pre[x] && offs@[y] == offs_pre[y]);
                }
            }
        } else {
            let off = img.len();
            assert(off % 512 == 0);
            proof {
                assert(filec@[i as int] * g.cb <= 0x0080_0000 * 65536) by (nonlinear_arith)
                    requires
                        filec@[i as int] <= 0x0080_0000,
                        g.cb <= 65536,
                        filec@[i as int] >= 0,
                        g.cb >= 0,
                ;
            }
            let cap64 = filec[i] * g.cb;
            if cap64 > usize::MAX as u64 {
                proof {
                    if fit {
                        assert(g.cb == 512);
                        assert(cap64 == filec@[i as int] * 512);
                        assert(filec@[i as int] <= 32768);
                        assert(cap64 <= 16777216);
                        assert(usize::MAX >= 0xffff_ffff);
                        assert(false);
                    }
                }
                return Err(BuildError::Capacity);
            }
            assert(len as u64 <= cap64) by {
                assert(file_lens@[i as int] == files@[i as int].data@.len());
                assert(file_lens@[i as int] <= filec@[i as int] * g.cb);
            }
            let pad = (cap64 - len as u64) as usize;
            let ghost pre = img@;
            push_all(&mut img, &files[i].data);
            assert(img@.subrange(off as int, off + len) =~= files@[i as int].data@);
            let ghost mid = img@;
            push_zeros(&mut img, pad);
            proof {
                lemma_header_prefix(pre, img@);
                lemma_placements_prefix(files@, pre, img@, offs@, i as int);
                lemma_subrange_prefix(mid, img@, off as int, off + len);
                assert(filec@[i as int] * g.cb == (filec@[i as int] * g.spc) * 512)
                    by (nonlinear_arith)
                    requires
                        g.cb == g.spc * 512,
                ;
                vstd::arithmetic::div_mod::lemma_mod_multiples_basic(
                    (filec@[i as int] * g.spc) as int,
                    512,
                );
                lemma_mod512_add(pre.len() as int, cap64 as int);
            }
            let ghost offs_pre = offs@;
            offs.push(off);
            proof {
                assert(placement_at(files@, img@, offs@, i as int)) by {
                    assert(offs@[i as int] == off);
                    assert(img@.subrange(off as int, off + len) == files@[i as int].data@);
                }
                assert forall|k: int| 0 <= k < i implies #[trigger] placement_at(
                    files@,
                    img@,
                    offs@,
                    k,
                ) by {
                    assert(placement_at(files@, img@, offs_pre, k));
                    assert(offs@[k] == offs_pre[k]);
                }
                assert forall|x: int, y: int|
                    #![trigger offs@[x], offs@[y]]
                    0 <= x < y < i + 1 && files@[x].data@.len() > 0 && files@[y].data@.len() > 0
                        implies offs@[x] + files@[x].data@.len() <= offs@[y] by {
                    assert(offs@[x] == offs_pre[x]);
                    if y < i {
                        assert(offs@[y] == offs_pre[y]);
                    } else {
                        assert(offs@[y] == off);
                        assert(placement_at(files@, pre, offs_pre, x));
                    }
                }
            }
        }
        i = i + 1;
    }
    // free clusters at the tail of the data region
    let free = g.clusters - used;
    proof {
        assert(free * g.cb <= 0x0fff_fff4 * 65536) by (nonlinear_arith)
            requires
                free <= 0x0fff_fff4,
                g.cb <= 65536,
                free >= 0,
                g.cb >= 0,
        ;
    }
    let freebytes = free * g.cb;
    if freebytes > usize::MAX as u64 {
        proof {
            if fit {
                assert(g.cb == 512);
                assert(free <= 3000000);
                assert(freebytes == free * 512);
                assert(freebytes <= 1536000000);
                assert(usize::MAX >= 0xffff_ffff);
                assert(false);
            }
        }
        return Err(BuildError::Capacity);
    }
    let ghost pre_free = img@;
    push_zeros(&mut img, freebytes as usize);
    proof {
        lemma_header_prefix(pre_free, img@);
        lemma_placements_prefix(files@, pre_free, img@, offs@, nf as int);
        assert(free * g.cb == (free * g.spc) * 512) by (nonlinear_arith)
            requires
                g.cb == g.spc * 512,
        ;
        vstd::arithmetic::div_mod::lemma_mod_multiples_basic((free * g.spc) as int, 512);
        lemma_mod512_add(pre_free.len() as int, freebytes as int);
    }
    assert(img@.len() % 512 == 0);
    Ok(FatImage { bytes: img, file_offsets: offs, fat_type: g.kind, cluster_count: g.clusters })
}

} // verus!
