//! File modes and device numbers as `ls -l` shows them.
use vstd::prelude::*;
use crate::text::string_of;

verus! {

/// The file-type bits of a mode.
pub open spec fn file_type_bits(mode: u32) -> u32 {
    mode & 0o170000
}

/// Whether the mode is that of a block or character device.
pub open spec fn is_device_mode(mode: u32) -> bool {
    file_type_bits(mode) == 0o060000 || file_type_bits(mode) == 0o020000
}

/// The first letter of a mode string: `d` directory, `l` link, `b` block
/// device, `c` character device, `p` pipe, `s` socket, `-` anything else.
pub open spec fn type_letter(mode: u32, is_dir: bool, is_symlink: bool) -> char {
    if is_dir {
        'd'
    } else if is_symlink {
        'l'
    } else if file_type_bits(mode) == 0o060000 {
        'b'
    } else if file_type_bits(mode) == 0o020000 {
        'c'
    } else if file_type_bits(mode) == 0o010000 {
        'p'
    } else if file_type_bits(mode) == 0o140000 {
        's'
    } else {
        '-'
    }
}

/// `letter` when the permission bit `bit` is set in `mode`, else `-`.
pub open spec fn perm_letter(mode: u32, bit: u32, letter: char) -> char {
    if mode & bit != 0 {
        letter
    } else {
        '-'
    }
}

/// The ten-character mode string: the type letter, then read, write and
/// execute for owner, group and others.
pub open spec fn mode_string(mode: u32, is_dir: bool, is_symlink: bool) -> Seq<char> {
    seq![
        type_letter(mode, is_dir, is_symlink),
        perm_letter(mode, 0o400, 'r'),
        perm_letter(mode, 0o200, 'w'),
        perm_letter(mode, 0o100, 'x'),
        perm_letter(mode, 0o040, 'r'),
        perm_letter(mode, 0o020, 'w'),
        perm_letter(mode, 0o010, 'x'),
        perm_letter(mode, 0o004, 'r'),
        perm_letter(mode, 0o002, 'w'),
        perm_letter(mode, 0o001, 'x'),
    ]
}

fn perm(mode: u32, bit: u32, letter: char) -> (c: char)
    ensures
        c == perm_letter(mode, bit, letter),
{
    if mode & bit != 0 {
        letter
    } else {
        '-'
    }
}

/// The mode string of a file, such as `drwxr-xr-x`.
pub fn format_mode(mode: u32, is_dir: bool, is_symlink: bool) -> (s: String)
    ensures
        s@ == mode_string(mode, is_dir, is_symlink),
{
    let mut chars: Vec<char> = Vec::new();
    let t = mode & 0o170000;
    let first = if is_dir {
        'd'
    } else if is_symlink {
        'l'
    } else if t == 0o060000 {
        'b'
    } else if t == 0o020000 {
        'c'
    } else if t == 0o010000 {
        'p'
    } else if t == 0o140000 {
        's'
    } else {
        '-'
    };
    chars.push(first);
    chars.push(perm(mode, 0o400, 'r'));
    chars.push(perm(mode, 0o200, 'w'));
    chars.push(perm(mode, 0o100, 'x'));
    chars.push(perm(mode, 0o040, 'r'));
    chars.push(perm(mode, 0o020, 'w'));
    chars.push(perm(mode, 0o010, 'x'));
    chars.push(perm(mode, 0o004, 'r'));
    chars.push(perm(mode, 0o002, 'w'));
    chars.push(perm(mode, 0o001, 'x'));
    assert(chars@ =~= mode_string(mode, is_dir, is_symlink));
    string_of(chars.as_slice())
}

/// The mark `ls -F` appends: `/` for a directory, `@` for a link, `*` for
/// a file that someone may execute, none otherwise.
pub open spec fn indicator(mode: u32, is_dir: bool, is_symlink: bool) -> Option<char> {
    if is_dir {
        Some('/')
    } else if is_symlink {
        Some('@')
    } else if mode & 0o111 != 0 {
        Some('*')
    } else {
        None
    }
}

/// The mark `ls -F` appends to a name.
pub fn classify_mark(mode: u32, is_dir: bool, is_symlink: bool) -> (m: Option<char>)
    ensures
        m == indicator(mode, is_dir, is_symlink),
{
    if is_dir {
        Some('/')
    } else if is_symlink {
        Some('@')
    } else if mode & 0o111 != 0 {
        Some('*')
    } else {
        None
    }
}

/// The major number in glibc's layout of a 64-bit `dev_t`: bits 8..20 with
/// bits 44..64 above them.
pub open spec fn glibc_major(rdev: u64) -> int {
    (rdev / 0x100) % 0x1000 + ((rdev / 0x1000_0000_0000) % 0x10_0000) * 0x1000
}

/// The minor number in glibc's layout: bits 0..8 with bits 20..44 above them.
pub open spec fn glibc_minor(rdev: u64) -> int {
    rdev % 0x100 + ((rdev / 0x10_0000) % 0x100_0000) * 0x100
}

/// The major number in Darwin's layout: bits 24..32.
pub open spec fn darwin_major(rdev: u64) -> int {
    ((rdev / 0x100_0000) % 0x100) as int
}

/// The minor number in Darwin's layout: bits 0..24.
pub open spec fn darwin_minor(rdev: u64) -> int {
    (rdev % 0x100_0000) as int
}

/// The device number glibc's `makedev` builds.
pub open spec fn glibc_makedev(major: u32, minor: u32) -> u64 {
    ((major as u64 & 0xfff) << 8u64) | ((major as u64 & 0xffff_f000) << 32u64) | (minor as u64
        & 0xff) | ((minor as u64 & 0xffff_ff00) << 12u64)
}

/// The device number Darwin's `makedev` builds.
pub open spec fn darwin_makedev(major: u32, minor: u32) -> u64 {
    ((major as u64) << 24u64) | (minor as u64)
}

/// Major and minor numbers of a device as glibc lays them out in a 64-bit
/// `dev_t`.
pub fn major_minor(rdev: u64) -> (r: (u32, u32))
    ensures
        r.0 == glibc_major(rdev),
        r.1 == glibc_minor(rdev),
{
    let major = ((rdev >> 8u64) & 0xfff) | ((rdev >> 32u64) & !0xfffu64);
    let minor = (rdev & 0xff) | ((rdev >> 12u64) & !0xffu64);
    assert(((((rdev >> 8u64) & 0xfff) | ((rdev >> 32u64) & !0xfffu64)) as u32) as u64 == (rdev
        / 0x100) % 0x1000 + ((rdev / 0x1000_0000_0000) % 0x10_0000) * 0x1000) by (bit_vector);
    assert((((rdev & 0xff) | ((rdev >> 12u64) & !0xffu64)) as u32) as u64 == rdev % 0x100 + ((rdev
        / 0x10_0000) % 0x100_0000) * 0x100) by (bit_vector);
    (major as u32, minor as u32)
}

/// Major and minor numbers of a device as Darwin lays them out.
pub fn major_minor_darwin(rdev: u64) -> (r: (u32, u32))
    ensures
        r.0 == darwin_major(rdev),
        r.1 == darwin_minor(rdev),
{
    let major = (rdev >> 24u64) & 0xff;
    let minor = rdev & 0xffffff;
    assert((rdev >> 24u64) & 0xff == (rdev / 0x100_0000) % 0x100) by (bit_vector);
    assert(rdev & 0xffffff == rdev % 0x100_0000) by (bit_vector);
    (major as u32, minor as u32)
}


/// Reading a device number that glibc's `makedev` built gives back its
/// major and minor numbers.
pub proof fn law_glibc_device_round_trip(major: u32, minor: u32)
    ensures
        glibc_major(glibc_makedev(major, minor)) == major,
        glibc_minor(glibc_makedev(major, minor)) == minor,
{
    let r = glibc_makedev(major, minor);
    assert(r == ((major as u64 & 0xfff) << 8u64) | ((major as u64 & 0xffff_f000) << 32u64) | (
    minor as u64 & 0xff) | ((minor as u64 & 0xffff_ff00) << 12u64));
    assert((r / 0x100) % 0x1000 + ((r / 0x1000_0000_0000) % 0x10_0000) * 0x1000 == major as u64)
        by (bit_vector)
        requires
            r == ((major as u64 & 0xfff) << 8u64) | ((major as u64 & 0xffff_f000) << 32u64) | (
            minor as u64 & 0xff) | ((minor as u64 & 0xffff_ff00) << 12u64),
    ;
    assert(r % 0x100 + ((r / 0x10_0000) % 0x100_0000) * 0x100 == minor as u64) by (bit_vector)
        requires
            r == ((major as u64 & 0xfff) << 8u64) | ((major as u64 & 0xffff_f000) << 32u64) | (
            minor as u64 & 0xff) | ((minor as u64 & 0xffff_ff00) << 12u64),
    ;
}

/// Reading a device number that Darwin's `makedev` built from a major below
/// 256 and a minor below 2^24 gives back those numbers.
pub proof fn law_darwin_device_round_trip(major: u32, minor: u32)
    requires
        major < 0x100,
        minor < 0x100_0000,
    ensures
        darwin_major(darwin_makedev(major, minor)) == major,
        darwin_minor(darwin_makedev(major, minor)) == minor,
{
    let r = darwin_makedev(major, minor);
    assert((r / 0x100_0000) % 0x100 == major as u64 && r % 0x100_0000 == minor as u64) by (
    bit_vector)
        requires
            r == ((major as u64) << 24u64) | (minor as u64),
            major < 0x100,
            minor < 0x100_0000,
    ;
}

} // verus!
