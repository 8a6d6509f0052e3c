//! What `ls` knows of a file, as plain values.
use vstd::prelude::*;

verus! {

/// The metadata of a file that `ls` shows.
pub struct EntryMeta {
    /// Type and permission bits.
    pub mode: u32,
    pub is_dir: bool,
    pub is_symlink: bool,
    /// Number of hard links.
    pub nlink: u64,
    pub uid: u32,
    pub gid: u32,
    /// Device number, for device files.
    pub rdev: u64,
    /// Size in bytes.
    pub size: u64,
    /// 512-byte blocks allocated.
    pub blocks: u64,
    /// The `ctime` text of the modification time, when there is one.
    pub mtime_text: Option<String>,
}

/// A named file with its metadata.
pub struct LsEntry {
    pub name: String,
    pub meta: EntryMeta,
}

/// How device numbers are laid out on the platform.
pub enum DeviceLayout {
    Glibc,
    Darwin,
}

} // verus!
