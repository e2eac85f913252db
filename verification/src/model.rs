//! The vocabulary of the takeover: paths, mount intents, configuration and
//! the classification of the root filesystem.

use vstd::prelude::*;

verus! {

/// Filesystem-type number of the vendor ramdisk root.
pub const VENDOR_ROOTFS_MAGIC: u64 = 0x858458f6;

/// Filesystem-type number of tmpfs.
pub const TMPFS_MAGIC: u64 = 0x01021994;

/// The init program a boot attempt is running as.
#[derive(Clone, Copy, Debug, PartialEq, Eq, Structural)]
pub enum BootStage {
    FirstStage,
    SecondStage,
}

/// What is mounted at `/`.
#[derive(Clone, Copy, Debug, PartialEq, Eq, Structural)]
pub enum RootfsKind {
    /// Still on the temporary ramdisk root.
    RamdiskTmpfs,
    /// The system partition is the root.
    SystemAsRoot,
}

/// Read-only settings of a boot attempt.
#[derive(Clone, Copy, Debug, PartialEq, Eq, Structural)]
pub struct Config {
    /// Assume the rootfs-rooted storage layout instead of the ramdisk-rooted one.
    pub force_normal_boot: bool,
}

/// The paths that the takeover touches.
#[derive(Clone, Copy, Debug, PartialEq, Eq, Structural)]
pub enum BootPath {
    Root,
    Init,
    Sdcard,
    RamdiskSdcard,
    RamdiskStorageSelf,
    RamdiskStoragePrimary,
    StorageSelf,
    StoragePrimary,
    SystemSystemBinInit,
    SystemBinInit,
    DataMagiskinit,
    DataInit,
}

/// A change to the mount table.
#[derive(Clone, Copy, Debug, PartialEq, Eq, Structural)]
pub enum MountIntent {
    /// Bind `source` over `target`, with no other flag.
    Bind { source: BootPath, target: BootPath },
    /// Lazily detach whatever is mounted at `target`.
    Detach { target: BootPath },
}

impl BootPath {
    /// The path as text.
    pub open spec fn text(self) -> Seq<char> {
        match self {
            BootPath::Root => "/"@,
            BootPath::Init => "/init"@,
            BootPath::Sdcard => "/sdcard"@,
            BootPath::RamdiskSdcard => "/first_stage_ramdisk/sdcard"@,
            BootPath::RamdiskStorageSelf => "/first_stage_ramdisk/storage/self"@,
            BootPath::RamdiskStoragePrimary => "/first_stage_ramdisk/storage/self/primary"@,
            BootPath::StorageSelf => "/storage/self"@,
            BootPath::StoragePrimary => "/storage/self/primary"@,
            BootPath::SystemSystemBinInit => "/system/system/bin/init"@,
            BootPath::SystemBinInit => "/system/bin/init"@,
            BootPath::DataMagiskinit => "/data/magiskinit"@,
            BootPath::DataInit => "/data/init"@,
        }
    }

    /// The path as text.
    pub fn as_str(self) -> (s: &'static str)
        ensures
            s@ == self.text(),
    {
        match self {
            BootPath::Root => "/",
            BootPath::Init => "/init",
            BootPath::Sdcard => "/sdcard",
            BootPath::RamdiskSdcard => "/first_stage_ramdisk/sdcard",
            BootPath::RamdiskStorageSelf => "/first_stage_ramdisk/storage/self",
            BootPath::RamdiskStoragePrimary => "/first_stage_ramdisk/storage/self/primary",
            BootPath::StorageSelf => "/storage/self",
            BootPath::StoragePrimary => "/storage/self/primary",
            BootPath::SystemSystemBinInit => "/system/system/bin/init",
            BootPath::SystemBinInit => "/system/bin/init",
            BootPath::DataMagiskinit => "/data/magiskinit",
            BootPath::DataInit => "/data/init",
        }
    }
}

/// The bytes of an ASCII text.
pub open spec fn ascii_bytes(text: Seq<char>) -> Seq<u8> {
    Seq::new(text.len(), |i: int| text[i] as u8)
}

/// The byte sequence that an init image holds wherever it names the real
/// init: the text of `BootPath::SystemBinInit`.
pub open spec fn real_init_literal() -> Seq<u8> {
    ascii_bytes(BootPath::SystemBinInit.text())
}

/// The byte sequence that takes its place: the text of
/// `BootPath::DataMagiskinit`.
pub open spec fn replacement_literal() -> Seq<u8> {
    ascii_bytes(BootPath::DataMagiskinit.text())
}

/// The two literals have the same length, sixteen bytes, so that putting one
/// in place of the other never moves a byte of the image.
pub proof fn literals_have_equal_length()
    ensures
        real_init_literal().len() == 16,
        replacement_literal().len() == 16,
{
    reveal_strlit("/system/bin/init");
    reveal_strlit("/data/magiskinit");
}

/// The bytes of `path`, which is `BootPath::SystemBinInit` or
/// `BootPath::DataMagiskinit` where an image is rewritten.
pub fn path_bytes(path: BootPath) -> (bytes: &'static [u8])
    ensures
        bytes@ == ascii_bytes(path.text()),
{
    let s: &'static str = path.as_str();
    proof {
        reveal_strlit("/");
        reveal_strlit("/init");
        reveal_strlit("/sdcard");
        reveal_strlit("/first_stage_ramdisk/sdcard");
        reveal_strlit("/first_stage_ramdisk/storage/self");
        reveal_strlit("/first_stage_ramdisk/storage/self/primary");
        reveal_strlit("/storage/self");
        reveal_strlit("/storage/self/primary");
        reveal_strlit("/system/system/bin/init");
        reveal_strlit("/system/bin/init");
        reveal_strlit("/data/magiskinit");
        reveal_strlit("/data/init");
        assert(vstd::string::is_ascii(s));
        vstd::string::is_ascii_spec_bytes(s);
    }
    s.as_bytes()
}

/// Classifies the root filesystem by its filesystem-type number: the vendor
/// ramdisk number and the tmpfs number both mean that the root is still the
/// temporary one; every other number means that the system partition is the
/// root.
pub fn classify_rootfs(magic: u64) -> (kind: RootfsKind)
    ensures
        (magic == 0x858458f6 || magic == 0x01021994) ==> kind == RootfsKind::RamdiskTmpfs,
        !(magic == 0x858458f6 || magic == 0x01021994) ==> kind == RootfsKind::SystemAsRoot,
        kind == rootfs_kind(magic),
{
    if magic == VENDOR_ROOTFS_MAGIC || magic == TMPFS_MAGIC {
        RootfsKind::RamdiskTmpfs
    } else {
        RootfsKind::SystemAsRoot
    }
}

/// The kind of root that a filesystem-type number stands for.
pub open spec fn rootfs_kind(magic: u64) -> RootfsKind {
    if magic == VENDOR_ROOTFS_MAGIC || magic == TMPFS_MAGIC {
        RootfsKind::RamdiskTmpfs
    } else {
        RootfsKind::SystemAsRoot
    }
}

} // verus!
