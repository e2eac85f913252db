use twostage::machine::redirect_image;
use twostage::model::{classify_rootfs, path_bytes, BootPath, RootfsKind, TMPFS_MAGIC, VENDOR_ROOTFS_MAGIC};
use twostage::patch::{matches_at, overwrite, patch, PatchTarget};

#[test]
fn patch_replaces_single_occurrence() {
    let mut image = b"xx/system/bin/inityy".to_vec();
    let offsets = patch(&mut image, b"/system/bin/init", b"/data/magiskinit");
    assert_eq!(offsets, vec![2usize]);
    assert_eq!(image, b"xx/data/magiskinityy".to_vec());
}

#[test]
fn patch_replaces_every_occurrence_and_keeps_length() {
    let mut image = b"/system/bin/init\0exec /system/bin/init\0/system/bin/ini".to_vec();
    let before = image.len();
    let offsets = patch(&mut image, b"/system/bin/init", b"/data/magiskinit");
    assert_eq!(offsets, vec![0usize, 22]);
    assert_eq!(image.len(), before);
    assert_eq!(image, b"/data/magiskinit\0exec /data/magiskinit\0/system/bin/ini".to_vec());
}

#[test]
fn patch_without_occurrence_changes_nothing() {
    let mut image = b"nothing to see /system/bin/sh".to_vec();
    let copy = image.clone();
    let offsets = patch(&mut image, b"/system/bin/init", b"/data/magiskinit");
    assert!(offsets.is_empty());
    assert_eq!(image, copy);
}

#[test]
fn patch_on_empty_and_short_images() {
    let mut empty: Vec<u8> = Vec::new();
    assert!(patch(&mut empty, b"ab", b"cd").is_empty());
    assert!(empty.is_empty());
    let mut short = b"a".to_vec();
    assert!(patch(&mut short, b"ab", b"cd").is_empty());
    assert_eq!(short, b"a".to_vec());
}

#[test]
fn patch_selects_from_the_left_without_overlap() {
    let mut image = b"aaa".to_vec();
    let offsets = patch(&mut image, b"aa", b"bb");
    assert_eq!(offsets, vec![0usize]);
    assert_eq!(image, b"bba".to_vec());

    let mut image = b"aaaaa".to_vec();
    let offsets = patch(&mut image, b"aa", b"ba");
    assert_eq!(offsets, vec![0usize, 2]);
    assert_eq!(image, b"babaa".to_vec());
}

#[test]
fn patch_does_not_rescan_what_it_wrote() {
    let mut image = b"abb".to_vec();
    let offsets = patch(&mut image, b"ab", b"ca");
    assert_eq!(offsets, vec![0usize]);
    assert_eq!(image, b"cab".to_vec());
}

#[test]
fn patch_at_the_very_end() {
    let mut image = b"xyzab".to_vec();
    let offsets = patch(&mut image, b"ab", b"cd");
    assert_eq!(offsets, vec![3usize]);
    assert_eq!(image, b"xyzcd".to_vec());
}

#[test]
fn patch_whole_image() {
    let mut image = b"ab".to_vec();
    let offsets = patch(&mut image, b"ab", b"cd");
    assert_eq!(offsets, vec![0usize]);
    assert_eq!(image, b"cd".to_vec());
}

#[test]
fn patch_adjacent_occurrences() {
    let mut image = b"ababab".to_vec();
    let offsets = patch(&mut image, b"ab", b"xy");
    assert_eq!(offsets, vec![0usize, 2, 4]);
    assert_eq!(image, b"xyxyxy".to_vec());
}

#[test]
fn matches_at_tells_occurrences() {
    let hay = b"hello world".to_vec();
    assert!(matches_at(&hay, b"hello", 0));
    assert!(matches_at(&hay, b"world", 6));
    assert!(!matches_at(&hay, b"world", 5));
    assert!(matches_at(&hay, b"", 11));
}

#[test]
fn overwrite_touches_only_its_window() {
    let mut image = b"0123456789".to_vec();
    overwrite(&mut image, 3, b"abc");
    assert_eq!(image, b"012abc6789".to_vec());
    overwrite(&mut image, 10, b"");
    assert_eq!(image, b"012abc6789".to_vec());
}

#[test]
fn redirect_image_swaps_the_init_paths() {
    let mut image = b"\x7fELF..../system/bin/init\0../system/bin/init".to_vec();
    let offsets = redirect_image(BootPath::Init, &mut image);
    assert_eq!(offsets, vec![8usize, 27]);
    assert_eq!(image, b"\x7fELF..../data/magiskinit\0../data/magiskinit".to_vec());
}

#[test]
fn redirect_image_twice_finds_nothing_more() {
    let mut image = b"/system/bin/init".to_vec();
    assert_eq!(redirect_image(BootPath::Init, &mut image), vec![0usize]);
    assert!(redirect_image(BootPath::Init, &mut image).is_empty());
    assert_eq!(image, b"/data/magiskinit".to_vec());
}

#[test]
fn literals_are_sixteen_bytes() {
    assert_eq!(path_bytes(BootPath::SystemBinInit), b"/system/bin/init");
    assert_eq!(path_bytes(BootPath::DataMagiskinit), b"/data/magiskinit");
    assert_eq!(path_bytes(BootPath::SystemBinInit).len(), 16);
    assert_eq!(path_bytes(BootPath::DataMagiskinit).len(), 16);
}

#[test]
fn paths_read_as_documented() {
    assert_eq!(BootPath::Root.as_str(), "/");
    assert_eq!(BootPath::Init.as_str(), "/init");
    assert_eq!(BootPath::Sdcard.as_str(), "/sdcard");
    assert_eq!(BootPath::RamdiskSdcard.as_str(), "/first_stage_ramdisk/sdcard");
    assert_eq!(BootPath::RamdiskStorageSelf.as_str(), "/first_stage_ramdisk/storage/self");
    assert_eq!(
        BootPath::RamdiskStoragePrimary.as_str(),
        "/first_stage_ramdisk/storage/self/primary"
    );
    assert_eq!(BootPath::StorageSelf.as_str(), "/storage/self");
    assert_eq!(BootPath::StoragePrimary.as_str(), "/storage/self/primary");
    assert_eq!(BootPath::SystemSystemBinInit.as_str(), "/system/system/bin/init");
    assert_eq!(BootPath::SystemBinInit.as_str(), "/system/bin/init");
    assert_eq!(BootPath::DataMagiskinit.as_str(), "/data/magiskinit");
    assert_eq!(BootPath::DataInit.as_str(), "/data/init");
}

#[test]
fn rootfs_magic_classification() {
    assert_eq!(classify_rootfs(0x858458f6), RootfsKind::RamdiskTmpfs);
    assert_eq!(classify_rootfs(0x01021994), RootfsKind::RamdiskTmpfs);
    assert_eq!(classify_rootfs(VENDOR_ROOTFS_MAGIC), RootfsKind::RamdiskTmpfs);
    assert_eq!(classify_rootfs(TMPFS_MAGIC), RootfsKind::RamdiskTmpfs);
    assert_eq!(classify_rootfs(0), RootfsKind::SystemAsRoot);
    assert_eq!(classify_rootfs(0xEF53), RootfsKind::SystemAsRoot);
    assert_eq!(classify_rootfs(0xE0F5E1E2), RootfsKind::SystemAsRoot);
    assert_eq!(classify_rootfs(0x858458f7), RootfsKind::SystemAsRoot);
    assert_eq!(classify_rootfs(u64::MAX), RootfsKind::SystemAsRoot);
}

#[test]
fn patch_target_rejects_unequal_lengths() {
    assert!(PatchTarget::new(BootPath::Init, b"abc".to_vec(), b"ab".to_vec()).is_none());
    assert!(PatchTarget::new(BootPath::Init, b"ab".to_vec(), b"abc".to_vec()).is_none());
    assert!(PatchTarget::new(BootPath::Init, Vec::new(), b"a".to_vec()).is_none());
}

#[test]
fn empty_sequences_are_found_nowhere() {
    let target = PatchTarget::new(BootPath::Init, Vec::new(), Vec::new()).unwrap();
    let mut image = b"/system/bin/init".to_vec();
    assert!(target.apply(&mut image).is_empty());
    assert_eq!(image, b"/system/bin/init".to_vec());
    assert!(patch(&mut image, b"", b"").is_empty());
    assert_eq!(image, b"/system/bin/init".to_vec());
    let mut empty: Vec<u8> = Vec::new();
    assert!(patch(&mut empty, b"", b"").is_empty());
    assert!(empty.is_empty());
}

#[test]
fn patch_target_keeps_what_it_was_given() {
    let target = PatchTarget::new(BootPath::DataInit, b"abc".to_vec(), b"xyz".to_vec()).unwrap();
    assert_eq!(target.path, BootPath::DataInit);
    assert_eq!(target.from, b"abc".to_vec());
    assert_eq!(target.to, b"xyz".to_vec());
}

#[test]
fn patch_target_applies_its_substitution() {
    let target = PatchTarget::new(BootPath::Init, b"abc".to_vec(), b"xyz".to_vec()).unwrap();
    let mut image = b"..abc..abcabc.ab".to_vec();
    let offsets = target.apply(&mut image);
    assert_eq!(offsets, vec![2usize, 7, 10]);
    assert_eq!(image, b"..xyz..xyzxyz.ab".to_vec());
}

#[test]
fn init_redirect_holds_the_two_paths() {
    let target = PatchTarget::init_redirect(BootPath::Init);
    assert_eq!(target.path, BootPath::Init);
    assert_eq!(target.from, b"/system/bin/init".to_vec());
    assert_eq!(target.to, b"/data/magiskinit".to_vec());
    assert_eq!(target.from.len(), target.to.len());
}

fn count_of(hay: &[u8], needle: &[u8]) -> usize {
    hay.windows(needle.len()).filter(|w| *w == needle).count()
}

#[test]
fn redirection_exchanges_the_paths_and_keeps_the_count() {
    let before = b"a/data/magiskinit b/system/bin/init/system/bin/init c/system/bin/ini".to_vec();
    let mut image = before.clone();
    let offsets = redirect_image(BootPath::DataInit, &mut image);
    assert_eq!(offsets, vec![19usize, 35]);
    assert_eq!(count_of(&before, b"/system/bin/init"), 2);
    assert_eq!(count_of(&before, b"/data/magiskinit"), 1);
    assert_eq!(count_of(&image, b"/system/bin/init"), 0);
    assert_eq!(count_of(&image, b"/data/magiskinit"), 3);
    assert_eq!(offsets.len(), count_of(&before, b"/system/bin/init"));
    assert_eq!(
        image,
        b"a/data/magiskinit b/data/magiskinit/data/magiskinit c/system/bin/ini".to_vec()
    );
    assert_eq!(image.len(), before.len());
}
