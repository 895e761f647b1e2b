use imge::{Compression, Volume, VolumeType};

#[test]
fn compression_follows_extension() {
    assert!(Compression::from_extension("gz") == Compression::Gzip);
    assert!(Compression::from_extension("bz2") == Compression::Bzip2);
    assert!(Compression::from_extension("xz") == Compression::Xz);
    assert!(Compression::from_extension("zst") == Compression::Zstd);
}

#[test]
fn unknown_extension_is_raw() {
    assert!(Compression::from_extension("img") == Compression::Raw);
    assert!(Compression::from_extension("") == Compression::Raw);
    assert!(Compression::from_extension("GZ") == Compression::Raw);
    assert!(Compression::from_extension("gzz") == Compression::Raw);
    assert!(Compression::default() == Compression::Raw);
}

#[test]
fn drives_are_raw_and_written_synchronously() {
    let d = Volume::drive("/dev/sdb".to_string(), Some(4096));
    assert!(d.vtype == VolumeType::Drive);
    assert!(d.compression == Compression::Raw);
    assert_eq!(d.size, Some(4096));
    assert!(d.synchronous_writes());
}

#[test]
fn images_are_not_written_synchronously() {
    let i = Volume::image("disk.img.xz".to_string(), None, Compression::Xz);
    assert!(i.vtype == VolumeType::Image);
    assert!(i.compression == Compression::Xz);
    assert_eq!(i.path, "disk.img.xz");
    assert!(!i.synchronous_writes());
}

#[test]
fn image_size_known_only_for_raw_images() {
    assert_eq!(Volume::image_size(Compression::Raw, Some((1000, false)), 64), Some(1000));
    assert_eq!(Volume::image_size(Compression::Raw, Some((0, true)), 64), Some(64));
    assert_eq!(Volume::image_size(Compression::Raw, None, 64), None);
    assert_eq!(Volume::image_size(Compression::Gzip, Some((1000, false)), 64), None);
    assert_eq!(Volume::image_size(Compression::Zstd, Some((0, true)), 64), None);
}
