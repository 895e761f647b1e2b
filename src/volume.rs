use vstd::prelude::*;

verus! {

/// Which end of a transfer a volume is: an image file or a physical drive.
#[derive(Clone, Copy, Debug, PartialEq, Eq, Structural)]
pub enum VolumeType {
    Image,
    Drive,
}

/// The codec an image is stored with.
#[derive(Clone, Copy, Debug, PartialEq, Eq, Structural)]
pub enum Compression {
    Raw,
    Gzip,
    Bzip2,
    Xz,
    Zstd,
}

impl Default for Compression {
    fn default() -> (r: Compression)
        ensures
            r == Compression::Raw,
    {
        Compression::Raw
    }
}

/// One endpoint of a transfer.
pub struct Volume {
    pub vtype: VolumeType,
    pub path: String,
    /// Known length in bytes, when it can be had without reading the volume.
    pub size: Option<u64>,
    pub compression: Compression,
}

/// The codec that a file extension (without the dot) names.
pub open spec fn compression_of_extension(ext: Seq<char>) -> Compression {
    if ext == "gz"@ {
        Compression::Gzip
    } else if ext == "bz2"@ {
        Compression::Bzip2
    } else if ext == "xz"@ {
        Compression::Xz
    } else if ext == "zst"@ {
        Compression::Zstd
    } else {
        Compression::Raw
    }
}

/// Whether two strings hold the same characters.
fn same_text(a: &str, b: &str) -> (r: bool)
    ensures
        r == (a@ == b@),
{
    let n = a.unicode_len();
    if n != b.unicode_len() {
        return false;
    }
    let mut i: usize = 0;
    while i < n
        invariant
            n == a@.len(),
            n == b@.len(),
            i <= n,
            a@.subrange(0, i as int) == b@.subrange(0, i as int),
        decreases n - i,
    {
        if a.get_char(i) != b.get_char(i) {
            return false;
        }
        assert(a@.subrange(0, i + 1) =~= a@.subrange(0, i as int).push(a@[i as int]));
        assert(b@.subrange(0, i + 1) =~= b@.subrange(0, i as int).push(b@[i as int]));
        i = i + 1;
    }
    assert(a@ =~= a@.subrange(0, n as int));
    assert(b@ =~= b@.subrange(0, n as int));
    true
}

impl Compression {
    /// The codec for an image whose file name ends in `.ext`: `gz`, `bz2`,
    /// `xz` and `zst` name one; any other extension means raw bytes.
    pub fn from_extension(ext: &str) -> (r: Compression)
        ensures
            r == compression_of_extension(ext@),
    {
        if same_text(ext, "gz") {
            Compression::Gzip
        } else if same_text(ext, "bz2") {
            Compression::Bzip2
        } else if same_text(ext, "xz") {
            Compression::Xz
        } else if same_text(ext, "zst") {
            Compression::Zstd
        } else {
            Compression::Raw
        }
    }
}

impl Volume {
    /// An image file, stored with the given codec.
    pub fn image(path: String, size: Option<u64>, compression: Compression) -> (r: Volume)
        ensures
            r.vtype == VolumeType::Image,
            r.path@ == path@,
            r.size == size,
            r.compression == compression,
    {
        Volume { vtype: VolumeType::Image, path, size, compression }
    }

    /// A physical drive: always raw bytes.
    pub fn drive(path: String, size: Option<u64>) -> (r: Volume)
        ensures
            r.vtype == VolumeType::Drive,
            r.path@ == path@,
            r.size == size,
            r.compression == Compression::Raw,
    {
        Volume { vtype: VolumeType::Drive, path, size, compression: Compression::Raw }
    }

    /// The size an image is known to have before it is read: the file's
    /// length for a raw image in a regular file, the drive's capacity for a
    /// raw image that is a character device, and unknown for a compressed
    /// image or one whose metadata could not be read. `file` holds the
    /// file's length and whether it is a character device.
    pub fn image_size(compression: Compression, file: Option<(u64, bool)>, drive_size: u64) -> (r:
        Option<u64>)
        ensures
            compression != Compression::Raw ==> r is None,
            compression == Compression::Raw ==> r == match file {
                Some((len, is_char_device)) => Some(if is_char_device { drive_size } else { len }),
                None => None,
            },
    {
        if compression != Compression::Raw {
            return None;
        }
        match file {
            Some((len, is_char_device)) => if is_char_device {
                Some(drive_size)
            } else {
                Some(len)
            },
            None => None,
        }
    }

    /// Whether opening this volume for writing asks for synchronous data
    /// writes: drives do, images do not.
    pub fn synchronous_writes(&self) -> (r: bool)
        ensures
            r == (self.vtype == VolumeType::Drive),
    {
        self.vtype == VolumeType::Drive
    }
}

} // verus!
