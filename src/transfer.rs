use vstd::prelude::*;
use crate::progress::Progress;
use crate::volume::Volume;

verus! {

/// Bytes moved per read and per write.
pub const BLOCK_SIZE: usize = 1048576;

/// Ways a transfer fails on its own account (I/O and codec failures come
/// from the streams the caller drives).
#[derive(Clone, Copy, Debug, PartialEq, Eq, Structural)]
pub enum TransferError {
    /// The source is known to be larger than the destination.
    TooLarge,
    /// A block read back from the drive differs from the image.
    VerificationFailed,
}

impl TransferError {
    /// The text shown to the operator.
    pub fn message(&self) -> (r: String)
        ensures
            *self == TransferError::TooLarge ==> r@ == "File too large (os error 27)"@,
            *self == TransferError::VerificationFailed ==> r@ == "Verification failed"@,
    {
        match self {
            TransferError::TooLarge => String::from_str("File too large (os error 27)"),
            TransferError::VerificationFailed => String::from_str("Verification failed"),
        }
    }
}

/// Both sizes are known and the source's exceeds the destination's.
pub open spec fn too_large(src_size: Option<u64>, dest_size: Option<u64>) -> bool {
    src_size is Some && dest_size is Some && src_size.unwrap() > dest_size.unwrap()
}

/// The guard a copy passes before any data moves.
pub fn check_sizes(src: &Volume, dest: &Volume) -> (r: Result<(), TransferError>)
    ensures
        r is Err <==> too_large(src.size, dest.size),
        r is Err ==> r == Err::<(), TransferError>(TransferError::TooLarge),
{
    match (src.size, dest.size) {
        (Some(s), Some(d)) => if s > d {
            Err(TransferError::TooLarge)
        } else {
            Ok(())
        },
        _ => Ok(()),
    }
}

/// `p` once `len` more bytes went through.
pub open spec fn advanced(p: Progress, len: nat) -> Progress {
    Progress { done: (p.done + len) as u64, ..p }
}

/// Whether a copy reads on after a read of `len` bytes: not once the source
/// is exhausted, and not once a known total is reached.
pub open spec fn copy_goes_on(p: Progress, len: nat) -> bool {
    len > 0 && !(p.size > 0 && p.size == p.done + len)
}

/// Books one step of a copy: `len` bytes were read from the source (0 at
/// its end) and written to the destination. Returns whether to read on.
pub fn copy_block(progress: &mut Progress, len: u64) -> (more: bool)
    requires
        old(progress).done + len <= u64::MAX,
    ensures
        *final(progress) == advanced(*old(progress), len as nat),
        more == copy_goes_on(*old(progress), len as nat),
{
    if len == 0 {
        return false;
    }
    progress.done = progress.done + len;
    !(progress.size > 0 && progress.size == progress.done)
}

/// Closes a copy: records its elapsed seconds and marks it finished.
pub fn finish_copy(progress: &mut Progress, secs: u64)
    ensures
        *final(progress) == (Progress { secs, finished: true, ..*old(progress) }),
{
    progress.secs = secs;
    progress.finished = true;
}

/// The drive supplied at least as many bytes as the image and they agree on
/// all of the image's.
pub open spec fn blocks_agree(image: Seq<u8>, drive: Seq<u8>) -> bool {
    drive.len() >= image.len() && drive.subrange(0, image.len() as int) == image
}

/// Compares an image block with what was read back from the drive.
pub fn same_bytes(image: &[u8], drive: &[u8]) -> (r: bool)
    ensures
        r == blocks_agree(image@, drive@),
{
    if drive.len() < image.len() {
        return false;
    }
    let mut i: usize = 0;
    while i < image.len()
        invariant
            i <= image@.len(),
            drive@.len() >= image@.len(),
            forall|j: int| 0 <= j < i ==> drive@[j] == image@[j],
        decreases image@.len() - i,
    {
        if image[i] != drive[i] {
            assert(drive@.subrange(0, image@.len() as int)[i as int] != image@[i as int]);
            return false;
        }
        i = i + 1;
    }
    assert(drive@.subrange(0, image@.len() as int) =~= image@);
    true
}

/// What a verification step returns for an image block and the bytes read
/// back from the drive: whether to read on (the block was a full one), or
/// the mismatch.
pub open spec fn verify_outcome(image: Seq<u8>, drive: Seq<u8>) -> Result<bool, TransferError> {
    if blocks_agree(image, drive) {
        Ok(image.len() == BLOCK_SIZE)
    } else {
        Err(TransferError::VerificationFailed)
    }
}

/// Books one step of a verification pass: `image` is what one read of at
/// most a block gave on the image side (shorter only at its end), `drive`
/// what was read back from the drive. On agreement the bytes are counted
/// and the result says whether to read on; a difference fails the pass and
/// counts nothing.
pub fn verify_block(progress: &mut Progress, image: &[u8], drive: &[u8]) -> (r: Result<
    bool,
    TransferError,
>)
    requires
        image@.len() <= BLOCK_SIZE,
        old(progress).done + image@.len() <= u64::MAX,
    ensures
        r == verify_outcome(image@, drive@),
        r is Ok ==> *final(progress) == advanced(*old(progress), image@.len()),
        r is Err ==> *final(progress) == *old(progress),
{
    if !same_bytes(image, drive) {
        return Err(TransferError::VerificationFailed);
    }
    let len = image.len();
    progress.done = progress.done + len as u64;
    Ok(len == BLOCK_SIZE)
}

/// Closes a verification pass: adds its seconds to those already recorded
/// and marks it finished.
pub fn finish_verify(progress: &mut Progress, secs: u64)
    requires
        old(progress).secs + secs <= u64::MAX,
    ensures
        *final(progress) == (Progress {
            secs: (old(progress).secs + secs) as u64,
            finished: true,
            ..*old(progress)
        }),
{
    progress.secs = progress.secs + secs;
    progress.finished = true;
}

} // verus!
