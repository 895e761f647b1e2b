use imge::{
    check_sizes, copy_block, finish_copy, finish_verify, same_bytes, verify_block, Compression,
    Progress, TransferError, Volume, BLOCK_SIZE,
};

fn pattern(n: usize) -> Vec<u8> {
    (0..n).map(|i| (i * 7 + i / 251) as u8).collect()
}

/// Runs a copy loop over an in-memory source read `chunk` bytes at a time;
/// returns the record, the bytes written and every `done` seen on the way.
fn run_copy(source: &[u8], chunk: usize, size: u64) -> (Progress, Vec<u8>, Vec<u64>) {
    let mut progress = Progress::new(size);
    let mut dest = Vec::new();
    let mut seen = Vec::new();
    let mut pos = 0;
    loop {
        let len = chunk.min(source.len() - pos);
        dest.extend_from_slice(&source[pos..pos + len]);
        pos += len;
        let more = copy_block(&mut progress, len as u64);
        seen.push(progress.done);
        if !more {
            break;
        }
    }
    finish_copy(&mut progress, 2);
    (progress, dest, seen)
}

/// Runs a verification loop over in-memory image and drive contents.
fn run_verify(image: &[u8], drive: &[u8], progress: &mut Progress) -> Result<(), TransferError> {
    let mut pos = 0;
    loop {
        let len = BLOCK_SIZE.min(image.len() - pos);
        let dlen = BLOCK_SIZE.min(drive.len().saturating_sub(pos));
        let more = verify_block(progress, &image[pos..pos + len], &drive[pos..pos + dlen])?;
        pos += len;
        if !more {
            break;
        }
    }
    finish_verify(progress, 5);
    Ok(())
}

#[test]
fn size_guard_rejects_larger_source() {
    let src = Volume::image("a.img".to_string(), Some(100), Compression::Raw);
    let dest = Volume::drive("/dev/sdz".to_string(), Some(50));
    let r = check_sizes(&src, &dest);
    assert_eq!(r, Err(TransferError::TooLarge));
    assert_eq!(TransferError::TooLarge.message(), "File too large (os error 27)");
}

#[test]
fn size_guard_lets_equal_or_unknown_through() {
    let src = Volume::image("a.img".to_string(), Some(100), Compression::Raw);
    let same = Volume::drive("/dev/sdz".to_string(), Some(100));
    let unknown = Volume::drive("/dev/sdz".to_string(), None);
    let compressed = Volume::image("a.img.gz".to_string(), None, Compression::Gzip);
    assert_eq!(check_sizes(&src, &same), Ok(()));
    assert_eq!(check_sizes(&src, &unknown), Ok(()));
    assert_eq!(check_sizes(&compressed, &same), Ok(()));
}

#[test]
fn copy_moves_every_byte_with_known_size() {
    let n = 3 * BLOCK_SIZE + 5;
    let source = pattern(n);
    let (p, dest, _) = run_copy(&source, BLOCK_SIZE, n as u64);
    assert_eq!(p.done, n as u64);
    assert!(p.finished);
    assert_eq!(p.secs, 2);
    assert_eq!(dest, source);
}

#[test]
fn copy_moves_every_byte_with_unknown_size() {
    let n = 2 * BLOCK_SIZE + 17;
    let source = pattern(n);
    let (p, dest, _) = run_copy(&source, 1000, 0);
    assert_eq!(p.done, n as u64);
    assert!(p.finished);
    assert_eq!(dest, source);
}

#[test]
fn copy_of_empty_source() {
    let (p, dest, seen) = run_copy(&[], BLOCK_SIZE, 0);
    assert_eq!(p.done, 0);
    assert!(p.finished);
    assert!(dest.is_empty());
    assert_eq!(seen, vec![0]);
}

#[test]
fn copy_stops_at_known_size() {
    let mut p = Progress::new(10);
    assert!(copy_block(&mut p, 4));
    assert!(!copy_block(&mut p, 6));
    assert_eq!(p.done, 10);
    assert!(!p.finished);
    finish_copy(&mut p, 1);
    assert!(p.finished);
    assert_eq!(p.secs, 1);
}

#[test]
fn copy_end_of_source_changes_nothing() {
    let mut p = Progress::new(0);
    assert!(copy_block(&mut p, 4));
    assert!(!copy_block(&mut p, 0));
    assert_eq!(p.done, 4);
}

#[test]
fn observed_progress_never_decreases() {
    let n = 5 * BLOCK_SIZE + 3;
    let source = pattern(n);
    for size in [0u64, n as u64] {
        let (_, _, seen) = run_copy(&source, BLOCK_SIZE, size);
        assert!(seen.windows(2).all(|w| w[0] <= w[1]));
        assert_eq!(*seen.last().unwrap(), n as u64);
    }
}

#[test]
fn verify_succeeds_on_identical_data() {
    let n = BLOCK_SIZE + 1;
    let image = pattern(n);
    let drive = image.clone();
    let mut p = Progress { size: n as u64, done: 0, secs: 7, finished: false };
    assert_eq!(run_verify(&image, &drive, &mut p), Ok(()));
    assert_eq!(p.done, n as u64);
    assert!(p.finished);
    assert_eq!(p.secs, 12);
}

#[test]
fn verify_accepts_longer_drive() {
    let image = pattern(BLOCK_SIZE);
    let mut drive = image.clone();
    drive.extend_from_slice(&[1, 2, 3]);
    let mut p = Progress::new(0);
    assert_eq!(run_verify(&image, &drive, &mut p), Ok(()));
    assert_eq!(p.done, BLOCK_SIZE as u64);
}

#[test]
fn verify_detects_one_changed_byte() {
    let n = 3 * BLOCK_SIZE + 10;
    let image = pattern(n);
    let k = BLOCK_SIZE + 12345;
    let mut drive = image.clone();
    drive[k] ^= 0x40;
    let mut p = Progress::new(n as u64);
    assert_eq!(run_verify(&image, &drive, &mut p), Err(TransferError::VerificationFailed));
    assert_eq!(p.done, BLOCK_SIZE as u64);
    assert!(!p.finished);
    assert_eq!(TransferError::VerificationFailed.message(), "Verification failed");
}

#[test]
fn verify_detects_change_in_last_partial_block() {
    let n = BLOCK_SIZE + 1;
    let image = pattern(n);
    let mut drive = image.clone();
    drive[BLOCK_SIZE] ^= 1;
    let mut p = Progress::new(n as u64);
    assert_eq!(run_verify(&image, &drive, &mut p), Err(TransferError::VerificationFailed));
    assert_eq!(p.done, BLOCK_SIZE as u64);
}

#[test]
fn verify_block_short_drive_read_is_a_mismatch() {
    let mut p = Progress::new(0);
    assert_eq!(verify_block(&mut p, &[1, 2, 3], &[1, 2]), Err(TransferError::VerificationFailed));
    assert_eq!(p.done, 0);
    assert_eq!(verify_block(&mut p, &[1, 2, 3], &[1, 2, 3, 9]), Ok(false));
    assert_eq!(p.done, 3);
    assert_eq!(verify_block(&mut p, &[], &[]), Ok(false));
    assert_eq!(p.done, 3);
}

#[test]
fn same_bytes_compares_prefix() {
    assert!(same_bytes(&[], &[]));
    assert!(same_bytes(&[5, 6], &[5, 6, 7]));
    assert!(!same_bytes(&[5, 6], &[5, 7, 7]));
    assert!(!same_bytes(&[5, 6], &[5]));
}

#[test]
fn verify_starts_from_copy_baseline() {
    let copied = Progress { size: 0, done: 4096, secs: 3, finished: true };
    let v = Progress::for_verify(&copied);
    assert_eq!(v, Progress { size: 4096, done: 0, secs: 3, finished: false });
    let known = Progress { size: 8192, done: 8192, secs: 4, finished: true };
    assert_eq!(Progress::for_verify(&known).size, 8192);
}

#[test]
fn average_speed_per_second() {
    let p = Progress { size: 0, done: 1000, secs: 4, finished: true };
    assert_eq!(p.average_speed(), 250);
    let q = Progress { size: 0, done: 1000, secs: 0, finished: true };
    assert_eq!(q.average_speed(), 1000);
    assert_eq!(Progress::default(), Progress::new(0));
}
