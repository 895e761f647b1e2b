//! Copying raw byte streams between disk images and block devices, with
//! verification of what was written and live progress reporting.
//!
//! The library holds the decisions of a transfer: the size guard, the
//! per-block bookkeeping of a copy or a verification pass, the comparison of
//! blocks, the choice of codec for an image, the selection and ordering of
//! drives, the formatting of byte counts, and the transitions of the drive
//! selection screen. Opening files and devices, running codecs over them and
//! moving bytes through them is left to the caller, which hands each event to
//! these functions and performs what they decide.

pub mod drive;
pub mod laws;
pub mod progress;
pub mod screen;
pub mod transfer;
pub mod units;
pub mod volume;

pub use drive::{find_drive, select_drives, DeviceInfo, Drive};
pub use laws::{
    lemma_copy_progress_monotone, lemma_copy_round_trip, lemma_unit_range,
    lemma_verify_detects_corruption, lemma_verify_success,
};
pub use progress::Progress;
pub use screen::{after_poll, Command, Key, Modal, PollAction, Screen};
pub use transfer::{
    check_sizes, copy_block, finish_copy, finish_verify, same_bytes, verify_block, TransferError,
    BLOCK_SIZE,
};
pub use units::humanize;
pub use volume::{Compression, Volume, VolumeType};
