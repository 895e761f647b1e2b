use vstd::prelude::*;
use crate::progress::{fresh, Progress};
use crate::transfer::{
    advanced, blocks_agree, copy_goes_on, too_large, verify_outcome, TransferError, BLOCK_SIZE,
};
use crate::units::{log1024, pow1024, unit_index, UNIT_COUNT};

verus! {

/// The bytes of a sequence of reads, one after another.
pub open spec fn flatten(reads: Seq<Seq<u8>>) -> Seq<u8>
    decreases reads.len(),
{
    if reads.len() == 0 {
        Seq::empty()
    } else {
        reads[0] + flatten(reads.drop_first())
    }
}

/// A copy loop run on `reads` (what each read of the source gave) from the
/// record `p`: each read is written and booked by `copy_block`, and the loop
/// stops where `copy_block` says so. Gives the final record and the bytes
/// written to the destination.
pub open spec fn copy_run(p: Progress, reads: Seq<Seq<u8>>) -> (Progress, Seq<u8>)
    decreases reads.len(),
{
    if reads.len() == 0 {
        (p, Seq::empty())
    } else {
        let q = advanced(p, reads[0].len());
        if copy_goes_on(p, reads[0].len()) {
            let (r, w) = copy_run(q, reads.drop_first());
            (r, reads[0] + w)
        } else {
            (q, reads[0])
        }
    }
}

/// The values of `done` an observer can see during `copy_run`, one after
/// each block.
pub open spec fn copy_trace(p: Progress, reads: Seq<Seq<u8>>) -> Seq<u64>
    decreases reads.len(),
{
    if reads.len() == 0 {
        Seq::empty()
    } else {
        let q = advanced(p, reads[0].len());
        if copy_goes_on(p, reads[0].len()) {
            seq![q.done] + copy_trace(q, reads.drop_first())
        } else {
            seq![q.done]
        }
    }
}

/// A source that gives the non-empty `chunks`, then reports its end.
pub open spec fn source_reads(chunks: Seq<Seq<u8>>) -> Seq<Seq<u8>> {
    chunks.push(Seq::empty())
}

pub open spec fn all_non_empty(chunks: Seq<Seq<u8>>) -> bool {
    forall|i: int| 0 <= i < chunks.len() ==> #[trigger] chunks[i].len() > 0
}

/// The known total of a copy matches the source: it is the byte count
/// of the chunks, or unknown (0).
pub open spec fn size_fits(p: Progress, n: nat) -> bool {
    p.size == 0 || p.size == p.done + n
}

proof fn lemma_flatten_len_positive(chunks: Seq<Seq<u8>>)
    requires
        all_non_empty(chunks),
        chunks.len() > 0,
    ensures
        flatten(chunks).len() >= chunks[0].len(),
        flatten(chunks).len() == chunks[0].len() <==> chunks.len() == 1,
    decreases chunks.len(),
{
    let rest = chunks.drop_first();
    assert(flatten(chunks) == chunks[0] + flatten(rest));
    if rest.len() > 0 {
        assert(rest[0] == chunks[1]);
        assert(rest[0].len() > 0);
        assert(all_non_empty(rest)) by {
            assert forall|i: int| 0 <= i < rest.len() implies #[trigger] rest[i].len() > 0 by {
                assert(rest[i] == chunks[i + 1]);
            }
        }
        lemma_flatten_len_positive(rest);
    } else {
        assert(flatten(rest) =~= Seq::<u8>::empty());
    }
}

proof fn lemma_copy_run(p: Progress, chunks: Seq<Seq<u8>>)
    requires
        all_non_empty(chunks),
        p.done + flatten(chunks).len() <= u64::MAX,
        size_fits(p, flatten(chunks).len()),
    ensures
        copy_run(p, source_reads(chunks)).0 == advanced(p, flatten(chunks).len()),
        copy_run(p, source_reads(chunks)).1 == flatten(chunks),
        copy_trace(p, source_reads(chunks)).len() > 0,
        copy_trace(p, source_reads(chunks)).last() == p.done + flatten(chunks).len(),
        forall|i: int|
            0 <= i < copy_trace(p, source_reads(chunks)).len() ==> p.done <= #[trigger] copy_trace(
                p,
                source_reads(chunks),
            )[i] <= p.done + flatten(chunks).len(),
        forall|i: int, j: int|
            0 <= i <= j < copy_trace(p, source_reads(chunks)).len() ==> #[trigger] copy_trace(
                p,
                source_reads(chunks),
            )[i] <= #[trigger] copy_trace(p, source_reads(chunks))[j],
    decreases chunks.len(),
{
    let reads = source_reads(chunks);
    if chunks.len() == 0 {
        assert(reads[0] == Seq::<u8>::empty());
        assert(reads.drop_first() =~= Seq::<Seq<u8>>::empty());
        assert(copy_trace(p, reads) =~= seq![p.done]);
        assert(advanced(p, 0) =~= p);
    } else {
        let rest = chunks.drop_first();
        let c = chunks[0];
        assert(reads[0] == c);
        assert(reads.drop_first() =~= source_reads(rest));
        assert(c.len() > 0);
        lemma_flatten_len_positive(chunks);
        let q = advanced(p, c.len());
        assert(flatten(chunks) == c + flatten(rest));
        if copy_goes_on(p, c.len()) {
            assert(all_non_empty(rest)) by {
                assert forall|i: int| 0 <= i < rest.len() implies #[trigger] rest[i].len() > 0 by {
                    assert(rest[i] == chunks[i + 1]);
                }
            }
            lemma_copy_run(q, rest);
            let t = copy_trace(p, reads);
            let u = copy_trace(q, source_reads(rest));
            assert(t =~= seq![q.done] + u);
            assert forall|i: int, j: int| 0 <= i <= j < t.len() implies #[trigger] t[i] <= #[trigger] t[j] by {
                if i > 0 {
                    assert(t[i] == u[i - 1]);
                    assert(t[j] == u[j - 1]);
                } else if j > 0 {
                    assert(t[j] == u[j - 1]);
                }
            }
            assert forall|i: int| 0 <= i < t.len() implies p.done <= #[trigger] t[i] <= p.done
                + flatten(chunks).len() by {
                if i > 0 {
                    assert(t[i] == u[i - 1]);
                }
            }
            assert(t.last() == u.last());
        } else {
            assert(rest.len() == 0);
            assert(flatten(rest) =~= Seq::<u8>::empty());
            assert(flatten(chunks) =~= c);
            assert(copy_trace(p, reads) =~= seq![q.done]);
        }
    }
}

/// A copy moves a source exactly. When the source gives its bytes in
/// non-empty reads and then reports its end, and the record starts fresh
/// with the source's size (or 0 when it is unknown), the size guard lets a
/// destination of at least that size through, the copy loop writes the
/// source's bytes in order and nothing else, and the record counts all of
/// them.
pub proof fn lemma_copy_round_trip(size: u64, dest_size: u64, chunks: Seq<Seq<u8>>)
    requires
        all_non_empty(chunks),
        flatten(chunks).len() <= u64::MAX,
        size == 0 || size == flatten(chunks).len(),
        dest_size >= flatten(chunks).len(),
    ensures
        !too_large(Some(flatten(chunks).len() as u64), Some(dest_size)),
        copy_run(fresh(size), source_reads(chunks)).1 == flatten(chunks),
        copy_run(fresh(size), source_reads(chunks)).0 == (Progress {
            done: flatten(chunks).len() as u64,
            ..fresh(size)
        }),
{
    lemma_copy_run(fresh(size), chunks);
}

/// What an observer polling a copy sees never decreases, never exceeds the
/// source's byte count, and ends at it.
pub proof fn lemma_copy_progress_monotone(size: u64, chunks: Seq<Seq<u8>>)
    requires
        all_non_empty(chunks),
        flatten(chunks).len() <= u64::MAX,
        size == 0 || size == flatten(chunks).len(),
    ensures
        copy_trace(fresh(size), source_reads(chunks)).len() > 0,
        copy_trace(fresh(size), source_reads(chunks)).last() == flatten(chunks).len(),
        forall|i: int|
            0 <= i < copy_trace(fresh(size), source_reads(chunks)).len()
                ==> #[trigger] copy_trace(fresh(size), source_reads(chunks))[i]
                <= flatten(chunks).len(),
        forall|i: int, j: int|
            0 <= i <= j < copy_trace(fresh(size), source_reads(chunks)).len()
                ==> #[trigger] copy_trace(fresh(size), source_reads(chunks))[i]
                <= #[trigger] copy_trace(fresh(size), source_reads(chunks))[j],
{
    lemma_copy_run(fresh(size), chunks);
}

pub open spec fn min(a: nat, b: nat) -> nat {
    if a < b {
        a
    } else {
        b
    }
}

/// A verification loop run from the record `p` on the image's bytes and the
/// drive's: each step reads a full block from the image (less only at its
/// end) and up to a block from the drive, and is booked by `verify_block`.
/// Gives the final record and the outcome.
pub open spec fn verify_run(p: Progress, image: Seq<u8>, drive: Seq<u8>) -> (Progress, Result<
    (),
    TransferError,
>)
    decreases image.len(),
{
    let n = min(BLOCK_SIZE as nat, image.len());
    let m = min(BLOCK_SIZE as nat, drive.len());
    match verify_outcome(image.take(n as int), drive.take(m as int)) {
        Err(e) => (p, Err(e)),
        Ok(more) => {
            if more {
                verify_run(advanced(p, n), image.skip(n as int), drive.skip(m as int))
            } else {
                (advanced(p, n), Ok(()))
            }
        },
    }
}

/// A verification pass over a drive that holds the image at its start
/// succeeds and counts every byte of the image.
pub proof fn lemma_verify_success(p: Progress, image: Seq<u8>, drive: Seq<u8>)
    requires
        drive.len() >= image.len(),
        drive.take(image.len() as int) == image,
        p.done + image.len() <= u64::MAX,
    ensures
        verify_run(p, image, drive) == (advanced(p, image.len()), Ok::<(), TransferError>(())),
    decreases image.len(),
{
    let n = min(BLOCK_SIZE as nat, image.len());
    let m = min(BLOCK_SIZE as nat, drive.len());
    let ib = image.take(n as int);
    let db = drive.take(m as int);
    assert(db.subrange(0, n as int) =~= ib);
    assert(blocks_agree(ib, db));
    if n == BLOCK_SIZE {
        let q = advanced(p, n);
        assert(drive.skip(m as int).take(image.skip(n as int).len() as int) =~= image.skip(
            n as int,
        ));
        lemma_verify_success(q, image.skip(n as int), drive.skip(m as int));
        assert(advanced(q, (image.len() - n) as nat) == advanced(p, image.len()));
    }
}

/// A verification pass over a drive that differs from the image in the one
/// byte at offset `k` fails, and counts only the blocks before the one that
/// holds `k`.
pub proof fn lemma_verify_detects_corruption(
    p: Progress,
    image: Seq<u8>,
    drive: Seq<u8>,
    k: nat,
)
    requires
        drive.len() >= image.len(),
        k < image.len(),
        drive[k as int] != image[k as int],
        forall|j: int| 0 <= j < image.len() && j != k ==> drive[j] == image[j],
        p.done + image.len() <= u64::MAX,
    ensures
        verify_run(p, image, drive) == (
            advanced(p, (k / (BLOCK_SIZE as nat)) * (BLOCK_SIZE as nat)),
            Err::<(), TransferError>(TransferError::VerificationFailed),
        ),
    decreases image.len(),
{
    let b = BLOCK_SIZE as nat;
    let n = min(b, image.len());
    let m = min(b, drive.len());
    let ib = image.take(n as int);
    let db = drive.take(m as int);
    if k < n {
        assert(db.subrange(0, n as int)[k as int] != ib[k as int]);
        assert(!blocks_agree(ib, db));
        assert(k / b == 0) by (nonlinear_arith)
            requires
                k < b,
        ;
        assert(advanced(p, 0) =~= p);
    } else {
        assert(n == b);
        assert(db.subrange(0, n as int) =~= ib);
        let q = advanced(p, n);
        let k2 = (k - b) as nat;
        lemma_verify_detects_corruption(q, image.skip(n as int), drive.skip(m as int), k2);
        assert((k2 / b) * b + b == (k / b) * b) by (nonlinear_arith)
            requires
                k2 == k - b,
                k >= b,
                b > 0,
        {
            vstd::arithmetic::div_mod::lemma_div_plus_one(k2 as int, b as int);
            assert(k == k2 + b);
            assert((k2 / b + 1) * b == (k2 / b) * b + b);
        }
        assert(advanced(q, (k2 / b) * b) == advanced(p, (k / b) * b));
    }
}

proof fn lemma_log_bounds(n: nat)
    ensures
        n < pow1024(log1024(n) + 1),
        n >= 1 ==> pow1024(log1024(n)) <= n,
    decreases n,
{
    if n >= 1024 {
        let m = n / 1024;
        lemma_log_bounds(m);
        let e = log1024(m);
        assert(pow1024(e + 2) == 1024 * pow1024(e + 1));
        assert(pow1024(e + 1) == 1024 * pow1024(e));
        assert(n < 1024 * pow1024(e + 1)) by (nonlinear_arith)
            requires
                m == n / 1024,
                m < pow1024(e + 1),
        ;
        assert(1024 * pow1024(e) <= n) by (nonlinear_arith)
            requires
                m == n / 1024,
                pow1024(e) <= m,
        ;
    } else {
        assert(pow1024(1) == 1024 * pow1024(0));
    }
}

/// The unit a byte count is printed in is the largest `i` with
/// `1024^i <= n`, below the largest suffix; counts beyond its range use the
/// largest suffix.
pub proof fn lemma_unit_range(n: nat)
    ensures
        unit_index(n) < UNIT_COUNT,
        n >= 1 ==> pow1024(unit_index(n)) <= n,
        unit_index(n) < UNIT_COUNT - 1 ==> n < pow1024(unit_index(n) + 1),
{
    lemma_log_bounds(n);
    if log1024(n) >= UNIT_COUNT - 1 {
        lemma_pow_monotone((UNIT_COUNT - 1) as nat, log1024(n));
    }
}

proof fn lemma_pow_monotone(i: nat, j: nat)
    requires
        i <= j,
    ensures
        pow1024(i) <= pow1024(j),
    decreases j,
{
    if i < j {
        lemma_pow_monotone(i, (j - 1) as nat);
    }
}

} // verus!
