//! Batch ranges, the search for the most efficient batch size, and the
//! integer part of the topology term.
use vstd::prelude::*;

verus! {

/// Why a batch range, or the scores given for it, cannot be used.
#[derive(Clone, Copy, Debug, PartialEq, Eq, Structural)]
pub enum BatchError {
    /// The range starts at batch size zero, where the formulas are undefined.
    ZeroBatch,
    /// The smallest batch size is larger than the largest.
    EmptyRange,
    /// The number of values given differs from the number the range needs.
    ValueCount,
}

/// The error that the range `[min_batch, max_batch]` gives, if any.
pub open spec fn range_error(min_batch: u32, max_batch: u32) -> Option<BatchError> {
    if min_batch > max_batch {
        Some(BatchError::EmptyRange)
    } else if min_batch == 0 {
        Some(BatchError::ZeroBatch)
    } else {
        None
    }
}

/// Number of batch sizes in `[min_batch, max_batch]`.
pub open spec fn range_len(min_batch: u32, max_batch: u32) -> int {
    max_batch - min_batch + 1
}

/// Accepts `[min_batch, max_batch]` when it holds at least one batch size
/// and no batch size zero.
pub fn check_range(min_batch: u32, max_batch: u32) -> (r: Result<(), BatchError>)
    ensures
        r is Ok <==> range_error(min_batch, max_batch) is None,
        r matches Err(e) ==> range_error(min_batch, max_batch) == Some(e),
{
    if min_batch > max_batch {
        Err(BatchError::EmptyRange)
    } else if min_batch == 0 {
        Err(BatchError::ZeroBatch)
    } else {
        Ok(())
    }
}

/// Every batch size of `[min_batch, max_batch]`, in increasing order.
pub fn batch_sizes(min_batch: u32, max_batch: u32) -> (r: Result<Vec<u32>, BatchError>)
    ensures
        r is Ok <==> range_error(min_batch, max_batch) is None,
        r matches Err(e) ==> range_error(min_batch, max_batch) == Some(e),
        r matches Ok(v) ==> v@.len() == range_len(min_batch, max_batch) && forall|i: int|
            0 <= i < v@.len() ==> v@[i] == min_batch + i,
{
    check_range(min_batch, max_batch)?;
    let mut v: Vec<u32> = Vec::new();
    let mut b: u32 = min_batch;
    loop
        invariant
            1 <= min_batch <= b <= max_batch,
            v@.len() == b - min_batch,
            forall|i: int| 0 <= i < v@.len() ==> v@[i] == min_batch + i,
        decreases max_batch - b,
    {
        v.push(b);
        if b == max_batch {
            return Ok(v);
        }
        b += 1;
    }
}

/// `i` is the first position of a largest score.
pub open spec fn is_first_maximum(scores: Seq<u64>, i: int) -> bool {
    &&& 0 <= i < scores.len()
    &&& forall|j: int| 0 <= j < scores.len() ==> scores[j] <= scores[i]
    &&& forall|j: int| 0 <= j < i ==> scores[j] < scores[i]
}

/// The first position of a largest score: a later position replaces the
/// one held only when its score is strictly larger.
pub fn first_maximum(scores: &Vec<u64>) -> (r: Option<usize>)
    ensures
        r is None <==> scores@.len() == 0,
        r matches Some(i) ==> is_first_maximum(scores@, i as int),
{
    if scores.len() == 0 {
        return None;
    }
    let mut best: usize = 0;
    let mut i: usize = 1;
    while i < scores.len()
        invariant
            1 <= i <= scores@.len(),
            best < i,
            forall|j: int| 0 <= j < i ==> scores@[j] <= scores@[best as int],
            forall|j: int| 0 <= j < best ==> scores@[j] < scores@[best as int],
        decreases scores@.len() - i,
    {
        if scores[i] > scores[best] {
            best = i;
        }
        i += 1;
    }
    Some(best)
}

/// The batch size of `[min_batch, max_batch]` with the largest score, the
/// smallest one among equals. `scores[k]` is the score of `min_batch + k`; any
/// key that orders as the efficiencies do will serve (the bit patterns of
/// positive floats do).
pub fn best_batch(min_batch: u32, max_batch: u32, scores: &Vec<u64>) -> (r: Result<
    u32,
    BatchError,
>)
    ensures
        r is Ok <==> range_error(min_batch, max_batch) is None && scores@.len() == range_len(
            min_batch,
            max_batch,
        ),
        r matches Err(e) ==> e == (match range_error(min_batch, max_batch) {
            Some(re) => re,
            None => BatchError::ValueCount,
        }),
        r matches Ok(b) ==> min_batch <= b <= max_batch && is_first_maximum(
            scores@,
            b - min_batch,
        ),
{
    check_range(min_batch, max_batch)?;
    let n: u64 = (max_batch - min_batch) as u64 + 1;
    if scores.len() as u64 != n {
        return Err(BatchError::ValueCount);
    }
    match first_maximum(scores) {
        Some(i) => Ok(min_batch + i as u32),
        None => Err(BatchError::ValueCount),
    }
}

/// Integer part of the topology term: the Euler characteristic (2 for an
/// even batch size, else 0), plus the Betti proxy `floor(b / 16)`, minus twice
/// the genus proxy `floor(b / 32)`.
pub open spec fn topology_sum(batch: u32) -> int {
    (if batch % 2 == 0 { 2int } else { 0int }) + (batch / 16) as int - 2 * (batch / 32) as int
}

/// `topology_sum(batch)`; the term itself is `1 + topology_sum(batch) / 100`.
pub fn topology_offset(batch: u32) -> (r: i64)
    ensures
        r == topology_sum(batch),
{
    let euler: i64 = if batch % 2 == 0 { 2 } else { 0 };
    let betti: i64 = (batch / 16) as i64;
    let genus: i64 = (batch / 32) as i64;
    euler + betti - 2 * genus
}

} // verus!
