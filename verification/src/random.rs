//! Streaming generation of cryptographically secure random bytes, in chunks
//! of at most 1 MiB, as the random-fill and erase pipelines demand.

use vstd::prelude::*;
use rand::RngCore;
use crate::errors::CryptError;

verus! {

/// The fixed working-buffer capacity of every streaming operation: 1 MiB.
pub const CHUNK_CAP: usize = 1024 * 1024;

/// Relies on rand::rngs::OsRng::fill_bytes: it fills the whole buffer from
/// the operating system's entropy source. Nothing can be said of the bytes
/// themselves; the call aborts the process only if the source itself fails.
#[verifier::external_body]
fn os_random_bytes(n: usize) -> (r: Vec<u8>)
    ensures
        r@.len() == n,
{
    let mut buf = vec![0u8; n];
    rand::rngs::OsRng.fill_bytes(&mut buf);
    buf
}

/// The length of the next chunk of a streaming write: the whole remainder,
/// capped at the working-buffer capacity. It is never zero and never
/// overshoots the total.
pub fn chunk_len(total: usize, written: usize) -> (n: usize)
    requires
        written < total,
    ensures
        n == if total - written < CHUNK_CAP { total - written } else { CHUNK_CAP as int },
        1 <= n <= CHUNK_CAP,
        written + n <= total,
{
    let remaining = total - written;
    if remaining < CHUNK_CAP {
        remaining
    } else {
        CHUNK_CAP
    }
}

/// Exactly `size` bytes of cryptographically secure random data, produced in
/// chunks of at most the working-buffer capacity.
pub fn random_material(size: usize) -> (r: Vec<u8>)
    ensures
        r@.len() == size,
{
    let mut out: Vec<u8> = Vec::new();
    while out.len() < size
        invariant
            out@.len() <= size,
        decreases size - out@.len(),
    {
        let n = chunk_len(size, out.len());
        let mut chunk = os_random_bytes(n);
        out.append(&mut chunk);
    }
    out
}

/// One full overwrite pass per requested pass, each of exactly the file's
/// length in fresh random bytes; zero passes are refused. The caller writes
/// pass `i` over the file from offset zero before asking for pass `i + 1`.
pub fn erase_pass_materials(file_size: usize, passes: usize) -> (r: Result<
    Vec<Vec<u8>>,
    CryptError,
>)
    ensures
        match r {
            Ok(v) => passes > 0 && v@.len() == passes && forall|i: int|
                0 <= i < v@.len() ==> #[trigger] v@[i]@.len() == file_size,
            Err(e) => e == CryptError::ZeroPasses && passes == 0,
        },
{
    if passes == 0 {
        return Err(CryptError::ZeroPasses);
    }
    let mut out: Vec<Vec<u8>> = Vec::new();
    let mut p: usize = 0;
    while p < passes
        invariant
            p <= passes,
            out@.len() == p,
            forall|i: int| 0 <= i < out@.len() ==> #[trigger] out@[i]@.len() == file_size,
        decreases passes - p,
    {
        out.push(random_material(file_size));
        p = p + 1;
    }
    Ok(out)
}

/// The guard of the erase pipeline alone, for a caller that streams each
/// pass itself: a pass count is accepted exactly when it is positive.
pub fn check_passes(passes: usize) -> (r: Result<(), CryptError>)
    ensures
        r == Ok::<(), CryptError>(()) <==> passes > 0,
        r matches Err(e) ==> e == CryptError::ZeroPasses && passes == 0,
{
    if passes == 0 {
        Err(CryptError::ZeroPasses)
    } else {
        Ok(())
    }
}

} // verus!
