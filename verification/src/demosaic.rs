//! Raw frame to RGB: the pixel-reconstruction step a completed frame goes
//! through before it is handed to a sink.
//!
//! A completed frame is a single-plane 8-bit mosaic with the RGGB colour
//! filter array ordering; recovering full colour takes interpolation. The
//! interpolation itself is the bayer crate's linear demosaic, called through
//! one trusted wrapper; everything around it — that the mosaic is exactly as
//! large as the declared resolution, that the output holds three bytes per
//! pixel, and which inputs are rejected — is verified here.

use vstd::prelude::*;

use crate::engine::zero_vec;

verus! {

/// The bayer crate's error type, opaque to this library; the one wrapper
/// below returns it and `reconstruct_rgb` maps it to `ReconstructError`.
#[verifier::external_type_specification]
#[verifier::external_body]
pub struct ExBayerError(bayer::BayerError);

/// Why a raw buffer was not reconstructed.
#[derive(Clone, Copy, PartialEq, Eq, Structural, Debug)]
pub enum ReconstructError {
    /// The buffer is not exactly `width * height` bytes.
    SizeMismatch,
    /// The interpolation needs at least two pixels along each axis.
    UnsupportedResolution,
    /// Three output bytes per pixel do not fit in this machine's address
    /// space.
    TooLarge,
}

/// The interleaved RGB image that a linear demosaic of an 8-bit RGGB mosaic
/// of the given resolution produces: a pure function of the mosaic bytes,
/// three output bytes per pixel, defined by the bayer crate's interpolation
/// kernels.
pub uninterp spec fn linear_demosaic_rggb8(raw: Seq<u8>, width: nat, height: nat) -> Seq<u8>;

/// Relies on bayer::run_demosaic with the Linear algorithm, 8-bit depth and
/// the RGGB filter array, writing into a raster made by bayer::RasterMut::new
/// over `out`: it rejects a resolution under 2x2, and otherwise reads exactly
/// `width * height` mosaic bytes and fills all of `out` with the
/// interpolation's output, which depends on the mosaic bytes and the
/// resolution alone. The raster constructor demands a nonzero resolution and
/// a buffer of exactly three bytes per pixel, which the callers must supply.
#[verifier::external_body]
fn run_linear_demosaic(
    raw: &Vec<u8>,
    width: usize,
    height: usize,
    out: &mut Vec<u8>,
) -> (r: Result<(), bayer::BayerError>)
    requires
        width >= 1,
        height >= 1,
        raw@.len() == width * height,
        old(out)@.len() == 3 * width * height,
    ensures
        r is Ok ==> width >= 2 && height >= 2,
        r is Err ==> width < 2 || height < 2,
        r is Ok ==> final(out)@ == linear_demosaic_rggb8(raw@, width as nat, height as nat),
        final(out)@.len() == old(out)@.len(),
{
    let mut cursor = std::io::Cursor::new(raw.as_slice());
    let mut raster = bayer::RasterMut::new(
        width,
        height,
        bayer::RasterDepth::Depth8,
        out.as_mut_slice(),
    );
    bayer::run_demosaic(
        &mut cursor,
        bayer::BayerDepth::Depth8,
        bayer::CFA::RGGB,
        bayer::Demosaic::Linear,
        &mut raster,
    )
}

/// Which error `reconstruct_rgb` reports for a rejected input.
pub open spec fn spec_reconstruct_err(raw_len: int, width: int, height: int) -> ReconstructError {
    if raw_len != width * height {
        ReconstructError::SizeMismatch
    } else if 3 * width * height > usize::MAX {
        ReconstructError::TooLarge
    } else {
        ReconstructError::UnsupportedResolution
    }
}

/// Demosaic a raw frame buffer into an interleaved RGB buffer of three
/// bytes per pixel. The buffer must be exactly as large as the declared
/// resolution — a mismatch is an error, never silently garbage — and the
/// interpolation needs at least two pixels along each axis.
pub fn reconstruct_rgb(raw: &Vec<u8>, width: u32, height: u32) -> (r: Result<
    Vec<u8>,
    ReconstructError,
>)
    ensures
        r is Ok <==> (raw@.len() == width * height && width >= 2 && height >= 2 && 3 * width
            * height <= usize::MAX),
        match r {
            Ok(rgb) => rgb@ == linear_demosaic_rggb8(raw@, width as nat, height as nat)
                && rgb@.len() == 3 * width * height,
            Err(e) => e == spec_reconstruct_err(raw@.len() as int, width as int, height as int),
        },
{
    let w = width as usize;
    let h = height as usize;
    proof {
        vstd::arithmetic::mul::lemma_mul_upper_bound(w as int, 0xFFFF_FFFF, h as int, 0xFFFF_FFFF);
        vstd::arithmetic::mul::lemma_mul_is_associative(3int, w as int, h as int);
    }
    let wh: u64 = (w as u64) * (h as u64);
    let n = raw.len();
    if wh > usize::MAX as u64 {
        return Err(ReconstructError::SizeMismatch);
    }
    if n != wh as usize {
        return Err(ReconstructError::SizeMismatch);
    }
    let out_len = match (wh as usize).checked_mul(3) {
        Some(n) => n,
        None => {
            return Err(ReconstructError::TooLarge);
        },
    };
    if width < 2 || height < 2 {
        return Err(ReconstructError::UnsupportedResolution);
    }
    let mut out = zero_vec(out_len);
    match run_linear_demosaic(raw, w, h, &mut out) {
        Ok(()) => Ok(out),
        Err(_) => {
            proof {
                assert(false);
            }
            Err(ReconstructError::UnsupportedResolution)
        },
    }
}

} // verus!
