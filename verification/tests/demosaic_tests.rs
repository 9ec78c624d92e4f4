use gvsp_rx::reconstruct_rgb;
use gvsp_rx::ReconstructError;

#[test]
fn uniform_mosaic_reconstructs_to_uniform_rgb() {
    // Interpolating a constant mosaic yields the same constant everywhere.
    let raw = vec![7u8; 16];
    let rgb = reconstruct_rgb(&raw, 4, 4).unwrap();
    assert_eq!(rgb.len(), 48);
    assert!(rgb.iter().all(|&b| b == 7));
}

#[test]
fn output_has_three_bytes_per_pixel() {
    let raw = vec![0u8; 64 * 48];
    let rgb = reconstruct_rgb(&raw, 64, 48).unwrap();
    assert_eq!(rgb.len(), 64 * 48 * 3);
}

#[test]
fn matches_the_interpolation_called_directly() {
    // The library's output is the bayer crate's linear demosaic, not the
    // mosaic handed back unchanged.
    let mut raw = Vec::new();
    for i in 0..16u32 {
        raw.push((i * 13 % 251) as u8);
    }
    let rgb = reconstruct_rgb(&raw, 4, 4).unwrap();
    assert_ne!(rgb[..raw.len()], raw[..]);

    let mut expected = vec![0u8; 48];
    let mut reader = std::io::Cursor::new(&raw[..]);
    let mut raster = bayer::RasterMut::new(4, 4, bayer::RasterDepth::Depth8, &mut expected);
    bayer::run_demosaic(
        &mut reader,
        bayer::BayerDepth::Depth8,
        bayer::CFA::RGGB,
        bayer::Demosaic::Linear,
        &mut raster,
    )
    .unwrap();
    assert_eq!(rgb, expected);
}

#[test]
fn red_sites_keep_their_values() {
    // In an RGGB mosaic the even-row, even-column sites are red: the
    // interpolation keeps the measured value in the red channel there.
    let mut raw = vec![0u8; 16];
    raw[0] = 200; // site (0,0)
    raw[2] = 100; // site (2,0)
    let rgb = reconstruct_rgb(&raw, 4, 4).unwrap();
    assert_eq!(rgb[0], 200); // R of pixel (0,0)
    assert_eq!(rgb[2 * 3], 100); // R of pixel (2,0)
}

#[test]
fn size_mismatch_is_an_error() {
    let raw = vec![0u8; 15];
    assert_eq!(
        reconstruct_rgb(&raw, 4, 4),
        Err(ReconstructError::SizeMismatch)
    );
}

#[test]
fn resolution_under_two_by_two_is_rejected() {
    let raw = vec![0u8; 4];
    assert_eq!(
        reconstruct_rgb(&raw, 4, 1),
        Err(ReconstructError::UnsupportedResolution)
    );
    assert_eq!(
        reconstruct_rgb(&raw, 1, 4),
        Err(ReconstructError::UnsupportedResolution)
    );
}

#[test]
fn empty_input_with_zero_resolution_is_rejected() {
    let raw = Vec::new();
    assert_eq!(
        reconstruct_rgb(&raw, 0, 0),
        Err(ReconstructError::UnsupportedResolution)
    );
}
