use iced_aksel::sdf::{generate_sdf_from_raster, STEP};

/// The same field computed in `f32`, pixel distances, as a reference.
fn reference(data: &[u8], width: u32, height: u32) -> Vec<u8> {
    let w = width as usize;
    let h = height as usize;
    let spread = 4.0f32;
    let mut inside = vec![f32::INFINITY; w * h];
    let mut outside = vec![f32::INFINITY; w * h];
    for idx in 0..w * h {
        let alpha = data[idx] as f32 / 255.0;
        if alpha > 0.5 {
            inside[idx] = 0.0;
            outside[idx] = (alpha - 0.5) * 2.0 * spread;
        } else {
            outside[idx] = 0.0;
            inside[idx] = (0.5 - alpha) * 2.0 * spread;
        }
    }
    for y in 0..h {
        for x in 0..w {
            let idx = y * w + x;
            if x > 0 {
                inside[idx] = inside[idx].min(inside[idx - 1] + 1.0);
                outside[idx] = outside[idx].min(outside[idx - 1] + 1.0);
            }
            if y > 0 {
                inside[idx] = inside[idx].min(inside[idx - w] + 1.0);
                outside[idx] = outside[idx].min(outside[idx - w] + 1.0);
            }
        }
    }
    for y in (0..h).rev() {
        for x in (0..w).rev() {
            let idx = y * w + x;
            if x + 1 < w {
                inside[idx] = inside[idx].min(inside[idx + 1] + 1.0);
                outside[idx] = outside[idx].min(outside[idx + 1] + 1.0);
            }
            if y + 1 < h {
                inside[idx] = inside[idx].min(inside[idx + w] + 1.0);
                outside[idx] = outside[idx].min(outside[idx + w] + 1.0);
            }
        }
    }
    let mut sdf = vec![0u8; w * h * 4];
    for idx in 0..w * h {
        let signed = outside[idx] - inside[idx];
        let normalized = ((signed / spread) + 1.0) * 0.5;
        let value = (normalized.clamp(0.0, 1.0) * 255.0) as u8;
        sdf[idx * 4] = value;
        sdf[idx * 4 + 1] = value;
        sdf[idx * 4 + 2] = value;
        sdf[idx * 4 + 3] = 255;
    }
    sdf
}

fn masks() -> Vec<(Vec<u8>, u32, u32)> {
    let mut out = Vec::new();
    let mut seed: u32 = 12345;
    let mut next = || {
        seed = seed.wrapping_mul(1103515245).wrapping_add(12345);
        (seed >> 16) as u8
    };
    for &(w, h) in &[(1u32, 1u32), (3, 1), (1, 4), (5, 5), (8, 3), (12, 9)] {
        let random: Vec<u8> = (0..w * h).map(|_| next()).collect();
        let binary: Vec<u8> = (0..w * h).map(|_| if next() > 128 { 255 } else { 0 }).collect();
        out.push((random, w, h));
        out.push((binary, w, h));
    }
    out
}

#[test]
fn one_pixel_step_is_255_units() {
    assert_eq!(STEP, 255);
}

#[test]
fn sdf_hand_computed_row() {
    let sdf = generate_sdf_from_raster(&[255, 0, 0], 3, 1);
    assert_eq!(sdf, vec![159, 159, 159, 255, 95, 95, 95, 255, 63, 63, 63, 255]);
}

#[test]
fn sdf_full_and_empty_pixels() {
    assert_eq!(generate_sdf_from_raster(&[255], 1, 1), vec![255, 255, 255, 255]);
    assert_eq!(generate_sdf_from_raster(&[0], 1, 1), vec![0, 0, 0, 255]);
    assert_eq!(generate_sdf_from_raster(&[128], 1, 1), vec![128, 128, 128, 255]);
    assert_eq!(generate_sdf_from_raster(&[127], 1, 1), vec![127, 127, 127, 255]);
}

#[test]
fn sdf_empty_image() {
    assert!(generate_sdf_from_raster(&[], 0, 0).is_empty());
    assert!(generate_sdf_from_raster(&[9, 9], 0, 2).is_empty());
}

#[test]
fn sdf_matches_float_reference() {
    for (data, w, h) in masks() {
        let exact = generate_sdf_from_raster(&data, w, h);
        let float = reference(&data, w, h);
        assert_eq!(exact.len(), (4 * w * h) as usize);
        for (k, (a, b)) in exact.iter().zip(float.iter()).enumerate() {
            assert!(
                (*a as i32 - *b as i32).abs() <= 1,
                "pixel byte {k} of {w}x{h}: {a} vs {b}"
            );
        }
        // On binary masks every distance is a whole number of pixels.
        if data.iter().all(|&a| a == 0 || a == 255) {
            assert_eq!(exact, float);
        }
    }
}

#[test]
fn sdf_sign_follows_the_mask() {
    for (data, w, h) in masks() {
        let sdf = generate_sdf_from_raster(&data, w, h);
        for k in 0..(w * h) as usize {
            if data[k] >= 128 {
                assert!(sdf[4 * k] >= 127);
            } else {
                assert!(sdf[4 * k] <= 127);
            }
            assert_eq!(sdf[4 * k], sdf[4 * k + 1]);
            assert_eq!(sdf[4 * k], sdf[4 * k + 2]);
            assert_eq!(sdf[4 * k + 3], 255);
        }
    }
}

#[test]
fn sdf_extra_input_is_ignored() {
    let a = generate_sdf_from_raster(&[255, 0, 7, 7, 7], 2, 1);
    let b = generate_sdf_from_raster(&[255, 0], 2, 1);
    assert_eq!(a, b);
}
