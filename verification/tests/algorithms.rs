use image_worker::blur::box_blur;
use image_worker::pointwise::{gamma_transform, invert};
use image_worker::sobel::sobel_edge_detection;

/// The sampled power-law curve `v -> round(255 * (v/255)^gamma)`, the table
/// the display side hands to the gamma transform.
fn gamma_lut(gamma: f64) -> Vec<u8> {
    let mut lut = Vec::new();
    let mut v: usize = 0;
    while v < 256 {
        let x = (v as f64) / 255.0;
        let y = 255.0 * x.powf(gamma);
        let clamped = if y < 0.0 {
            0.0
        } else if y > 255.0 {
            255.0
        } else {
            y
        };
        lut.push(clamped.round() as u8);
        v += 1;
    }
    lut
}

fn white_2x2() -> Vec<u8> {
    vec![
        255, 255, 255, 255, 255, 255, 255, 255, 255, 255, 255, 255, 255, 255, 255, 255,
    ]
}

#[test]
fn invert_white_goes_black() {
    let out = invert(white_2x2(), 2);
    assert_eq!(out, vec![0, 0, 0, 255, 0, 0, 0, 255, 0, 0, 0, 255, 0, 0, 0, 255]);
}

#[test]
fn invert_keeps_alpha() {
    let out = invert(vec![1, 2, 3, 4, 250, 128, 0, 77], 1);
    assert_eq!(out, vec![254, 253, 252, 4, 5, 127, 255, 77]);
}

#[test]
fn invert_twice_restores_buffer() {
    let original = vec![0, 13, 200, 17, 255, 1, 99, 0, 42, 42, 42, 42];
    let once = invert(original.clone(), 3);
    let twice = invert(once, 3);
    assert_eq!(twice, original);
}

#[test]
fn gamma_one_is_identity() {
    let lut = gamma_lut(1.0);
    let buffer = vec![0, 13, 200, 17, 255, 1, 99, 0];
    let out = gamma_transform(buffer.clone(), 1, &lut);
    assert_eq!(out, buffer);
}

#[test]
fn gamma_on_white_keeps_white() {
    let out = gamma_transform(white_2x2(), 2, &gamma_lut(2.0));
    assert_eq!(out, white_2x2());
}

#[test]
fn gamma_above_one_never_brightens() {
    let lut = gamma_lut(2.0);
    let buffer = vec![0, 13, 200, 17, 255, 1, 99, 0, 64, 128, 192, 255];
    let out = gamma_transform(buffer.clone(), 1, &lut);
    let mut i: usize = 0;
    while i < buffer.len() {
        if i % 4 == 3 {
            assert_eq!(out[i], buffer[i]);
        } else {
            assert!(out[i] <= buffer[i]);
        }
        i += 1;
    }
}

#[test]
fn gamma_below_one_never_darkens() {
    let lut = gamma_lut(0.5);
    let buffer = vec![0, 13, 200, 17, 255, 1, 99, 0, 64, 128, 192, 255];
    let out = gamma_transform(buffer.clone(), 1, &lut);
    let mut i: usize = 0;
    while i < buffer.len() {
        if i % 4 == 3 {
            assert_eq!(out[i], buffer[i]);
        } else {
            assert!(out[i] >= buffer[i]);
        }
        i += 1;
    }
}

#[test]
fn gamma_darkens_midtones() {
    // 128/255 squared maps to round(255 * (128/255)^2) = 64.
    let lut = gamma_lut(2.0);
    let out = gamma_transform(vec![128, 128, 128, 128], 1, &lut);
    assert_eq!(out, vec![64, 64, 64, 128]);
}

#[test]
fn box_blur_constant_image_unchanged() {
    let out = box_blur(white_2x2(), 2, 3);
    assert_eq!(out, white_2x2());
}

#[test]
fn box_blur_constant_image_unchanged_large_kernel() {
    let mut buffer = Vec::new();
    for _ in 0..9 {
        buffer.extend_from_slice(&[7, 80, 200, 31]);
    }
    let out = box_blur(buffer.clone(), 3, 7);
    assert_eq!(out, buffer);
}

/// A 3x3 ramp: the centre pixel averages all nine samples, a corner only its
/// four in-bounds neighbours, an edge pixel its six — the denominator follows
/// the clamped window.
#[test]
fn box_blur_uses_clamped_denominator() {
    let mut buffer = Vec::new();
    for v in [10u8, 20, 30, 40, 50, 60, 70, 80, 90] {
        buffer.extend_from_slice(&[v, v, v, 255]);
    }
    let out = box_blur(buffer, 3, 3);
    // centre (1,1): (10+20+30+40+50+60+70+80+90)/9 = 50
    assert_eq!(out[(1 * 3 + 1) * 4], 50);
    // corner (0,0): (10+20+40+50)/4 = 30
    assert_eq!(out[0], 30);
    // top edge (1,0): (10+20+30+40+50+60)/6 = 35
    assert_eq!(out[1 * 4], 35);
    // alpha is averaged too; a constant alpha plane stays constant
    assert_eq!(out[3], 255);
    assert_eq!(out[(1 * 3 + 1) * 4 + 3], 255);
}

#[test]
fn box_blur_even_kernel_falls_to_next_lower_odd() {
    let mut buffer = Vec::new();
    for v in [10u8, 20, 30, 40, 50, 60, 70, 80, 90] {
        buffer.extend_from_slice(&[v, v, v, 255]);
    }
    let with_even = box_blur(buffer.clone(), 3, 4);
    let with_odd = box_blur(buffer, 3, 3);
    assert_eq!(with_even, with_odd);
}

#[test]
fn box_blur_zero_kernel_floors_to_one() {
    let buffer = vec![10, 20, 30, 40, 50, 60, 70, 80];
    let out = box_blur(buffer.clone(), 2, 0);
    // kernel size 1 is the identity
    assert_eq!(out, buffer);
}

/// One white pixel at the right of a 3x1 black row: the two pixels that see
/// the step are edges, the far-left pixel is not.
#[test]
fn sobel_marks_the_step() {
    let buffer = vec![0, 0, 0, 9, 0, 0, 1, 8, 255, 255, 255, 0];
    let out = sobel_edge_detection(buffer, 3, 128);
    assert_eq!(
        out,
        vec![0, 0, 0, 255, 255, 255, 255, 255, 255, 255, 255, 255]
    );
}

#[test]
fn sobel_threshold_zero_marks_everything() {
    let out = sobel_edge_detection(white_2x2(), 2, 0);
    assert_eq!(out, white_2x2());
}

#[test]
fn sobel_flat_image_has_no_edges_above_zero() {
    let out = sobel_edge_detection(white_2x2(), 2, 1);
    assert_eq!(out, vec![0, 0, 0, 255, 0, 0, 0, 255, 0, 0, 0, 255, 0, 0, 0, 255]);
}

#[test]
fn sobel_forces_alpha_opaque() {
    let out = sobel_edge_detection(vec![5, 5, 5, 0, 200, 200, 200, 3], 2, 10);
    assert_eq!(out[3], 255);
    assert_eq!(out[7], 255);
}

#[test]
fn sobel_raising_threshold_only_removes_edges() {
    let buffer = vec![
        0, 0, 0, 9, 0, 0, 1, 8, 255, 255, 255, 0, 10, 10, 10, 1, 90, 90, 90, 2, 200, 200, 200, 3,
    ];
    let low = sobel_edge_detection(buffer.clone(), 3, 10);
    let high = sobel_edge_detection(buffer, 3, 200);
    let mut i: usize = 0;
    while i < low.len() {
        if high[i] == 255 && i % 4 != 3 {
            assert_eq!(low[i], 255);
        }
        i += 1;
    }
}
