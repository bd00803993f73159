use scap::frame::convert_bgra_to_rgb;
use scap::frame::get_cropped_data;
use scap::frame::remove_alpha_channel;
use scap::pixelformat::create_bgr_frame;
use scap::pixelformat::create_bgra_frame;
use scap::pixelformat::create_rgb_frame;

#[test]
fn bgra_crops_padding() {
    // W=2, H=2, S=12: each row carries 4 padding bytes that must not appear
    // in the output.
    let data: Vec<u8> = vec![
        1, 2, 3, 4, 5, 6, 7, 8, 100, 101, 102, 103, // row 0
        9, 10, 11, 12, 13, 14, 15, 16, 104, 105, 106, 107, // row 1
    ];
    let frame = create_bgra_frame(42, 2, 2, 12, &data).unwrap();
    assert_eq!(frame.display_time, 42);
    assert_eq!(frame.width, 2);
    assert_eq!(frame.height, 2);
    assert_eq!(
        frame.data,
        vec![1, 2, 3, 4, 5, 6, 7, 8, 9, 10, 11, 12, 13, 14, 15, 16]
    );
}

#[test]
fn bgra_no_padding_is_identity_copy() {
    // S == 4W: cropping is a byte-identical no-op copy.
    let data: Vec<u8> = vec![1, 2, 3, 4, 5, 6, 7, 8, 9, 10, 11, 12, 13, 14, 15, 16];
    let frame = create_bgra_frame(0, 2, 2, 8, &data).unwrap();
    assert_eq!(frame.data, data);
}

#[test]
fn bgr_drops_alpha_byte_of_every_pixel() {
    let data: Vec<u8> = vec![1, 2, 3, 4, 5, 6, 7, 8, 9, 10, 11, 12];
    let bgra = create_bgra_frame(0, 3, 1, 12, &data).unwrap();
    let bgr = create_bgr_frame(0, 3, 1, 12, &data).unwrap();
    assert_eq!(bgr.data.len(), 3 * 3);
    for k in 0..3 {
        for j in 0..3 {
            assert_eq!(bgr.data[3 * k + j], bgra.data[4 * k + j]);
        }
    }
}

#[test]
fn rgb_reverses_channels_and_drops_alpha() {
    let data: Vec<u8> = vec![1, 2, 3, 4, 5, 6, 7, 8, 9, 10, 11, 12];
    let bgra = create_bgra_frame(0, 3, 1, 12, &data).unwrap();
    let rgb = create_rgb_frame(0, 3, 1, 12, &data).unwrap();
    assert_eq!(rgb.data.len(), 3 * 3);
    for k in 0..3 {
        for j in 0..3 {
            assert_eq!(rgb.data[3 * k + j], bgra.data[4 * k + 2 - j]);
        }
    }
}

#[test]
fn conversion_is_idempotent() {
    // Converting the same buffer twice yields byte-identical output: there is
    // no hidden state between calls.
    let data: Vec<u8> = vec![
        1, 2, 3, 4, 5, 6, 7, 8, 100, 101, 102, 103, //
        9, 10, 11, 12, 13, 14, 15, 16, 104, 105, 106, 107,
    ];
    let a1 = create_bgra_frame(7, 2, 2, 12, &data).unwrap();
    let a2 = create_bgra_frame(7, 2, 2, 12, &data).unwrap();
    assert_eq!(a1.data, a2.data);
    let b1 = create_bgr_frame(7, 2, 2, 12, &data).unwrap();
    let b2 = create_bgr_frame(7, 2, 2, 12, &data).unwrap();
    assert_eq!(b1.data, b2.data);
    let c1 = create_rgb_frame(7, 2, 2, 12, &data).unwrap();
    let c2 = create_rgb_frame(7, 2, 2, 12, &data).unwrap();
    assert_eq!(c1.data, c2.data);
}

#[test]
fn zero_width_yields_no_frame() {
    let data: Vec<u8> = Vec::new();
    assert!(create_bgra_frame(0, 0, 5, 64, &data).is_none());
    assert!(create_bgr_frame(0, 0, 5, 64, &data).is_none());
    assert!(create_rgb_frame(0, 0, 5, 64, &data).is_none());
}

#[test]
fn zero_height_yields_no_frame() {
    let data: Vec<u8> = Vec::new();
    assert!(create_bgra_frame(0, 5, 0, 64, &data).is_none());
    assert!(create_bgr_frame(0, 5, 0, 64, &data).is_none());
    assert!(create_rgb_frame(0, 5, 0, 64, &data).is_none());
}

#[test]
fn padded_single_row_scenario() {
    // W=2, H=1, S=12: input row [B0,G0,R0,A0,B1,G1,R1,A1,<4 pad bytes>].
    let (b0, g0, r0, a0) = (10, 20, 30, 40);
    let (b1, g1, r1, a1) = (50, 60, 70, 80);
    let data: Vec<u8> = vec![b0, g0, r0, a0, b1, g1, r1, a1, 200, 201, 202, 203];

    let bgra = create_bgra_frame(5, 2, 1, 12, &data).unwrap();
    assert_eq!(bgra.data, vec![b0, g0, r0, a0, b1, g1, r1, a1]);

    let bgr = create_bgr_frame(5, 2, 1, 12, &data).unwrap();
    assert_eq!(bgr.data, vec![b0, g0, r0, b1, g1, r1]);

    let rgb = create_rgb_frame(5, 2, 1, 12, &data).unwrap();
    assert_eq!(rgb.data, vec![r0, g0, b0, r1, g1, b1]);
}

#[test]
fn crop_extracts_each_row() {
    let data: Vec<u8> = vec![
        1, 2, 3, 4, 9, 9, // row 0: 4 pixel bytes + 2 padding
        5, 6, 7, 8, 9, 9, // row 1
    ];
    let out = get_cropped_data(&data, 6, 1, 2);
    assert_eq!(out, vec![1, 2, 3, 4, 5, 6, 7, 8]);
}

#[test]
fn remove_alpha_channel_exact() {
    let data: Vec<u8> = vec![1, 2, 3, 4, 5, 6, 7, 8];
    assert_eq!(remove_alpha_channel(&data), vec![1, 2, 3, 5, 6, 7]);
}

#[test]
fn convert_bgra_to_rgb_exact() {
    let data: Vec<u8> = vec![1, 2, 3, 4, 5, 6, 7, 8];
    assert_eq!(convert_bgra_to_rgb(&data), vec![3, 2, 1, 7, 6, 5]);
}

#[test]
fn empty_input_transforms() {
    let data: Vec<u8> = Vec::new();
    assert_eq!(get_cropped_data(&data, 0, 0, 0), Vec::<u8>::new());
    assert_eq!(remove_alpha_channel(&data), Vec::<u8>::new());
    assert_eq!(convert_bgra_to_rgb(&data), Vec::<u8>::new());
}

#[test]
fn timestamp_and_geometry_propagate() {
    let data: Vec<u8> = vec![0; 4];
    let frame = create_bgra_frame(u64::MAX, 1, 1, 4, &data).unwrap();
    assert_eq!(frame.display_time, u64::MAX);
    assert_eq!(frame.width, 1);
    assert_eq!(frame.height, 1);
}
