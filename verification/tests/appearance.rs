use pet_repair::appearance::{bitmap_file, snapshot_png, HEADER_BYTES};

#[test]
fn preview_bitmap_is_framed_exactly() {
    let pixels = [1u8, 2, 3, 4, 5, 6, 7, 8];
    let file = bitmap_file(2, 1, &pixels);
    let mut expected = vec![b'B', b'M', 62, 0, 0, 0, 0, 0, 0, 0, 54, 0, 0, 0, 40, 0, 0, 0];
    expected.extend_from_slice(&[2, 0, 0, 0, 0xff, 0xff, 0xff, 0xff, 1, 0, 32, 0]);
    expected.extend_from_slice(&[0; 24]);
    expected.extend_from_slice(&pixels);
    assert_eq!(file, expected);
    assert_eq!(file.len(), HEADER_BYTES as usize + pixels.len());
}

#[test]
fn preview_bitmap_of_nothing_and_of_a_wide_canvas() {
    assert_eq!(bitmap_file(0, 0, &[]).len(), 54);
    let file = bitmap_file(400, 300, &[]);
    assert_eq!(&file[18..22], &400i32.to_le_bytes());
    assert_eq!(&file[22..26], &(-300i32).to_le_bytes());
}

#[test]
fn snapshots_are_encoded_as_png() {
    let pixels = [255u8, 0, 0, 255, 0, 255, 0, 128];
    let file = snapshot_png(2, 1, &pixels).unwrap();
    assert_eq!(&file[..8], &[137, 80, 78, 71, 13, 10, 26, 10]);
    assert_eq!(&file[12..16], b"IHDR");
    assert_eq!(&file[16..20], &2u32.to_be_bytes());
    assert_eq!(&file[20..24], &1u32.to_be_bytes());
    assert_eq!((file[24], file[25]), (8, 6));
    assert_eq!(&file[file.len() - 8..file.len() - 4], b"IEND");
}

#[test]
fn empty_snapshots_are_refused() {
    let error = snapshot_png(0, 3, &[]).unwrap_err();
    assert!(error.contains("Zero width"), "{error}");
    assert!(snapshot_png(3, 0, &[]).is_err());
}
