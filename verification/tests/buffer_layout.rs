use anyrender::buffer_layout::buffer_size;
use anyrender::buffer_layout::padded_row_bytes;
use anyrender::buffer_layout::unpad_rows;

#[test]
fn rows_pad_to_the_next_alignment_block() {
    assert_eq!(padded_row_bytes(0), 0);
    assert_eq!(padded_row_bytes(1), 256);
    assert_eq!(padded_row_bytes(64), 256);
    assert_eq!(padded_row_bytes(65), 512);
    assert_eq!(padded_row_bytes(100), 512);
    assert_eq!(padded_row_bytes(128), 512);
}

#[test]
fn staging_buffer_size_is_padded_rows_times_height() {
    assert_eq!(buffer_size(64, 10), 2560);
    assert_eq!(buffer_size(1, 3), 768);
    assert_eq!(buffer_size(0, 100), 0);
}

#[test]
fn unpad_rows_drops_the_alignment_padding() {
    // One pixel per row: each 256-byte staging row holds 4 meaningful bytes.
    let mut data = vec![0u8; 512];
    data[0] = 1;
    data[1] = 2;
    data[2] = 3;
    data[3] = 4;
    data[256] = 5;
    data[257] = 6;
    data[258] = 7;
    data[259] = 8;
    let tight = unpad_rows(&data, 1, 2);
    assert_eq!(tight, vec![1, 2, 3, 4, 5, 6, 7, 8]);
}

#[test]
fn unpad_rows_of_empty_texture_is_empty() {
    let data: Vec<u8> = Vec::new();
    let tight = unpad_rows(&data, 0, 0);
    assert!(tight.is_empty());
}
