use middleware::migrations::{load_upgrade_data, read_frame, save_upgrade_data, write_frame};

#[test]
fn frame_is_length_then_payload() {
    let mut out = vec![9];
    write_frame(&mut out, &[1, 2, 3]);
    assert_eq!(out, vec![9, 3, 0, 0, 0, 1, 2, 3]);
}

#[test]
fn long_frame_length_is_little_endian() {
    let payload = vec![7u8; 300];
    let mut out = Vec::new();
    write_frame(&mut out, &payload);
    assert_eq!(&out[..4], &[44, 1, 0, 0]);
    assert_eq!(out.len(), 304);
}

#[test]
fn load_gives_back_what_was_saved() {
    let data = save_upgrade_data(&[1, 2], &[], &[3, 4, 5]);
    assert_eq!(data, vec![2, 0, 0, 0, 1, 2, 0, 0, 0, 0, 3, 0, 0, 0, 3, 4, 5]);
    assert_eq!(load_upgrade_data(&data), Some((vec![1, 2], vec![], vec![3, 4, 5])));
}

#[test]
fn load_ignores_what_follows() {
    let mut data = save_upgrade_data(&[8], &[9], &[10]);
    data.extend_from_slice(&[0xff; 16]);
    assert_eq!(load_upgrade_data(&data), Some((vec![8], vec![9], vec![10])));
}

#[test]
fn load_of_short_data_fails() {
    let data = save_upgrade_data(&[1, 2], &[3], &[4, 5]);
    assert_eq!(load_upgrade_data(&data[..data.len() - 1]), None);
    assert_eq!(load_upgrade_data(&[1, 0]), None);
    assert_eq!(load_upgrade_data(&[]), None);
}

#[test]
fn read_frame_reports_next_position() {
    let data = vec![1, 0, 0, 0, 42, 0, 0, 0, 0];
    assert_eq!(read_frame(&data, 0), Some((vec![42], 5)));
    assert_eq!(read_frame(&data, 5), Some((vec![], 9)));
    assert_eq!(read_frame(&data, 6), None);
    assert_eq!(read_frame(&data, 100), None);
}
