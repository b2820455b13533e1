use netdisk_monitor::socket_table::owner_pids_from_table;

fn table(count: u32, rows: &[[u32; 3]]) -> Vec<u8> {
    let mut bytes = count.to_le_bytes().to_vec();
    for row in rows {
        for value in row {
            bytes.extend_from_slice(&value.to_le_bytes());
        }
    }
    bytes
}

#[test]
fn owners_are_read_from_each_row() {
    let bytes = table(3, &[[1, 2, 4242], [5, 6, 7], [8, 9, 0x0102_0304]]);
    assert_eq!(owner_pids_from_table(&bytes, 12, 8), vec![4242, 7, 0x0102_0304]);
}

#[test]
fn rows_cut_off_by_the_buffer_are_not_read() {
    let mut bytes = table(5, &[[1, 2, 3], [4, 5, 6]]);
    bytes.extend_from_slice(&[1, 2, 3]);
    assert_eq!(owner_pids_from_table(&bytes, 12, 8), vec![3, 6]);
}

#[test]
fn count_below_available_rows_limits_reading() {
    let bytes = table(1, &[[1, 2, 3], [4, 5, 6]]);
    assert_eq!(owner_pids_from_table(&bytes, 12, 8), vec![3]);
}

#[test]
fn buffer_without_header_gives_nothing() {
    assert_eq!(owner_pids_from_table(&[1, 0, 0], 12, 8), Vec::<u32>::new());
    assert_eq!(owner_pids_from_table(&[], 24, 20), Vec::<u32>::new());
}
