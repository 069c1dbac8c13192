use uring_driver::buf::Buffer;

#[test]
fn with_capacity_is_zeroed_and_empty() {
    let buf = Buffer::with_capacity(0x1000, 32);
    assert_eq!(buf.ptr(), 0x1000);
    assert_eq!(buf.capacity(), 32);
    assert_eq!(buf.len(), 0);
    assert_eq!(buf.to_vec(), Vec::<u8>::new());
    assert_eq!(buf.into_vec(), vec![0u8; 32]);
}

#[test]
fn with_capacity_zero_holds_nothing() {
    let buf = Buffer::with_capacity(8, 0);
    assert_eq!(buf.capacity(), 0);
    assert_eq!(buf.get(0), None);
    assert_eq!(buf.into_vec(), Vec::<u8>::new());
}

#[test]
fn from_vec_is_full() {
    let buf = Buffer::from_vec(64, b"hello world".to_vec());
    assert_eq!(buf.ptr(), 64);
    assert_eq!(buf.capacity(), 11);
    assert_eq!(buf.len(), 11);
    assert_eq!(buf.to_vec(), b"hello world".to_vec());
}

#[test]
fn read_slice_is_address_and_initialised_length() {
    let mut buf = Buffer::with_capacity(0x2000, 16);
    assert_eq!(buf.as_read_slice(), (0x2000, 0));
    assert_eq!(buf.deposit(&vec![1, 2, 3], 3), 3);
    assert_eq!(buf.as_read_slice(), (0x2000, 3));
}

#[test]
fn write_slice_is_address_and_capacity() {
    let mut buf = Buffer::with_capacity(0x2000, 16);
    assert_eq!(buf.as_write_slice_mut(), (0x2000, 16));
    assert_eq!(buf.len(), 0);
    assert_eq!(buf.capacity(), 16);
}

#[test]
fn set_init_only_grows_and_stops_at_capacity() {
    let mut buf = Buffer::with_capacity(0, 8);
    buf.set_init(5);
    assert_eq!(buf.len(), 5);
    buf.set_init(3);
    assert_eq!(buf.len(), 5);
    buf.set_init(8);
    assert_eq!(buf.len(), 8);
    let mut other = Buffer::with_capacity(0, 8);
    other.set_init(100);
    assert_eq!(other.len(), 8);
    assert_eq!(other.capacity(), 8);
}

#[test]
fn get_reads_the_region_and_nothing_beyond() {
    let buf = Buffer::from_vec(0, vec![9, 8, 7]);
    assert_eq!(buf.get(0), Some(9));
    assert_eq!(buf.get(2), Some(7));
    assert_eq!(buf.get(3), None);
    assert_eq!(buf.get(usize::MAX), None);
}

#[test]
fn deposit_replaces_the_start_and_keeps_the_rest() {
    let mut buf = Buffer::from_vec(0x30, vec![1, 1, 1, 1, 1, 1]);
    let n = buf.deposit(&vec![7, 8, 9], 3);
    assert_eq!(n, 3);
    assert_eq!(buf.len(), 6);
    assert_eq!(buf.ptr(), 0x30);
    assert_eq!(buf.capacity(), 6);
    assert_eq!(buf.into_vec(), vec![7, 8, 9, 1, 1, 1]);
}

#[test]
fn deposit_takes_no_more_than_reported_supplied_or_fitting() {
    let mut buf = Buffer::with_capacity(0, 4);
    assert_eq!(buf.deposit(&vec![1, 2, 3, 4, 5, 6], 6), 4);
    assert_eq!(buf.to_vec(), vec![1, 2, 3, 4]);

    let mut buf = Buffer::with_capacity(0, 4);
    assert_eq!(buf.deposit(&vec![1, 2, 3], 2), 2);
    assert_eq!(buf.to_vec(), vec![1, 2]);

    let mut buf = Buffer::with_capacity(0, 4);
    assert_eq!(buf.deposit(&vec![1], 3), 1);
    assert_eq!(buf.to_vec(), vec![1]);
}

#[test]
fn deposit_of_an_error_code_changes_nothing() {
    let mut buf = Buffer::from_vec(0, vec![5, 6, 7]);
    assert_eq!(buf.deposit(&vec![1, 2, 3], -11), 0);
    assert_eq!(buf.deposit(&vec![1, 2, 3], 0), 0);
    assert_eq!(buf.deposit(&vec![1, 2, 3], i32::MIN), 0);
    assert_eq!(buf.len(), 3);
    assert_eq!(buf.into_vec(), vec![5, 6, 7]);
}
