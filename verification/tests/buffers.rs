use frame_ring::backenderror::BackendError;
use frame_ring::frame::Frame;
use frame_ring::upload::{select_memory_type, MemoryType, UploadBuffer};

fn visible() -> MemoryType {
    MemoryType { cpu_visible: true }
}

fn hidden() -> MemoryType {
    MemoryType { cpu_visible: false }
}

#[test]
fn select_memory_type_first_permitted_visible() {
    let types = vec![hidden(), visible(), visible()];
    // mask permits types 1 and 2; type 1 is the first suitable one
    assert_eq!(select_memory_type(0b110, &types), Some(1));
}

#[test]
fn select_memory_type_prefers_lowest_index() {
    let types = vec![visible(), visible()];
    assert_eq!(select_memory_type(0b11, &types), Some(0));
}

#[test]
fn select_memory_type_respects_mask() {
    // the only CPU-visible type is not permitted by the mask
    let types = vec![visible(), hidden()];
    assert_eq!(select_memory_type(0b10, &types), None);
}

#[test]
fn select_memory_type_rejects_invisible() {
    let types = vec![hidden(), hidden()];
    assert_eq!(select_memory_type(0b11, &types), None);
}

#[test]
fn upload_buffer_new_zero_filled() {
    let types = vec![visible()];
    let buf = UploadBuffer::new(16, 0b1, &types).unwrap();
    assert_eq!(buf.size, 16);
    assert_eq!(buf.data.len(), 16);
    assert!(buf.data.iter().all(|&b| b == 0));
}

#[test]
fn upload_buffer_new_no_suitable_type() {
    let types = vec![hidden()];
    match UploadBuffer::new(16, 0b1, &types) {
        Err(e) => assert_eq!(e, BackendError::NoSuitableMemoryType),
        Ok(_) => panic!("expected NoSuitableMemoryType"),
    }
}

#[test]
fn upload_round_trip_64_bytes() {
    let types = vec![visible()];
    let mut buf = UploadBuffer::new(64, 0b1, &types).unwrap();
    let payload: Vec<u8> = (0u8..64u8).collect();
    buf.write(0, &payload);
    let back = buf.read(0, 64);
    assert_eq!(back, payload);
}

#[test]
fn upload_write_leaves_rest_unchanged() {
    let types = vec![visible()];
    let mut buf = UploadBuffer::new(10, 0b1, &types).unwrap();
    let payload = vec![7u8, 8u8, 9u8];
    buf.write(4, &payload);
    let whole = buf.read(0, 10);
    assert_eq!(whole, vec![0, 0, 0, 0, 7, 8, 9, 0, 0, 0]);
}

#[test]
fn upload_overlapping_writes_last_wins() {
    let types = vec![visible()];
    let mut buf = UploadBuffer::new(4, 0b1, &types).unwrap();
    buf.write(0, &vec![1, 1, 1, 1]);
    buf.write(1, &vec![2, 2]);
    assert_eq!(buf.read(0, 4), vec![1, 2, 2, 1]);
}

#[test]
fn frame_new_is_empty() {
    let f = Frame::new();
    assert!(f.desc_set.is_none());
    assert!(f.ubuffer.is_none());
    assert!(f.vbuffer.is_none());
}
