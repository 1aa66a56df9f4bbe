use zelfm::{ChunkBuffer, ChunkReader, FLUSH_THRESHOLD, READ_CHUNK};

#[test]
fn small_writes_are_held() {
    let mut b = ChunkBuffer::new();
    assert_eq!(b.write(&[1, 2, 3]), None);
    assert_eq!(b.write(&[4]), None);
    assert_eq!(b.pending_len(), 4);
}

#[test]
fn reaching_the_threshold_hands_out_everything_held() {
    assert_eq!(FLUSH_THRESHOLD, 8192);
    assert_eq!(READ_CHUNK, 8192);
    let mut b = ChunkBuffer::new();
    let first = vec![1u8; 8000];
    let second = vec![2u8; 500];
    assert_eq!(b.write(&first), None);
    let chunk = b.write(&second).expect("threshold reached");
    assert_eq!(chunk.len(), 8500);
    assert_eq!(&chunk[..8000], &first[..]);
    assert_eq!(&chunk[8000..], &second[..]);
    assert_eq!(b.pending_len(), 0);
}

#[test]
fn exactly_the_threshold_is_handed_out() {
    let mut b = ChunkBuffer::new();
    let chunk = b.write(&vec![9u8; 8192]).unwrap();
    assert_eq!(chunk.len(), 8192);
    let mut c = ChunkBuffer::new();
    assert_eq!(c.write(&vec![9u8; 8191]), None);
}

#[test]
fn flush_hands_out_the_rest_once() {
    let mut b = ChunkBuffer::new();
    assert_eq!(b.flush(), None);
    b.write(&[5, 6]);
    assert_eq!(b.flush(), Some(vec![5, 6]));
    assert_eq!(b.flush(), None);
}

#[test]
fn chunked_bytes_keep_their_order() {
    let mut b = ChunkBuffer::new();
    let mut sent: Vec<u8> = Vec::new();
    let mut out: Vec<u8> = Vec::new();
    for i in 0..40u32 {
        let piece: Vec<u8> = (0..700u32).map(|k| ((i * 7 + k) % 251) as u8).collect();
        sent.extend_from_slice(&piece);
        if let Some(chunk) = b.write(&piece) {
            assert!(chunk.len() >= 8192);
            out.extend_from_slice(&chunk);
        }
    }
    if let Some(rest) = b.flush() {
        out.extend_from_slice(&rest);
    }
    assert_eq!(out, sent);
}

#[test]
fn reader_serves_bytes_in_arrival_order() {
    let mut r = ChunkReader::new();
    assert!(r.is_drained());
    r.refill(vec![1, 2, 3]);
    assert_eq!(r.take(2), vec![1, 2]);
    r.refill(vec![4, 5]);
    assert_eq!(r.take(10), vec![3, 4, 5]);
    assert!(r.is_drained());
    assert_eq!(r.take(4), Vec::<u8>::new());
}

#[test]
fn reader_take_of_zero_reads_nothing() {
    let mut r = ChunkReader::new();
    r.refill(vec![7]);
    assert_eq!(r.take(0), Vec::<u8>::new());
    assert!(!r.is_drained());
    assert_eq!(r.take(1), vec![7]);
}
