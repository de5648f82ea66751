use incomplete_file::stream::MemStream;
use incomplete_file::stream::SeekFrom;
use incomplete_file::stream::StreamError;

#[test]
fn stream_read_write_round_trip() {
    let mut s = MemStream::new();
    let data = vec![10u8, 20, 30, 40];
    let n = s.write_from(&data, 0, 4);
    assert_eq!(n, 4);
    assert_eq!(s.byte_len(), 4);
    let pos = s.seek(SeekFrom::Start(0)).unwrap();
    assert_eq!(pos, 0);
    let mut buf = vec![0u8; 4];
    let n = s.read_into(&mut buf, 0, 4);
    assert_eq!(n, 4);
    assert_eq!(buf, data);
}

#[test]
fn stream_partial_copy_into_offset() {
    let mut s = MemStream::from_vec(vec![1u8, 2, 3]);
    let mut buf = vec![9u8; 5];
    // read two bytes into the middle of the buffer; the rest stays
    let n = s.read_into(&mut buf, 2, 2);
    assert_eq!(n, 2);
    assert_eq!(buf, vec![9u8, 9, 1, 2, 9]);
}

#[test]
fn stream_read_past_end() {
    let mut s = MemStream::from_vec(vec![1u8, 2, 3]);
    s.seek(SeekFrom::Start(2)).unwrap();
    let mut buf = vec![0u8; 4];
    // only the tail comes back, then end-of-stream
    let n = s.read_into(&mut buf, 0, 4);
    assert_eq!(n, 1);
    assert_eq!(buf[0], 3u8);
    assert_eq!(s.read_into(&mut buf, 0, 4), 0);
}

#[test]
fn stream_write_past_end_zero_fills() {
    let mut s = MemStream::new();
    s.seek(SeekFrom::Start(3)).unwrap();
    let n = s.write_from(&vec![7u8], 0, 1);
    assert_eq!(n, 1);
    assert_eq!(s.into_vec(), vec![0u8, 0, 0, 7]);
}

#[test]
fn stream_overwrite_in_place() {
    let mut s = MemStream::from_vec(vec![1u8, 2, 3, 4]);
    s.seek(SeekFrom::Start(1)).unwrap();
    s.write_from(&vec![8u8, 9u8], 0, 2);
    assert_eq!(s.into_vec(), vec![1u8, 8, 9, 4]);
}

#[test]
fn stream_invalid_seek() {
    let mut s = MemStream::from_vec(vec![1u8, 2, 3]);
    s.seek(SeekFrom::Start(1)).unwrap();
    // a target before the start of the stream is refused and the
    // cursor stays put
    assert_eq!(s.seek(SeekFrom::Current(-2)), Err(StreamError::InvalidSeek));
    assert_eq!(s.seek(SeekFrom::End(-4)), Err(StreamError::InvalidSeek));
    assert_eq!(s.seek(SeekFrom::Current(0)), Ok(1));
}

#[test]
fn stream_flush_keeps_bytes() {
    let mut s = MemStream::new();
    s.write_from(&vec![5u8, 6u8], 0, 2);
    s.flush();
    assert_eq!(s.byte_len(), 2);
    assert_eq!(s.into_vec(), vec![5u8, 6]);
}
