use slimproto::socketreader::{SeekFrom, SocketReader};

#[test]
fn test_read() {
    let mut d = Vec::with_capacity(64);
    let testdata = {
        for i in 0..64 {
            d.push(i as u8);
        }
        d.as_slice()
    };

    let mut seekbuf = SocketReader::with_capacity(64, testdata);
    let buf = seekbuf.read(8).unwrap();
    assert_eq!(buf.len(), 8usize);
    assert_eq!(buf[..], testdata[0..8]);
}

#[test]
fn test_multpile_reads() {
    let mut d = Vec::with_capacity(64);
    let testdata = {
        for i in 0..64 {
            d.push(i as u8);
        }
        d.as_slice()
    };

    let mut seekbuf = SocketReader::with_capacity(64, testdata);
    let _ = seekbuf.read(8);
    let buf = seekbuf.read(8).unwrap();
    assert_eq!(buf[..], testdata[8..16]);
}

#[test]
fn seek_from_end() {
    let mut d = Vec::with_capacity(64);
    let testdata = {
        for i in 0..64 {
            d.push(i as u8);
        }
        d.as_slice()
    };

    let mut seekbuf = SocketReader::with_capacity(64, testdata);
    let _ = seekbuf.read(8);
    let pos = seekbuf.seek(SeekFrom::End(0));
    assert!(pos.is_err());
}

#[test]
fn seek_current_in_buf() {
    let mut d = Vec::with_capacity(64);
    let testdata = {
        for i in 0..64 {
            d.push(i as u8);
        }
        d.as_slice()
    };

    let mut seekbuf = SocketReader::with_capacity(64, testdata);
    let _ = seekbuf.read(8);
    let _ = seekbuf.read(8);
    let pos = seekbuf.seek(SeekFrom::Current(4)).unwrap();
    assert_eq!(pos, 20u64);
}

#[test]
fn seek_back_replays_buffered_bytes() {
    let data: Vec<u8> = (0u8..32).collect();
    let mut seekbuf = SocketReader::with_capacity(32, &data[..]);
    let _ = seekbuf.read(8);
    let pos = seekbuf.seek(SeekFrom::Current(-4)).unwrap();
    assert_eq!(pos, 4);
    let buf = seekbuf.read(4).unwrap();
    assert_eq!(buf, vec![4, 5, 6, 7]);
}

#[test]
fn seek_back_past_buffer_start_fails() {
    let data: Vec<u8> = (0u8..32).collect();
    let mut seekbuf = SocketReader::with_capacity(32, &data[..]);
    let _ = seekbuf.read(8);
    assert!(seekbuf.seek(SeekFrom::Current(-9)).is_err());
}

#[test]
fn seek_past_the_end_fails() {
    let data: Vec<u8> = (0u8..16).collect();
    let mut seekbuf = SocketReader::with_capacity(8, &data[..]);
    assert!(seekbuf.seek(SeekFrom::Current(100)).is_err());
}
