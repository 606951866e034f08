use slimproto::buffer::SlimBuffer;
use slimproto::status::StatusData;

#[test]
fn prebuf() {
    const BUFLEN: usize = 1024;

    let mut status = StatusData::default();
    let source: Vec<u8> = (0u8..255).into_iter().cycle().take(BUFLEN).collect();

    let sb = SlimBuffer::new(&source[..], &mut status, 2);
    assert_eq!(sb.prebuf, source);
    assert!(sb.prebuf.len() == source.len());
}

#[test]
fn prebuf_overfill() {
    const BUFLEN: usize = 1024 * 2;

    let mut status = StatusData::default();
    let source: Vec<u8> = (0u8..255).into_iter().cycle().take(BUFLEN).collect();

    let mut sb = SlimBuffer::new(&source[..], &mut status, 2);

    let mut buf = sb.read(BUFLEN, &mut status).unwrap();
    let mut more = sb.read(BUFLEN - buf.len(), &mut status).unwrap();
    buf.append(&mut more);
    assert_eq!(buf, source);
    assert!(sb.prebuf.len() == 0);
}

#[test]
fn read_updates_status() {
    let mut status = StatusData::default();
    let source: Vec<u8> = vec![1, 2, 3, 4, 5, 6, 7, 8];

    let mut sb = SlimBuffer::new(&source[..], &mut status, 4);
    let first = sb.read(3, &mut status).unwrap();
    assert_eq!(first, vec![1, 2, 3]);
    assert_eq!(status.bytes_received, 3);
    assert_eq!(status.fullness, (sb.prebuf.len()) as u32);
    let rest = sb.read(10, &mut status).unwrap();
    assert_eq!(rest, vec![4, 5, 6, 7, 8]);
    assert_eq!(status.bytes_received, 8);
    assert_eq!(status.fullness, 0);
}

#[test]
fn with_capacity_records_buffer_size() {
    let mut status = StatusData::default();
    let source: Vec<u8> = vec![9, 9];
    let sb = SlimBuffer::with_capacity(4096, &source[..], &mut status, 1);
    assert_eq!(status.buffer_size, 4096);
    assert_eq!(sb.prebuf, vec![9, 9]);
}
