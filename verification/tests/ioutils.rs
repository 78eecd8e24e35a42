use bytes::Buf;
use hualib::ioutils::{TappableReader, TryRecvError, WouldBlock};
use hualib::registry::Registry;
use hualib::source::{read_to_end, Cursor, Source};
use std::io::Read;

/// A reader of the standard library as a source.
struct IoSource<R: Read>(R);

impl<R: Read> Source for IoSource<R> {
    type Error = std::io::Error;

    fn read(&mut self, buf: &mut [u8]) -> Result<usize, std::io::Error> {
        self.0.read(buf)
    }
}

/// A source that hands out its chunks one per read, then fails or ends.
struct Chunks {
    chunks: Vec<Vec<u8>>,
    next: usize,
    fail_at_end: bool,
}

impl Chunks {
    fn new(chunks: &[&str]) -> Self {
        Chunks { chunks: chunks.iter().map(|c| c.as_bytes().to_vec()).collect(), next: 0, fail_at_end: false }
    }
}

impl Source for Chunks {
    type Error = String;

    fn read(&mut self, buf: &mut [u8]) -> Result<usize, String> {
        if self.next < self.chunks.len() {
            let chunk = &self.chunks[self.next];
            self.next += 1;
            buf[..chunk.len()].copy_from_slice(chunk);
            Ok(chunk.len())
        } else if self.fail_at_end {
            Err("broken pipe".to_string())
        } else {
            Ok(0)
        }
    }
}

#[test]
fn test_normal_read() {
    let reader = IoSource(std::io::Cursor::new(b"hello world").reader());
    let mut reader = TappableReader::new(reader);
    let mut output = vec![];
    read_to_end(&mut reader, &mut output).unwrap();
    assert_eq!(Vec::from(b"hello world"), output);
}

#[test]
fn test_tapping_read() {
    let reader = IoSource(std::io::Cursor::new(b"hello world").reader());
    let mut reader = TappableReader::new(reader);
    let mut tapped = reader.tap();
    let mut output = vec![];
    read_to_end(&mut reader, &mut output).unwrap();
    let mut tapped_output = vec![];
    assert!(tapped.read_to_end(&mut reader, &mut tapped_output).is_ok());
    assert_eq!(Vec::from(b"hello world"), tapped_output);
}

#[test]
fn ioutils_test_normal_read() {
    let mut reader = TappableReader::new(Cursor::new(b"hello world".to_vec()));
    let mut output = vec![];
    read_to_end(&mut reader, &mut output).unwrap();
    assert_eq!(Vec::from(b"hello world"), output);
}

#[test]
fn ioutils_test_tapping_read() {
    let mut reader = TappableReader::new(Cursor::new(b"hello world".to_vec()));
    let mut tapped = reader.tap();
    let mut output = vec![];
    read_to_end(&mut reader, &mut output).unwrap();
    let mut tapped_output = vec![];
    assert!(tapped.read_to_end(&mut reader, &mut tapped_output).is_ok());
    assert_eq!(Vec::from(b"hello world"), tapped_output);
}

#[test]
fn tap_attached_before_any_read_receives_everything_in_order() {
    let mut reader = TappableReader::new(Chunks::new(&["ab", "cd", "ef"]));
    let mut tapped = reader.tap();
    let mut output = vec![];
    assert_eq!(read_to_end(&mut reader, &mut output), Ok(6));
    assert_eq!(output, b"abcdef".to_vec());
    let mut tapped_output = vec![];
    assert!(matches!(tapped.read_to_end(&mut reader, &mut tapped_output), Ok(6)));
    assert_eq!(tapped_output, b"abcdef".to_vec());
}

#[test]
fn tap_attached_after_first_chunk_misses_it() {
    let mut reader = TappableReader::new(Chunks::new(&["ab", "cd", "ef"]));
    let mut buf = [0u8; 16];
    assert_eq!(reader.read(&mut buf), Ok(2));
    assert_eq!(&buf[..2], b"ab");
    let mut tapped = reader.tap();
    let mut output = vec![];
    assert_eq!(read_to_end(&mut reader, &mut output), Ok(4));
    let mut tapped_output = vec![];
    assert!(matches!(tapped.read_to_end(&mut reader, &mut tapped_output), Ok(4)));
    assert_eq!(tapped_output, b"cdef".to_vec());
}

#[test]
fn two_taps_receive_the_same_one_after_the_other() {
    let mut reader = TappableReader::new(Chunks::new(&["ab", "cd", "ef"]));
    let mut first = reader.tap();
    let mut second = reader.tap();
    let mut output = vec![];
    assert_eq!(read_to_end(&mut reader, &mut output), Ok(6));
    let mut first_output = vec![];
    assert!(matches!(first.read_to_end(&mut reader, &mut first_output), Ok(6)));
    let mut second_output = vec![];
    assert!(matches!(second.read_to_end(&mut reader, &mut second_output), Ok(6)));
    assert_eq!(first_output, b"abcdef".to_vec());
    assert_eq!(second_output, b"abcdef".to_vec());
}

#[test]
fn tap_serves_a_chunk_in_pieces() {
    let mut reader = TappableReader::new(Cursor::new(b"hello world".to_vec()));
    let mut tapped = reader.tap();
    let mut buf = [0u8; 16];
    assert!(matches!(reader.read(&mut buf), Ok(11)));
    let mut small = [0u8; 4];
    assert!(matches!(tapped.read(&mut reader, &mut small), Ok(4)));
    assert_eq!(&small, b"hell");
    assert!(matches!(tapped.read(&mut reader, &mut small), Ok(4)));
    assert_eq!(&small, b"o wo");
    assert!(matches!(tapped.read(&mut reader, &mut small), Ok(3)));
    assert_eq!(&small[..3], b"rld");
    assert!(matches!(tapped.read(&mut reader, &mut small), Err(WouldBlock)));
}

#[test]
fn tap_would_block_while_nothing_is_queued() {
    let mut reader = TappableReader::new(Chunks::new(&["ab"]));
    let mut tapped = reader.tap();
    let mut buf = [0u8; 4];
    assert!(matches!(tapped.read(&mut reader, &mut buf), Err(WouldBlock)));
    assert_eq!(reader.read(&mut buf), Ok(2));
    assert!(matches!(tapped.read(&mut reader, &mut buf), Ok(2)));
    assert_eq!(&buf[..2], b"ab");
}

#[test]
fn failed_read_closes_taps_and_goes_to_the_caller() {
    let mut source = Chunks::new(&["ab"]);
    source.fail_at_end = true;
    let mut reader = TappableReader::new(source);
    let mut tapped = reader.tap();
    let mut buf = [0u8; 4];
    assert_eq!(reader.read(&mut buf), Ok(2));
    assert_eq!(reader.read(&mut buf), Err("broken pipe".to_string()));
    let mut tapped_output = vec![];
    assert!(matches!(tapped.read_to_end(&mut reader, &mut tapped_output), Ok(2)));
    assert_eq!(tapped_output, b"ab".to_vec());
    assert!(matches!(tapped.read(&mut reader, &mut buf), Ok(0)));
}

#[test]
fn unregistered_tap_is_removed_at_the_next_read() {
    let mut reader = TappableReader::new(Chunks::new(&["ab", "cd"]));
    let first = reader.tap();
    let mut second = reader.tap();
    let mut buf = [0u8; 4];
    assert_eq!(reader.read(&mut buf), Ok(2));
    first.unregister(&mut reader);
    assert!(matches!(reader.try_recv(0), Ok(chunk) if chunk == b"ab".to_vec()));
    assert!(matches!(reader.try_recv(0), Err(TryRecvError::Empty)));
    assert_eq!(reader.read(&mut buf), Ok(2));
    assert!(matches!(reader.try_recv(0), Err(TryRecvError::Disconnected)));
    let mut second_output = vec![];
    assert!(matches!(second.read_to_end(&mut reader, &mut second_output), Err(WouldBlock)));
    assert_eq!(second_output, b"abcd".to_vec());
}

#[test]
fn deliver_routes_what_the_source_answered() {
    let mut reader = TappableReader::new(Chunks::new(&[]));
    let mut tapped = reader.tap();
    assert_eq!(reader.deliver(b"xyz", Ok(2)), Ok(2));
    assert!(matches!(reader.try_recv(0), Ok(chunk) if chunk == b"xy".to_vec()));
    assert_eq!(reader.deliver(b"xyz", Err("gone".to_string())), Err("gone".to_string()));
    let mut buf = [0u8; 4];
    assert!(matches!(tapped.read(&mut reader, &mut buf), Ok(0)));
}

#[test]
fn cursor_reads_front_to_back() {
    let mut cursor = Cursor::new(b"hello".to_vec());
    let mut buf = [0u8; 3];
    assert_eq!(cursor.read_slice(&mut buf), 3);
    assert_eq!(&buf, b"hel");
    assert!(!cursor.is_exhausted());
    assert_eq!(cursor.read_slice(&mut buf), 2);
    assert_eq!(&buf, b"lol");
    assert!(cursor.is_exhausted());
    assert_eq!(cursor.read_slice(&mut buf), 0);
}

#[test]
fn registry_hands_out_each_id_once() {
    let mut registry: Registry<&str> = Registry::new();
    assert_eq!(registry.register("a"), 0);
    assert_eq!(registry.register("b"), 1);
    assert_eq!(registry.unregister(0), Some("a"));
    assert_eq!(registry.unregister(0), None);
    assert_eq!(registry.register("c"), 2);
    let mut ids = registry.ids();
    ids.sort();
    assert_eq!(ids, vec![1, 2]);
    assert_eq!(registry.get(1), Some(&"b"));
    assert_eq!(registry.get(0), None);
    registry.restore(1, "d");
    assert_eq!(registry.get(1), Some(&"d"));
}

#[test]
fn reader_gives_its_source_back() {
    let mut reader = TappableReader::new(Cursor::new(b"abc".to_vec()));
    let mut buf = [0u8; 2];
    assert!(matches!(reader.read(&mut buf), Ok(2)));
    let mut rest = reader.into_inner();
    let mut out = vec![];
    assert_eq!(rest.read_to_end(&mut out), 1);
    assert_eq!(out, b"c".to_vec());
}

#[test]
fn tee_passes_over_a_request_for_an_id_it_never_handed_out() {
    let mut other = TappableReader::new(Chunks::new(&[]));
    let _first = other.tap();
    let stranger = other.tap();
    let mut reader = TappableReader::new(Chunks::new(&["ab"]));
    stranger.unregister(&mut reader);
    let _own_first = reader.tap();
    let mut own = reader.tap();
    let mut buf = [0u8; 4];
    assert_eq!(reader.read(&mut buf), Ok(2));
    assert!(matches!(own.read(&mut reader, &mut buf), Ok(2)));
    assert_eq!(&buf[..2], b"ab");
}
