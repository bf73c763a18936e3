//! The smaller public pieces driven directly: the option map, the file
//! store, and the write-side rattle through its trait.

use codecpipe::adapters::{BytesToBytesEncoder, DeathRattle};
use codecpipe::filestore::FileStore;
use codecpipe::hexcodec::HexEncodeMapping;
use codecpipe::options::Options;

#[test]
fn options_switches_and_values() {
    let mut o = Options::new();
    assert!(!o.get_switch(b"e"));
    o.insert_switch(b"e");
    assert!(o.get_switch(b"e"));
    assert!(o.get_text_raw(b"C").is_none());
    o.insert_text(b"C", b"hello");
    assert_eq!(o.get_text_raw(b"C").unwrap(), b"hello");
    // a later insertion of the same name wins
    o.insert_text(b"C", b"bye");
    assert_eq!(o.get_text_raw(b"C").unwrap(), b"bye");
}

#[test]
fn options_numeral_rendering_and_parsing() {
    let mut o = Options::new();
    o.insert_text_str(b"T", 1234567890123456789);
    assert_eq!(o.get_text_raw(b"T").unwrap(), b"1234567890123456789");
    assert_eq!(o.get_text(b"T").unwrap(), Some(1234567890123456789));
    o.insert_text(b"T", b"-77");
    assert_eq!(o.get_text(b"T").unwrap(), Some(-77));
    o.insert_text(b"T", b"nope");
    assert!(o.get_text(b"T").is_err());
    assert_eq!(o.get_text(b"Z").unwrap(), None);
}

#[test]
fn file_store_last_write_wins() {
    let mut s = FileStore::new();
    assert!(s.get(b"f").is_none());
    s.put(b"f", b"one");
    s.put(b"g", b"other");
    s.put(b"f", b"two");
    assert_eq!(s.get(b"f").unwrap(), b"two");
    assert_eq!(s.get(b"g").unwrap(), b"other");
    let names = s.names();
    assert!(names.iter().any(|n| n == b"f"));
    assert!(names.iter().any(|n| n == b"g"));
}

#[test]
fn writer_rattle_finishes_through_its_trait() {
    let mut enc = BytesToBytesEncoder::new(HexEncodeMapping { upper: true });
    enc.write(b"\x0f").unwrap();
    let out = enc.finalize().death_rattle(()).unwrap();
    assert_eq!(out, b"0F");
}
