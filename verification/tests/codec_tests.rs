//! Per-transform behaviour: identities, counts, round trips, digests,
//! error cases.

use codecpipe::executor::execute;
use codecpipe::filestore::FileStore;
use codecpipe::parser::{parse_command, Tokenizer};
use codecpipe::registry::load_builtins;
use codecpipe::CodecError;

fn run(cmdline: &str, input: &[u8]) -> Result<Vec<u8>, CodecError> {
    let toks: Vec<Vec<u8>> =
        cmdline.split_whitespace().map(|w| w.as_bytes().to_vec()).collect();
    let mut t = Tokenizer::new(toks);
    let cmd = parse_command(&mut t).expect("parse");
    let info = load_builtins();
    let mut store = FileStore::new();
    execute(cmd, &input.to_vec(), &info, &mut store)
}

#[test]
fn id_is_identity() {
    assert_eq!(run("id", b"").unwrap(), b"");
    assert_eq!(run("id", b"abc\x00\xff").unwrap(), b"abc\x00\xff");
}

#[test]
fn repeat_zero_times_emits_nothing() {
    assert_eq!(run("repeat", b"abc").unwrap(), b"");
    assert_eq!(run("repeat -T 0", b"abc").unwrap(), b"");
}

#[test]
fn repeat_k_times_emits_exactly_k_copies() {
    assert_eq!(run("repeat -T 1", b"ab").unwrap(), b"ab");
    assert_eq!(run("repeat -T 3", b"ab").unwrap(), b"ababab");
}

#[test]
fn repeat_negative_is_an_error() {
    assert!(matches!(run("repeat -T -1", b"ab"), Err(CodecError::Transform(_))));
}

#[test]
fn repeat_non_numeral_is_an_error() {
    assert!(matches!(run("repeat -T abc", b"ab"), Err(CodecError::Transform(_))));
}

#[test]
fn take_then_drop_rejoin_to_input() {
    let x = b"hello world";
    for n in [0usize, 1, 5, 11, 100] {
        let arg = format!("take -B {}", n);
        let t = run(&arg, x).unwrap();
        let arg = format!("drop -B {}", n);
        let d = run(&arg, x).unwrap();
        let mut joined = t.clone();
        joined.extend_from_slice(&d);
        assert_eq!(joined, x, "failed at count {}", n);
    }
}

#[test]
fn take_beyond_end_takes_everything() {
    assert_eq!(run("take -B 100", b"abc").unwrap(), b"abc");
    assert_eq!(run("drop -B 100", b"abc").unwrap(), b"");
}

#[test]
fn const_requires_its_value() {
    assert!(matches!(run("const", b"x"), Err(CodecError::Transform(_))));
}

#[test]
fn append_appends() {
    assert_eq!(run("append -A tail", b"head-").unwrap(), b"head-tail");
    assert!(matches!(run("append", b"x"), Err(CodecError::Transform(_))));
}

#[test]
fn newline_appends_newline() {
    assert_eq!(run("newline", b"x").unwrap(), b"x\n");
}

#[test]
fn hex_encodes_and_decodes() {
    assert_eq!(run("hex", b"\x00\xffAb").unwrap(), b"00ff4162");
    assert_eq!(run("hex -c", b"\x00\xffAb").unwrap(), b"00FF4162");
    assert_eq!(run("hex -d", b"00ff4162").unwrap(), b"\x00\xffAb");
    assert_eq!(run("hex -d", b"00FF4162").unwrap(), b"\x00\xffAb");
}

#[test]
fn hex_round_trip_all_byte_values() {
    let data: Vec<u8> = (0u8..=255).collect();
    let enc = run("hex", &data).unwrap();
    assert_eq!(run("hex -d", &enc).unwrap(), data);
}

#[test]
fn hex_decode_odd_length_is_stream_integrity_error() {
    assert!(matches!(run("hex -d", b"abc"), Err(CodecError::StreamIntegrity)));
}

#[test]
fn hex_decode_bad_digit_is_transform_error() {
    assert!(matches!(run("hex -d", b"zz"), Err(CodecError::Transform(_))));
}

#[test]
fn base64_known_values_and_round_trip() {
    assert_eq!(run("base64", b"hello").unwrap(), b"aGVsbG8=");
    assert_eq!(run("base64 -p", b"hello").unwrap(), b"aGVsbG8");
    assert_eq!(run("base64 -d", b"aGVsbG8=").unwrap(), b"hello");
    let data: Vec<u8> = (0u8..=255).collect();
    let enc = run("base64 -u", &data).unwrap();
    assert_eq!(run("base64 -u -d", &enc).unwrap(), data);
    // url-safe alphabet uses - and _ instead of + and /
    assert!(!enc.contains(&b'+') && !enc.contains(&b'/'));
}

#[test]
fn base64_rejects_bad_input() {
    assert!(matches!(run("base64 -d", b"!!!!"), Err(CodecError::Transform(_))));
}

#[test]
fn url_query_escaping() {
    assert_eq!(run("url", b"a b&c").unwrap(), b"a+b%26c");
    // decoding leaves `+` alone, so a space does not round-trip in
    // query mode
    assert_eq!(run("url -d", b"a+b%26c").unwrap(), b"a+b&c");
}

#[test]
fn url_path_escaping_round_trips() {
    let data = b"a b/c%d\xffz";
    let enc = run("url -p", data).unwrap();
    assert_eq!(enc, b"a%20b%2Fc%25d%FFz");
    assert_eq!(run("url -p -d", &enc).unwrap(), data);
}

#[test]
fn url_decode_passes_incomplete_escapes_through_whole_input() {
    // a lone % with two following hex digits decodes; junk stays
    assert_eq!(run("url -d", b"%41%zz").unwrap(), b"A%zz");
}

#[test]
fn url_decode_trailing_partial_escape_is_error() {
    assert!(matches!(run("url -d", b"abc%2"), Err(CodecError::StreamIntegrity)));
}

#[test]
fn md5_known_digests() {
    let d = run("md5 hex", b"").unwrap();
    assert_eq!(d, b"d41d8cd98f00b204e9800998ecf8427e");
    let d = run("md5 hex", b"abc").unwrap();
    assert_eq!(d, b"900150983cd24fb0d6963f7d28e17f72");
}

#[test]
fn sha256_known_digest() {
    let d = run("sha256 hex", b"abc").unwrap();
    assert_eq!(
        d,
        b"ba7816bf8f01cfea414140de5dae2223b00361a396177a9cb410ff61f20015ad".as_slice()
    );
}

#[test]
fn sm3_known_digest() {
    let d = run("sm3 hex", b"abc").unwrap();
    assert_eq!(
        d,
        b"66c7f0f462eeedd9d1f2d46bdc10e4e24167c4875cf2f7a2297da02b8f4ba8e0".as_slice()
    );
}

#[test]
fn hash_cannot_decode() {
    assert!(matches!(run("md5 -d", b"abc"), Err(CodecError::Transform(_))));
}

#[test]
fn zlib_round_trip() {
    let data = b"the quick brown fox jumps over the lazy dog, twice over, \
                 the quick brown fox jumps over the lazy dog";
    let enc = run("zlib", data).unwrap();
    assert!(enc.len() < data.len());
    assert_eq!(run("zlib -d", &enc).unwrap(), data.as_slice());
    let enc9 = run("zlib -L 9", data).unwrap();
    assert_eq!(run("zlib -d", &enc9).unwrap(), data.as_slice());
}

#[test]
fn zlib_bad_level_is_error() {
    assert!(matches!(run("zlib -L abc", b"x"), Err(CodecError::Transform(_))));
}

#[test]
fn zlib_level_beyond_nine_is_rejected() {
    assert!(matches!(run("zlib -L 10", b"x"), Err(CodecError::Transform(_))));
    assert!(matches!(run("zlib -L 11", b"x"), Err(CodecError::Transform(_))));
    assert!(run("zlib -L 0", b"x").is_ok());
}

#[test]
fn zlib_rejects_garbage_when_decoding() {
    assert!(matches!(run("zlib -d", b"not zlib"), Err(CodecError::Transform(_))));
}

#[test]
fn escape_round_trip() {
    let enc = run("escape", b"a\n\tb\\\"c").unwrap();
    assert_eq!(enc, b"a\\n\\tb\\\\\\\"c");
    assert_eq!(run("escape -d", &enc).unwrap(), b"a\n\tb\\\"c");
}

#[test]
fn escape_rejects_invalid_utf8() {
    assert!(matches!(run("escape", b"\xff\xfe"), Err(CodecError::Transform(_))));
}

#[test]
fn aes_cbc_round_trip() {
    // chunk sizes around the block boundary, including aligned input
    for data in [b"".as_slice(), b"0123456789abcdef", b"short", b"a much longer message that spans several aes blocks ......."] {
        let enc = run("aes-cbc -K sixteen-byte-key -IV sixteen-byte-ivs", data).unwrap();
        assert_eq!(enc.len() % 16, 0);
        assert!(enc.len() > data.len());
        let dec = run("aes-cbc -d -K sixteen-byte-key -IV sixteen-byte-ivs", &enc).unwrap();
        assert_eq!(dec, data);
    }
}

#[test]
fn aes_ecb_round_trip_with_longer_keys() {
    let data = b"attack at dawn";
    let enc = run("aes-ecb -K twenty-four-byte-aes-keys", data);
    // 25 bytes is no aes key length
    assert!(matches!(enc, Err(CodecError::Transform(_))));
    let enc = run("aes-ecb -K twentyfour-byte-aes-keys", data).unwrap();
    let dec = run("aes-ecb -d -K twentyfour-byte-aes-keys", &enc).unwrap();
    assert_eq!(dec, data);
    let enc = run("aes-ecb -K a-thirty-two-byte-aes-key-......", data).unwrap();
    let dec = run("aes-ecb -d -K a-thirty-two-byte-aes-key-......", &enc).unwrap();
    assert_eq!(dec, data);
}

#[test]
fn aes_requires_key_and_cbc_requires_iv() {
    assert!(matches!(run("aes-cbc", b"x"), Err(CodecError::Transform(_))));
    assert!(matches!(
        run("aes-cbc -K sixteen-byte-key", b"x"),
        Err(CodecError::Transform(_))
    ));
    assert!(matches!(
        run("aes-cbc -K sixteen-byte-key -IV short", b"x"),
        Err(CodecError::Transform(_))
    ));
}

#[test]
fn sm4_round_trips_both_modes() {
    let data = b"message for sm4";
    let enc = run("sm4-cbc -K sixteen-byte-key -IV sixteen-byte-ivs", data).unwrap();
    let dec = run("sm4-cbc -d -K sixteen-byte-key -IV sixteen-byte-ivs", &enc).unwrap();
    assert_eq!(dec, data);
    let enc = run("sm4-ecb -K sixteen-byte-key", data).unwrap();
    let dec = run("sm4-ecb -d -K sixteen-byte-key", &enc).unwrap();
    assert_eq!(dec, data);
}

#[test]
fn cipher_decode_rejects_misaligned_stream() {
    assert!(matches!(
        run("aes-cbc -d -K sixteen-byte-key -IV sixteen-byte-ivs", b"123"),
        Err(CodecError::Transform(_))
    ));
}

#[test]
fn round_trips_survive_rechunking_pipelines() {
    // the same transform chained through unrelated stages still
    // reproduces the input: the adapters do not depend on how bytes
    // arrive
    let data: Vec<u8> = (0u8..=255).cycle().take(5000).collect();
    let enc = run("hex base64", &data).unwrap();
    let dec = run("base64 -d hex -d", &enc).unwrap();
    assert_eq!(dec, data);
}
