//! The adapters driven directly — chunk independence, carry handling,
//! the one-shot final step — and the tokenizer and parser on their own.

use codecpipe::adapters::{
    BytesToBytesDecoder, BytesToBytesEncoder, DeathRattle, MultiWriter,
};
use codecpipe::bytes::{parse_i64, parse_u64};
use codecpipe::executor::execute;
use codecpipe::filestore::FileStore;
use codecpipe::hexcodec::{hex_encode, HexDecodeMapping, HexEncodeMapping};
use codecpipe::urlcodec::{url_encode, UrlEncodeMapping};
use codecpipe::parser::{parse_command, Tokenizer};
use codecpipe::registry::load_builtins;
use codecpipe::CodecError;

fn encode_in_chunks(data: &[u8], chunk: usize) -> Vec<u8> {
    let mut enc = BytesToBytesEncoder::new(HexEncodeMapping { upper: false });
    let mut i = 0;
    while i < data.len() {
        let end = (i + chunk).min(data.len());
        enc.write(&data[i..end]).unwrap();
        i = end;
    }
    enc.finalize().finish().unwrap()
}

#[test]
fn encoder_output_is_independent_of_chunk_size() {
    let data: Vec<u8> = (0u8..=255).cycle().take(20000).collect();
    let whole = hex_encode(&data, false);
    assert_eq!(encode_in_chunks(&data, 1), whole);
    assert_eq!(encode_in_chunks(&data, 7), whole);
    assert_eq!(encode_in_chunks(&data, 10000), whole);
    assert_eq!(encode_in_chunks(&data, 64 * 1024), whole);
}

#[test]
fn url_encoder_is_independent_of_chunk_size() {
    let data: Vec<u8> = (0u8..=255).cycle().take(9999).collect();
    let whole = url_encode(&data, true);
    for chunk in [1usize, 7, 10000] {
        let mut enc = BytesToBytesEncoder::new(UrlEncodeMapping { path: true });
        let mut i = 0;
        while i < data.len() {
            let end = (i + chunk).min(data.len());
            enc.write(&data[i..end]).unwrap();
            i = end;
        }
        assert_eq!(enc.finalize().finish().unwrap(), whole, "chunk size {}", chunk);
    }
}

#[test]
fn encoder_round_trip_through_decoder() {
    let data: Vec<u8> = (0u8..=255).collect();
    let enc = encode_in_chunks(&data, 7);
    let mut dec = BytesToBytesDecoder::new(enc, HexDecodeMapping);
    let out = dec.drain().unwrap();
    assert_eq!(out, data);
    // nothing pending: the final step emits nothing
    let last = dec.finalize().death_rattle(()).unwrap();
    assert_eq!(last, b"");
}

#[test]
fn decoder_keeps_an_odd_tail_and_rejects_it_at_end() {
    let mut dec = BytesToBytesDecoder::new(b"616".to_vec(), HexDecodeMapping);
    assert!(matches!(dec.drain(), Err(CodecError::StreamIntegrity)));
}

#[test]
fn decoder_with_need_finalize_leaves_the_tail_pending() {
    let mut dec = BytesToBytesDecoder::new(b"616".to_vec(), HexDecodeMapping);
    dec.set_need_finalize(true);
    let out = dec.drain().unwrap();
    assert_eq!(out, b"a");
    // the hex mapping has no final step: finishing the pending tail fails
    assert!(matches!(
        dec.finalize().death_rattle(()),
        Err(CodecError::StreamIntegrity)
    ));
}

#[test]
fn multi_writer_fans_out() {
    let sinks = vec![b"one:".to_vec(), b"two:".to_vec()];
    let mut w = MultiWriter::new(sinks);
    w.write(b"abc");
    w.write(b"d");
    let sinks = w.into_sinks();
    assert_eq!(sinks[0], b"one:abcd");
    assert_eq!(sinks[1], b"two:abcd");
}

#[test]
fn numeral_parsing() {
    assert_eq!(parse_u64(b"0"), Some(0));
    assert_eq!(parse_u64(b"+42"), Some(42));
    assert_eq!(parse_u64(b"18446744073709551615"), Some(u64::MAX));
    assert_eq!(parse_u64(b"18446744073709551616"), None);
    assert_eq!(parse_u64(b""), None);
    assert_eq!(parse_u64(b"-1"), None);
    assert_eq!(parse_u64(b"12x"), None);
    assert_eq!(parse_i64(b"-42"), Some(-42));
    assert_eq!(parse_i64(b"9223372036854775807"), Some(i64::MAX));
    assert_eq!(parse_i64(b"-9223372036854775808"), Some(i64::MIN));
    assert_eq!(parse_i64(b"9223372036854775808"), None);
    assert_eq!(parse_i64(b"+7"), Some(7));
    assert_eq!(parse_i64(b"-"), None);
}

fn run_tokens(words: &[&str], input: &[u8]) -> Result<Vec<u8>, CodecError> {
    let toks: Vec<Vec<u8>> = words.iter().map(|w| w.as_bytes().to_vec()).collect();
    let mut t = Tokenizer::new(toks);
    let cmd = parse_command(&mut t)?;
    let info = load_builtins();
    let mut store = FileStore::new();
    execute(cmd, &input.to_vec(), &info, &mut store)
}

#[test]
fn bracket_splitting_needs_no_spaces() {
    // `[abc` acts as `[` then `abc`; `x]` as `x` then `]`
    let out = run_tokens(&["const", "-C", "[abc", "const", "-C", "x]"], b"zzz").unwrap();
    assert_eq!(out, b"x");
}

#[test]
fn empty_option_value_is_allowed_as_a_token() {
    let out = run_tokens(&["const", "-C", "", "append", "-A", "t"], b"zzz").unwrap();
    assert_eq!(out, b"t");
}

#[test]
fn unterminated_bracket_is_a_parse_error() {
    let toks: Vec<Vec<u8>> =
        ["tee", "-O", "[abc", "const"].iter().map(|w| w.as_bytes().to_vec()).collect();
    let mut t = Tokenizer::new(toks);
    assert!(matches!(parse_command(&mut t), Err(CodecError::Parse(_))));
}

#[test]
fn bare_dash_is_an_empty_option_name_error() {
    let toks: Vec<Vec<u8>> = ["id", "-"].iter().map(|w| w.as_bytes().to_vec()).collect();
    let mut t = Tokenizer::new(toks);
    let r = parse_command(&mut t);
    match r {
        Err(CodecError::Parse(tok)) => assert_eq!(tok, b"-"),
        _ => panic!("expected a parse error naming the dash"),
    }
}

#[test]
fn value_option_at_end_of_tokens_is_a_parse_error() {
    let toks: Vec<Vec<u8>> = ["const", "-C"].iter().map(|w| w.as_bytes().to_vec()).collect();
    let mut t = Tokenizer::new(toks);
    assert!(matches!(parse_command(&mut t), Err(CodecError::Parse(_))));
}

#[test]
fn deeply_nested_sub_pipelines_parse_and_run() {
    // the inner pipeline builds `x`, the middle one passes it on
    let out = run_tokens(
        &["const", "-C", "[a", "const", "-C", "[b", "const", "-C", "deep]", "id]", "id"],
        b"zzz",
    )
    .unwrap();
    assert_eq!(out, b"deep");
}

#[test]
fn option_kind_follows_unicode_case_of_the_first_character() {
    // an uppercase non-ASCII name takes a value: it consumes the next
    // token, so no -c switch closes the output
    let out = run_tokens(&["tee", "-\u{c9}", "-c"], b"abc").unwrap();
    assert_eq!(out, b"abc");
    // the lowercase form is a bare switch and needs no value
    let out = run_tokens(&["tee", "-\u{e9}"], b"abc").unwrap();
    assert_eq!(out, b"abc");
    // as a value option at the end of the tokens it still wants one
    let toks: Vec<Vec<u8>> = ["tee", "-\u{c9}"].iter().map(|w| w.as_bytes().to_vec()).collect();
    let mut t = Tokenizer::new(toks);
    assert!(matches!(parse_command(&mut t), Err(CodecError::Parse(_))));
}

#[test]
fn switches_and_values_mix_on_one_stage() {
    // -c is a switch (lowercase), -O takes a value (uppercase)
    let out = run_tokens(&["tee", "-c", "-O", "dst"], b"abc").unwrap();
    assert_eq!(out, b"");
}
