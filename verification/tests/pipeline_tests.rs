//! End-to-end runs: parse a command line, execute it over in-memory
//! input and an in-memory file store, and check the bytes.

use codecpipe::executor::execute;
use codecpipe::filestore::FileStore;
use codecpipe::parser::{parse_command, Tokenizer};
use codecpipe::registry::load_builtins;
use codecpipe::CodecError;

fn toks(cmdline: &str) -> Vec<Vec<u8>> {
    cmdline.split_whitespace().map(|w| w.as_bytes().to_vec()).collect()
}

fn run_with_store(
    cmdline: &str,
    input: &[u8],
    store: &mut FileStore,
) -> Result<Vec<u8>, CodecError> {
    let mut t = Tokenizer::new(toks(cmdline));
    let cmd = parse_command(&mut t).expect("parse");
    let info = load_builtins();
    execute(cmd, &input.to_vec(), &info, store)
}

fn run(cmdline: &str, input: &[u8]) -> Result<Vec<u8>, CodecError> {
    let mut store = FileStore::new();
    run_with_store(cmdline, input, &mut store)
}

#[test]
fn dsl_literal_const_then_id() {
    // any input: the constant replaces it
    assert_eq!(run("const -C hello id", b"whatever").unwrap(), b"hello");
    assert_eq!(run("const -C hello id", b"").unwrap(), b"hello");
}

#[test]
fn dsl_nested_sub_pipeline_option_value() {
    let mut store = FileStore::new();
    let out = run_with_store("tee -O [abc const -C x]", b"INPUT", &mut store).unwrap();
    // the outer stage passes its real input through...
    assert_eq!(out, b"INPUT");
    // ...and its -O value is the sub-pipeline's output on seed `abc`,
    // independent of the outer input: the bytes `x`.
    assert_eq!(store.get(b"x").unwrap(), b"INPUT");
    assert!(store.get(b"abc").is_none());
}

#[test]
fn large_stream_three_stage_chain() {
    // several megabytes through encode | decode | id come back intact
    let mut data = Vec::with_capacity(3 << 20);
    let mut x: u64 = 0x2545F4914F6CDD1D;
    while data.len() < (3 << 20) {
        x = x.wrapping_mul(6364136223846793005).wrapping_add(1442695040888963407);
        data.push((x >> 33) as u8);
    }
    let out = run("base64 base64 -d id", &data).unwrap();
    assert_eq!(out, data);
}

#[test]
fn unknown_stage_name_is_lookup_error() {
    let r = run("nosuchcodec", b"abc");
    match r {
        Err(CodecError::Lookup(name)) => assert_eq!(name, b"nosuchcodec"),
        _ => panic!("expected a lookup error"),
    }
}

#[test]
fn unknown_stage_after_others_still_fails_whole_run() {
    let r = run("id nosuchcodec", b"abc");
    assert!(matches!(r, Err(CodecError::Lookup(_))));
}

#[test]
fn top_option_input_literal_prepends_const() {
    assert_eq!(run("-I hi id", b"ignored").unwrap(), b"hi");
}

#[test]
fn top_option_newline_appends() {
    assert_eq!(run("-n id", b"abc").unwrap(), b"abc\n");
}

#[test]
fn top_option_decode_sets_ambient_mode() {
    assert_eq!(run("-d base64", b"aGVsbG8=").unwrap(), b"hello");
}

#[test]
fn per_stage_override_beats_ambient_mode() {
    // ambient decode, but the stage's own -e wins
    assert_eq!(run("-d base64 -e", b"hi").unwrap(), b"aGk=");
}

#[test]
fn top_option_output_file_appends_redirect() {
    let mut store = FileStore::new();
    let out = run_with_store("-O dst id", b"abc", &mut store).unwrap();
    assert_eq!(out, b"");
    assert_eq!(store.get(b"dst").unwrap(), b"abc");
}

#[test]
fn top_option_input_file_prepends_cat() {
    let mut store = FileStore::new();
    store.put(b"src", b"DATA");
    let out = run_with_store("-F src id", b"ignored", &mut store).unwrap();
    assert_eq!(out, b"DATA");
}

#[test]
fn top_option_help_replaces_pipeline_with_usage() {
    let out = run("-h const -C x", b"zzz").unwrap();
    let text = String::from_utf8(out).unwrap();
    assert!(text.starts_with("Available codecs:\n"));
    assert!(text.contains("aes-cbc\n"));
    assert!(text.contains("zlib\n"));
}

#[test]
fn unknown_top_option_is_rejected() {
    assert!(matches!(run("-z id", b""), Err(CodecError::Parse(_))));
}

#[test]
fn cat_reads_store_and_appends() {
    let mut store = FileStore::new();
    store.put(b"f", b"TAIL");
    assert_eq!(run_with_store("cat -F f", b"HEAD", &mut store).unwrap(), b"HEADTAIL");
    // -c closes the input side
    assert_eq!(run_with_store("cat -c -F f", b"HEAD", &mut store).unwrap(), b"TAIL");
}

#[test]
fn cat_missing_file_fails() {
    assert!(matches!(run("cat -F nothere", b"x"), Err(CodecError::Transform(_))));
}

#[test]
fn tee_copies_and_passes() {
    let mut store = FileStore::new();
    let out = run_with_store("tee -O copy", b"abc", &mut store).unwrap();
    assert_eq!(out, b"abc");
    assert_eq!(store.get(b"copy").unwrap(), b"abc");
}

#[test]
fn sink_swallows() {
    assert_eq!(run("sink", b"abc").unwrap(), b"");
}

#[test]
fn redirect_requires_output_and_diverts() {
    let mut store = FileStore::new();
    let out = run_with_store("redirect -O dst", b"abc", &mut store).unwrap();
    assert_eq!(out, b"");
    assert_eq!(store.get(b"dst").unwrap(), b"abc");
    assert!(matches!(run("redirect", b"abc"), Err(CodecError::Transform(_))));
}

#[test]
fn usage_for_one_codec() {
    let out = run("usage -C hex", b"").unwrap();
    assert_eq!(out, b"hex\n");
    let out = run("usage -C append", b"").unwrap();
    let text = String::from_utf8(out).unwrap();
    assert!(text.starts_with("append\n"));
    assert!(text.contains("-A string"));
}

#[test]
fn usage_for_missing_codec_is_lookup_error() {
    assert!(matches!(run("usage -C nothere", b""), Err(CodecError::Lookup(_))));
}

#[test]
fn sub_pipeline_runs_in_encode_mode_even_under_ambient_decode() {
    // the seed runs through base64 in encoding mode although the outer
    // run decodes
    let mut store = FileStore::new();
    let out = run_with_store("-d tee -O [hi base64] base64", b"aGVsbG8=", &mut store);
    // outer: tee passes the encoded input, then base64 -d decodes it
    assert_eq!(out.unwrap(), b"hello");
    assert_eq!(store.get(b"aGk=").unwrap(), b"aGVsbG8=");
}
