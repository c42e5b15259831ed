use narrate_this::chunks::split_into_timed_chunks;
use narrate_this::codec::{b64_decode, b64_decode_or_empty, b64_encode, content_hash};
use narrate_this::sentences::{split_sentences, split_words};
use narrate_this::types::CaptionSegment;

fn cap(text: &str, start_ms: u64, duration_ms: u64) -> CaptionSegment {
    CaptionSegment { text: text.to_string(), start_ms, duration_ms }
}

#[test]
fn test_content_hash() {
    let hash = content_hash("hello world".as_bytes());
    assert_eq!(hash.len(), 64);
    assert_eq!(hash, content_hash("hello world".as_bytes()));
    assert_ne!(hash, content_hash("hello world!".as_bytes()));
}

#[test]
fn test_b64_roundtrip() {
    let data = b"hello world";
    let encoded = b64_encode(data);
    let decoded = b64_decode(&encoded).unwrap();
    assert_eq!(decoded, data);
}

#[test]
fn test_split_sentences_basic() {
    let sentences = split_sentences("Hello world. How are you? I'm fine!");
    assert_eq!(sentences, vec!["Hello world.", "How are you?", "I'm fine!"]);
}

#[test]
fn test_split_sentences_no_punctuation() {
    let sentences = split_sentences("No punctuation here");
    assert_eq!(sentences, vec!["No punctuation here"]);
}

#[test]
fn test_split_sentences_abbreviations() {
    let sentences = split_sentences("Visit the U.S.A. today. It's great.");
    assert_eq!(sentences.len(), 3);
}

#[test]
fn test_split_sentences_empty() {
    let sentences = split_sentences("");
    assert!(sentences.is_empty());
}

#[test]
fn test_split_into_timed_chunks_empty() {
    let chunks = split_into_timed_chunks("", &[]);
    assert!(chunks.is_empty());
}

#[test]
fn test_split_into_timed_chunks_single_sentence() {
    let captions = vec![cap("Hello", 0, 500), cap("world.", 500, 500)];
    let chunks = split_into_timed_chunks("Hello world.", &captions);
    assert_eq!(chunks.len(), 1);
    assert_eq!(chunks[0].text, "Hello world.");
}

#[test]
fn content_hash_is_sha256_hex() {
    assert_eq!(
        content_hash(b"hello world"),
        "b94d27b9934d3e08a52e52d7da7dabfac484efe37a5380ee9088f7ace2efcde9"
    );
    assert_eq!(
        content_hash(b""),
        "e3b0c44298fc1c149afbf4c8996fb92427ae41e4649b934ca495991b7852b855"
    );
}

#[test]
fn b64_encodes_standard_alphabet_with_padding() {
    assert_eq!(b64_encode(b"hello world"), "aGVsbG8gd29ybGQ=");
    assert_eq!(b64_encode(b""), "");
    assert_eq!(b64_encode(&[0xff, 0xfe]), "//4=");
}

#[test]
fn b64_decode_rejects_what_is_no_encoding() {
    assert_eq!(b64_decode("not base64!"), None);
    assert_eq!(b64_decode("aGVsbG8gd29ybGQ"), None);
    assert_eq!(b64_decode("//4="), Some(vec![0xff, 0xfe]));
}

#[test]
fn b64_decode_or_empty_gives_nothing_for_bad_input() {
    assert_eq!(b64_decode_or_empty("%%%"), Vec::<u8>::new());
    assert_eq!(b64_decode_or_empty("aGk="), b"hi".to_vec());
}

#[test]
fn sentences_keep_punctuation_runs_together() {
    let sentences = split_sentences("  Wait... what?!  Yes.\nNo");
    assert_eq!(sentences, vec!["Wait...", "what?!", "Yes.", "No"]);
}

#[test]
fn sentences_split_only_before_whitespace() {
    let sentences = split_sentences("Version 1.5 is out.Really");
    assert_eq!(sentences, vec!["Version 1.5 is out.Really"]);
}

#[test]
fn words_split_on_any_whitespace() {
    assert_eq!(split_words("  a  b\tc\n"), vec!["a", "b", "c"]);
    assert!(split_words(" \t ").is_empty());
}

#[test]
fn timed_chunks_group_sentences_to_five_seconds() {
    let captions = vec![
        cap("A", 0, 2000),
        cap("b.", 2000, 2000),
        cap("C", 4000, 2000),
        cap("d.", 6000, 2000),
        cap("E", 8000, 2000),
        cap("f.", 10000, 2000),
    ];
    let chunks = split_into_timed_chunks("A b. C d. E f.", &captions);
    assert_eq!(chunks.len(), 2);
    assert_eq!(chunks[0].text, "A b. C d.");
    assert_eq!((chunks[0].start_ms, chunks[0].end_ms), (0, 8000));
    assert_eq!(chunks[1].text, "E f.");
    assert_eq!((chunks[1].start_ms, chunks[1].end_ms), (8000, 12000));
}

#[test]
fn timed_chunk_spans_its_captions() {
    let captions = vec![cap("Hello", 0, 500), cap("world.", 500, 500)];
    let chunks = split_into_timed_chunks("Hello world.", &captions);
    assert_eq!((chunks[0].start_ms, chunks[0].end_ms), (0, 1000));
}

#[test]
fn timed_chunks_without_captions_start_at_zero() {
    let chunks = split_into_timed_chunks("One. Two.", &[]);
    assert_eq!(chunks.len(), 1);
    assert_eq!(chunks[0].text, "One. Two.");
    assert_eq!((chunks[0].start_ms, chunks[0].end_ms), (0, 0));
}

#[test]
fn each_sentence_splits_into_itself() {
    let text = "Hi there. Is it 3.5? Yes!Really. done";
    let sentences = split_sentences(text);
    assert_eq!(sentences, vec!["Hi there.", "Is it 3.5?", "Yes!Really.", "done"]);
    for s in &sentences {
        assert_eq!(split_sentences(s), vec![s.clone()]);
    }
    for s in &sentences[..sentences.len() - 1] {
        assert!(s.ends_with(['.', '!', '?']));
    }
}
