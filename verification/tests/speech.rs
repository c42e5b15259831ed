use narrate_this::speech::{
    elevenlabs_tts_url, group_words, mime_for_format, plan_alignment, speech_file_name,
    speech_url, stream_audio, stream_lines, transcriptions_url, CaptionAlignment,
};

fn strings(v: &[&str]) -> Vec<String> {
    v.iter().map(|s| s.to_string()).collect()
}

#[test]
fn elevenlabs_url_names_the_voice() {
    assert_eq!(
        elevenlabs_tts_url("Gr7mLjPA3HhuWxZidxPW"),
        "https://api.elevenlabs.io/v1/text-to-speech/Gr7mLjPA3HhuWxZidxPW/stream/with-timestamps"
    );
}

#[test]
fn stream_lines_are_trimmed_and_blank_lines_dropped() {
    assert_eq!(stream_lines("{\"a\":1}\n\n  {\"b\":2} \r\n"), vec!["{\"a\":1}", "{\"b\":2}"]);
    assert!(stream_lines("\n \n").is_empty());
}

#[test]
fn stream_audio_joins_decoded_chunks() {
    let chunks = vec![
        Some("aGk=".to_string()),
        None,
        Some(String::new()),
        Some("!!".to_string()),
        Some("IQ==".to_string()),
    ];
    assert_eq!(stream_audio(&chunks), b"hi!".to_vec());
}

#[test]
fn alignment_characters_group_into_words() {
    let chars = strings(&["H", "i", " ", "y", "o", " ", "x"]);
    let spans = group_words(&chars, 7, 6);
    let got: Vec<(String, usize, usize)> = spans.into_iter().map(|s| (s.text, s.first, s.last)).collect();
    assert_eq!(got, vec![("Hi".to_string(), 0, 1), ("yo".to_string(), 3, 4)]);
    let chars = strings(&[" ", "a", "b", "\n", " ", "c"]);
    let spans = group_words(&chars, 6, 6);
    let got: Vec<(String, usize, usize)> = spans.into_iter().map(|s| (s.text, s.first, s.last)).collect();
    assert_eq!(got, vec![("ab".to_string(), 1, 2), ("c".to_string(), 5, 5)]);
    assert!(group_words(&chars, 0, 6).is_empty());
}

#[test]
fn alignment_plan_follows_word_counts() {
    assert!(matches!(plan_alignment("a b", 0), CaptionAlignment::NoCaptions));
    assert!(matches!(plan_alignment("  ", 3), CaptionAlignment::WhisperWords));
    match plan_alignment("Hello  world", 2) {
        CaptionAlignment::OneToOne(w) => assert_eq!(w, vec!["Hello", "world"]),
        _ => panic!("expected one-to-one"),
    }
    match plan_alignment("a b c", 2) {
        CaptionAlignment::Interpolated(w) => assert_eq!(w, vec!["a", "b", "c"]),
        _ => panic!("expected interpolation"),
    }
}

#[test]
fn mime_types_of_audio_formats() {
    assert_eq!(mime_for_format("mp3"), "audio/mpeg");
    assert_eq!(mime_for_format("opus"), "audio/opus");
    assert_eq!(mime_for_format("aac"), "audio/aac");
    assert_eq!(mime_for_format("flac"), "audio/flac");
    assert_eq!(mime_for_format("wav"), "audio/wav");
    assert_eq!(mime_for_format("pcm"), "audio/L16");
    assert_eq!(mime_for_format("MP3"), "application/octet-stream");
}

#[test]
fn speech_endpoints() {
    assert_eq!(speech_url("http://localhost:8880/"), "http://localhost:8880/v1/audio/speech");
    assert_eq!(transcriptions_url("https://api.openai.com"), "https://api.openai.com/v1/audio/transcriptions");
    assert_eq!(speech_file_name("mp3"), "speech.mp3");
}
