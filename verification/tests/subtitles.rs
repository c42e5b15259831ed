use narrate_this::srt::{format_srt_entry, format_srt_time, generate_srt};
use narrate_this::types::CaptionSegment;

fn word(text: &str, start_ms: u64, duration_ms: u64) -> CaptionSegment {
    CaptionSegment { text: text.to_string(), start_ms, duration_ms }
}

#[test]
fn srt_time_formats_hours_minutes_seconds_millis() {
    assert_eq!(format_srt_time(0), "00:00:00,000");
    assert_eq!(format_srt_time(3_723_456), "01:02:03,456");
    assert_eq!(format_srt_time(360_000_000), "100:00:00,000");
}

#[test]
fn srt_entry_layout() {
    assert_eq!(
        format_srt_entry(1, 0, 1500, "Hi there"),
        "1\n00:00:00,000 --> 00:00:01,500\nHi there\n\n"
    );
}

#[test]
fn srt_groups_six_words_per_line() {
    let caps: Vec<CaptionSegment> =
        (0..7).map(|i| word(&format!("w{i}"), i * 100, 100)).collect();
    assert_eq!(
        generate_srt(&caps),
        "1\n00:00:00,000 --> 00:00:00,600\nw0 w1 w2 w3 w4 w5\n\n\
         2\n00:00:00,600 --> 00:00:00,700\nw6\n\n"
    );
}

#[test]
fn srt_of_no_captions_is_empty() {
    assert_eq!(generate_srt(&[]), "");
}
