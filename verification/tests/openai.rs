use narrate_this::error::SdkError;
use narrate_this::openai::{
    bound_plan, build_asset_prompt, chat_completions_url, extract_json_array,
    first_choice_content, parse_asset_plan, parse_keywords, rewrite_message, rewrite_result,
    trim_trailing_slashes, truncate_for_prompt, OpenAiConfig,
};
use narrate_this::types::{MediaAsset, MediaSource, TimedChunk};

#[test]
fn keywords_are_split_trimmed_and_nonempty() {
    assert_eq!(parse_keywords("  rust, async ,, tokio  ,"), vec!["rust", "async", "tokio"]);
    assert!(parse_keywords(" , ").is_empty());
}

#[test]
fn chat_url_drops_trailing_slashes() {
    assert_eq!(trim_trailing_slashes("http://h//"), "http://h");
    assert_eq!(chat_completions_url("https://api.openai.com//"), "https://api.openai.com/v1/chat/completions");
}

#[test]
fn openai_config_defaults() {
    let c = OpenAiConfig::default();
    assert_eq!(c.model, "gpt-4o-mini");
    assert_eq!(c.base_url, "https://api.openai.com");
}

#[test]
fn rewrite_message_and_result() {
    assert_eq!(
        rewrite_message("casual", "Hello"),
        "Style instructions: casual\n\n---\n\nText to rewrite:\nHello"
    );
    assert_eq!(rewrite_result("  hi \n"), "hi");
}

#[test]
fn first_choice_is_taken() {
    assert_eq!(first_choice_content(&[Some("a".to_string()), None]), Some("a".to_string()));
    assert_eq!(first_choice_content(&[None, Some("b".to_string())]), None);
    assert_eq!(first_choice_content(&[]), None);
}

#[test]
fn json_array_is_found() {
    assert_eq!(extract_json_array("  [1, 2] ").as_deref(), Some("[1, 2]"));
    assert_eq!(extract_json_array("Here: [0, null] done").as_deref(), Some("[0, null]"));
    assert_eq!(extract_json_array("no array"), None);
    assert_eq!(extract_json_array("] ["), None);
}

#[test]
fn asset_plan_is_bounded_to_chunks_and_assets() {
    let plan = parse_asset_plan("Plan: [0, null, 5, 1]", 3, 2).unwrap();
    assert_eq!(plan, vec![Some(0), None, None]);
    let plan = parse_asset_plan("[1]", 3, 2).unwrap();
    assert_eq!(plan, vec![Some(1), None, None]);
    assert_eq!(bound_plan(&[Some(1), Some(7)], 3, 2), vec![Some(1), None, None]);
}

#[test]
fn asset_plan_errors() {
    match parse_asset_plan("nothing", 1, 1) {
        Err(SdkError::MediaPlanner(m)) => assert_eq!(m, "no JSON array in response: nothing"),
        other => panic!("unexpected {other:?}"),
    }
    match parse_asset_plan("[a]", 1, 1) {
        Err(SdkError::MediaPlanner(m)) => {
            assert!(m.starts_with("JSON parse failed: "));
            assert!(m.ends_with(" — raw: [a]"));
        },
        other => panic!("unexpected {other:?}"),
    }
}

#[test]
fn prompt_text_is_truncated_by_characters() {
    assert_eq!(truncate_for_prompt("héllo", 3), "hél…");
    assert_eq!(truncate_for_prompt("hi", 5), "hi");
}

#[test]
fn asset_prompt_lists_chunks_and_assets() {
    let chunks = vec![TimedChunk { text: "A rocket lifts off.".to_string(), start_ms: 0, end_ms: 5000 }];
    let labels = vec![("0.0".to_string(), "5.0".to_string())];
    let assets = vec![MediaAsset::image(MediaSource::FilePath("./hero.jpg".to_string()), "A rocket".to_string())];
    let p = build_asset_prompt(&chunks, &labels, &assets, false, None);
    assert!(p.starts_with("You are a media planner for a narrated video."));
    assert!(p.contains("IMPORTANT: Each asset may only be used ONCE.\n\n"));
    assert!(p.contains("Chunks:\n  0: [0.0s–5.0s] \"A rocket lifts off.\"\n"));
    assert!(p.contains("\nAvailable assets:\n  0: [Image] \"A rocket\"\n"));
    assert!(p.ends_with("Return ONLY a JSON array of length 1 where each element is either an asset index (0-based integer) or null. Example: [0, 1, null, 0, 2]\n"));
    let p = build_asset_prompt(&chunks, &labels, &assets, true, Some(2));
    assert!(p.contains("IMPORTANT: Each asset may be used at most 2 times.\n\n"));
    let p = build_asset_prompt(&chunks, &labels, &assets, true, None);
    assert!(!p.contains("IMPORTANT"));
}
