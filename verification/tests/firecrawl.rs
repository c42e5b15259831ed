use narrate_this::codec::{b64_decode, b64_encode};
use narrate_this::error::SdkError;
use narrate_this::firecrawl::{
    classify_scrape, context_data_url, fallback_narration, scraped_narration, extract_text_from_data, extract_text_from_json,
    html_escape, narration_prompt, scrape_endpoint, scrape_prompt, search_endpoint,
    search_narration_prompt, search_outcome, ExtractedJson, FirecrawlConfig, ScrapeOutcome,
    SearchHit, SearchOutcome, PAYWALL_SUFFIX,
};
use narrate_this::types::NarrationStyle;

fn obj(entries: &[(&str, Option<&str>)]) -> ExtractedJson {
    ExtractedJson::Object(
        entries.iter().map(|(k, v)| (k.to_string(), v.map(|s| s.to_string()))).collect(),
    )
}

#[test]
fn html_is_escaped() {
    assert_eq!(html_escape("<a href=\"x\">&</a>"), "&lt;a href=&quot;x&quot;&gt;&amp;&lt;/a&gt;");
    assert_eq!(html_escape("it's"), "it's");
}

#[test]
fn search_json_text_prefers_known_keys() {
    assert_eq!(extract_text_from_json(&obj(&[("narration", Some("  Hello  "))])).as_deref(), Some("Hello"));
    assert_eq!(
        extract_text_from_json(&obj(&[("script", Some("S")), ("text", Some("T"))])).as_deref(),
        Some("T")
    );
    assert_eq!(extract_text_from_json(&obj(&[("foo", Some("only"))])).as_deref(), Some("only"));
    assert_eq!(extract_text_from_json(&obj(&[("a", Some("x")), ("b", Some("y"))])), None);
    assert_eq!(extract_text_from_json(&ExtractedJson::Text("  ".to_string())), None);
    assert_eq!(extract_text_from_json(&ExtractedJson::Other), None);
}

#[test]
fn scrape_text_falls_back_to_long_markdown() {
    let long_md = Some("x".repeat(51));
    let short_md = Some("x".repeat(50));
    assert_eq!(extract_text_from_data(&None, &long_md), long_md);
    assert_eq!(extract_text_from_data(&None, &short_md), None);
    let ext = Some(ExtractedJson::Text(" Story ".to_string()));
    assert_eq!(extract_text_from_data(&ext, &long_md).as_deref(), Some("Story"));
}

#[test]
fn scrapes_are_classified() {
    assert!(matches!(classify_scrape(false, None), ScrapeOutcome::Failed));
    assert!(matches!(classify_scrape(true, None), ScrapeOutcome::Failed));
    let paywall = Some((Some(ExtractedJson::Text("PAYWALL_DETECTED".to_string())), None));
    assert!(matches!(classify_scrape(true, paywall), ScrapeOutcome::Paywall));
    let story = Some((Some(obj(&[("narration", Some("News."))])), None));
    assert!(matches!(classify_scrape(true, story), ScrapeOutcome::Narration(ref n) if n == "News."));
    let empty = Some((Some(ExtractedJson::Text(" ".to_string())), Some("short".to_string())));
    assert!(matches!(classify_scrape(true, empty), ScrapeOutcome::Failed));
}

#[test]
fn search_results_give_narration_or_context() {
    assert!(matches!(search_outcome(false, None), SearchOutcome::Nothing));
    assert!(matches!(search_outcome(true, Some(vec![])), SearchOutcome::Nothing));
    let hits = vec![
        SearchHit { description: Some(" first ".to_string()), extract_json: None },
        SearchHit { description: None, extract_json: Some(obj(&[("narration", Some("Told."))])) },
    ];
    assert!(matches!(search_outcome(true, Some(hits)), SearchOutcome::Narration(ref n) if n == "Told."));
    let hits = vec![
        SearchHit { description: Some(" first ".to_string()), extract_json: None },
        SearchHit { description: Some("  ".to_string()), extract_json: None },
        SearchHit { description: Some("second".to_string()), extract_json: Some(ExtractedJson::Other) },
    ];
    assert!(matches!(search_outcome(true, Some(hits)), SearchOutcome::Context(ref c) if c == "first\nsecond\n"));
    let hits = vec![SearchHit { description: None, extract_json: None }];
    assert!(matches!(search_outcome(true, Some(hits)), SearchOutcome::Nothing));
}

#[test]
fn context_page_is_a_base64_data_url() {
    let url = context_data_url("T&C", "a<b");
    let html = "<html><body><h1>T&amp;C</h1><article>a&lt;b</article></body></html>";
    assert_eq!(url, format!("data:text/html;base64,{}", b64_encode(html.as_bytes())));
    let payload = url.strip_prefix("data:text/html;base64,").unwrap();
    assert_eq!(b64_decode(payload).unwrap(), html.as_bytes());
}

#[test]
fn firecrawl_endpoints_and_prompts() {
    let config = FirecrawlConfig::default();
    assert_eq!(scrape_endpoint(&config), "http://localhost:3002/v1/scrape");
    assert_eq!(search_endpoint(&config), "http://localhost:3002/v1/search");
    let p = narration_prompt(&config);
    assert!(p.starts_with("You are a news broadcast scriptwriter. Given this article"));
    assert!(p.contains("- Conversational and engaging tone, as if a news anchor is reading it\n"));
    assert_eq!(scrape_prompt(&config), format!("{p}{PAYWALL_SUFFIX}"));
    let mut custom = FirecrawlConfig::default();
    custom.style = NarrationStyle::default().role("podcast host".to_string());
    assert!(search_narration_prompt(&custom).starts_with("You are a podcast host. You will receive search results"));
    custom.search_narration_prompt = Some("Just summarize.".to_string());
    assert_eq!(search_narration_prompt(&custom), "Just summarize.");
}

#[test]
fn failed_scrapes_fall_back_to_search() {
    assert_eq!(scraped_narration(ScrapeOutcome::Narration("Story.".to_string())).as_deref(), Some("Story."));
    assert_eq!(scraped_narration(ScrapeOutcome::Paywall), None);
    assert_eq!(scraped_narration(ScrapeOutcome::Failed), None);
    assert_eq!(fallback_narration(Ok(Some("Found.".to_string()))).as_deref(), Some("Found."));
    assert_eq!(fallback_narration(Ok(None)), None);
    assert_eq!(fallback_narration(Err(SdkError::WebScraper("down".to_string()))), None);
}
