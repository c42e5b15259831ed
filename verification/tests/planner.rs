use narrate_this::planner::{
    apply_stock_results, assign_assets, first_planned, keywords_query, reuse_limit,
    trivial_asset_plan, wants_stock_fallback, AssetPlanSettings,
};
use narrate_this::types::{
    MediaAsset, MediaFallback, MediaKind, MediaSearchResult, MediaSource, PlannedMedia,
};

fn url_of(p: &Option<PlannedMedia>) -> Option<String> {
    match p {
        Some(PlannedMedia { source: MediaSource::Url(u), .. }) => Some(u.clone()),
        Some(PlannedMedia { source: MediaSource::FilePath(u), .. }) => Some(u.clone()),
        _ => None,
    }
}

#[test]
fn settings_defaults_and_builders() {
    let s = AssetPlanSettings::new();
    assert!(s.allow_reuse);
    assert_eq!(s.max_reuse, None);
    assert!(s.assets.is_empty());
    assert_eq!(s.fallback, MediaFallback::StockSearch);
    let s = s.allow_reuse(false).max_reuse(Some(2)).fallback(MediaFallback::Skip);
    assert!(!s.allow_reuse);
    assert_eq!(s.max_reuse, Some(2));
    assert_eq!(s.fallback, MediaFallback::Skip);
}

#[test]
fn trivial_plans_need_no_llm() {
    assert_eq!(trivial_asset_plan(0, 3), Some(vec![]));
    assert_eq!(trivial_asset_plan(2, 0), Some(vec![None, None]));
    assert_eq!(trivial_asset_plan(2, 1), None);
}

#[test]
fn plan_assigns_assets_and_lists_unmatched() {
    let assets = vec![
        MediaAsset::image(MediaSource::FilePath("a.jpg".to_string()), "A".to_string()),
        MediaAsset::video(MediaSource::Url("https://x/b.mp4".to_string()), "B".to_string()),
    ];
    let plan = vec![Some(1), None, Some(0), Some(9)];
    let (media, unmatched) = assign_assets(&assets, Some(&plan), None, 5);
    assert_eq!(media.len(), 5);
    assert_eq!(url_of(&media[0]).as_deref(), Some("https://x/b.mp4"));
    assert_eq!(media[0].as_ref().unwrap().kind, MediaKind::Video);
    assert_eq!(url_of(&media[2]).as_deref(), Some("a.jpg"));
    assert_eq!(media[2].as_ref().unwrap().kind, MediaKind::Image);
    assert!(media[1].is_none() && media[3].is_none() && media[4].is_none());
    assert_eq!(unmatched, vec![1, 3, 4]);
    let (media, unmatched) = assign_assets(&assets, None, None, 2);
    assert!(media.iter().all(|m| m.is_none()));
    assert_eq!(unmatched, vec![0, 1]);
}

#[test]
fn stock_fallback_only_when_wanted() {
    assert!(wants_stock_fallback(2, true, MediaFallback::StockSearch));
    assert!(!wants_stock_fallback(0, true, MediaFallback::StockSearch));
    assert!(!wants_stock_fallback(2, false, MediaFallback::StockSearch));
    assert!(!wants_stock_fallback(2, true, MediaFallback::Skip));
}

#[test]
fn stock_results_fill_unmatched_chunks_only() {
    let keep = Some(PlannedMedia { source: MediaSource::FilePath("keep.jpg".to_string()), kind: MediaKind::Image });
    let mut results = vec![None, keep, None, None];
    let found = vec![
        Some(PlannedMedia { source: MediaSource::Url("u0".to_string()), kind: MediaKind::Video }),
        None,
    ];
    apply_stock_results(&mut results, &[0, 2, 3], found);
    assert_eq!(url_of(&results[0]).as_deref(), Some("u0"));
    assert_eq!(url_of(&results[1]).as_deref(), Some("keep.jpg"));
    assert!(results[2].is_none());
    assert!(results[3].is_none());
}

#[test]
fn keyword_query_joins_with_commas() {
    let k = vec!["solar panels".to_string(), "field".to_string()];
    assert_eq!(keywords_query(&k), "solar panels, field");
    assert_eq!(keywords_query(&[]), "");
}

#[test]
fn first_stock_hit_is_planned() {
    let hits = vec![
        MediaSearchResult { url: "https://p/1.jpg".to_string(), kind: MediaKind::Image },
        MediaSearchResult { url: "https://p/2.jpg".to_string(), kind: MediaKind::Image },
    ];
    let p = first_planned(hits);
    assert_eq!(url_of(&p).as_deref(), Some("https://p/1.jpg"));
    assert!(first_planned(vec![]).is_none());
}

fn two_assets() -> Vec<MediaAsset> {
    vec![
        MediaAsset::image(MediaSource::FilePath("a.jpg".to_string()), "A".to_string()),
        MediaAsset::image(MediaSource::FilePath("b.jpg".to_string()), "B".to_string()),
    ]
}

#[test]
fn reuse_limits_follow_settings() {
    assert_eq!(reuse_limit(false, None), Some(1));
    assert_eq!(reuse_limit(false, Some(3)), Some(1));
    assert_eq!(reuse_limit(true, Some(2)), Some(2));
    assert_eq!(reuse_limit(true, None), None);
}

#[test]
fn without_reuse_an_asset_serves_one_chunk() {
    let plan = vec![Some(0), Some(0), Some(1), Some(0)];
    let (media, unmatched) = assign_assets(&two_assets(), Some(&plan), reuse_limit(false, None), 4);
    assert_eq!(url_of(&media[0]).as_deref(), Some("a.jpg"));
    assert!(media[1].is_none());
    assert_eq!(url_of(&media[2]).as_deref(), Some("b.jpg"));
    assert!(media[3].is_none());
    assert_eq!(unmatched, vec![1, 3]);
}

#[test]
fn max_reuse_caps_each_asset() {
    let plan = vec![Some(0), Some(0), Some(0), Some(1), Some(1)];
    let (media, unmatched) = assign_assets(&two_assets(), Some(&plan), reuse_limit(true, Some(2)), 5);
    let urls: Vec<Option<String>> = media.iter().map(url_of).collect();
    assert_eq!(
        urls,
        vec![
            Some("a.jpg".to_string()),
            Some("a.jpg".to_string()),
            None,
            Some("b.jpg".to_string()),
            Some("b.jpg".to_string())
        ]
    );
    assert_eq!(unmatched, vec![2]);
    let (media, _) = assign_assets(&two_assets(), Some(&plan), None, 5);
    assert!(media.iter().all(|m| m.is_some()));
}
