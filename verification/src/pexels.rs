//! Pexels stock search logic: choosing a video file and reading results.
use vstd::prelude::*;

use crate::text::same_text;
use crate::types::{MediaKind, MediaSearchResult};

verus! {

broadcast use vstd::seq_lib::group_seq_properties;

/// One file of a Pexels video.
#[derive(Debug, Clone)]
pub struct VideoFile {
    pub quality: Option<String>,
    pub file_type: Option<String>,
    pub width: Option<u32>,
    pub link: String,
}

/// Files without a width sort last.
pub open spec fn width_key(f: VideoFile) -> u32 {
    match f.width {
        Some(w) => w,
        None => u32::MAX,
    }
}

pub open spec fn is_mp4(f: VideoFile) -> bool {
    f.file_type matches Some(t) && t@ == "video/mp4"@
}

pub open spec fn is_sd_mp4(f: VideoFile) -> bool {
    is_mp4(f) && (f.quality matches Some(q) && q@ == "sd"@)
}

/// Index of the first file among the first `n` that passes the test and has
/// the smallest width key.
pub open spec fn best_upto(files: Seq<VideoFile>, n: nat, sd_only: bool) -> Option<int>
    decreases n,
{
    if n == 0 {
        None
    } else {
        let b = best_upto(files, (n - 1) as nat, sd_only);
        let f = files[n - 1];
        let ok = if sd_only {
            is_sd_mp4(f)
        } else {
            is_mp4(f)
        };
        if ok && (b is None || width_key(f) < width_key(files[b->0])) {
            Some(n - 1)
        } else {
            b
        }
    }
}

/// The chosen file: the narrowest SD MP4, else the narrowest MP4 (the first
/// of equally narrow ones).
pub open spec fn best_video_link(files: Seq<VideoFile>) -> Option<Seq<char>> {
    match best_upto(files, files.len(), true) {
        Some(i) => Some(files[i].link@),
        None => match best_upto(files, files.len(), false) {
            Some(i) => Some(files[i].link@),
            None => None,
        },
    }
}

fn eq_str(a: &Option<String>, b: &str) -> (r: bool)
    ensures
        r == (a matches Some(t) && t@ == b@),
{
    match a {
        Some(t) => same_text(t.as_str(), b),
        None => false,
    }
}

fn best_index(files: &[VideoFile], sd_only: bool) -> (r: Option<usize>)
    ensures
        match r {
            Some(i) => best_upto(files@, files@.len(), sd_only) == Some(i as int) && i < files@.len(),
            None => best_upto(files@, files@.len(), sd_only) is None,
        },
{
    let mut best: Option<usize> = None;
    let mut i: usize = 0;
    while i < files.len()
        invariant
            i <= files@.len(),
            match best {
                Some(b) => best_upto(files@, i as nat, sd_only) == Some(b as int) && b < i,
                None => best_upto(files@, i as nat, sd_only) is None,
            },
        decreases files@.len() - i,
    {
        let f = &files[i];
        let mp4 = eq_str(&f.file_type, "video/mp4");
        let ok = if sd_only {
            mp4 && eq_str(&f.quality, "sd")
        } else {
            mp4
        };
        let key = match f.width {
            Some(w) => w,
            None => u32::MAX,
        };
        let better = match best {
            None => true,
            Some(b) => {
                let bk = match files[b].width {
                    Some(w) => w,
                    None => u32::MAX,
                };
                key < bk
            },
        };
        if ok && better {
            best = Some(i);
        }
        i = i + 1;
    }
    best
}

/// Picks the smallest MP4 file, preferring SD quality.
pub fn pick_best_video_file(files: &[VideoFile]) -> (r: Option<String>)
    ensures
        match r {
            Some(l) => best_video_link(files@) == Some(l@),
            None => best_video_link(files@) is None,
        },
{
    match best_index(files, true) {
        Some(i) => Some(files[i].link.clone()),
        None => match best_index(files, false) {
            Some(i) => Some(files[i].link.clone()),
            None => None,
        },
    }
}

/// The video results of a search: for each video with a usable file (in
/// order, at most `count`), that file's link.
pub open spec fn video_links(videos: Seq<Vec<VideoFile>>, n: nat, count: nat) -> Seq<Seq<char>>
    decreases n,
{
    if n == 0 {
        Seq::empty()
    } else {
        let prev = video_links(videos, (n - 1) as nat, count);
        match best_video_link(videos[n - 1]@) {
            Some(l) => if prev.len() < count {
                prev.push(l)
            } else {
                prev
            },
            None => prev,
        }
    }
}

pub open spec fn result_urls(v: Seq<MediaSearchResult>) -> Seq<Seq<char>> {
    v.map_values(|r: MediaSearchResult| r.url@)
}

/// Results of a video search: the chosen file of each video, at most `count`, as videos.
pub fn video_results(videos: &[Vec<VideoFile>], count: usize) -> (r: Vec<MediaSearchResult>)
    ensures
        result_urls(r@) == video_links(videos@, videos@.len(), count as nat),
        forall|i: int| 0 <= i < r@.len() ==> (#[trigger] r@[i]).kind == MediaKind::Video,
{
    let mut out: Vec<MediaSearchResult> = Vec::new();
    let mut i: usize = 0;
    while i < videos.len()
        invariant
            i <= videos@.len(),
            result_urls(out@) == video_links(videos@, i as nat, count as nat),
            out@.len() <= count,
            forall|k: int| 0 <= k < out@.len() ==> (#[trigger] out@[k]).kind == MediaKind::Video,
        decreases videos@.len() - i,
    {
        let ghost before = out@;
        match pick_best_video_file(videos[i].as_slice()) {
            Some(url) => {
                if out.len() < count {
                    let ghost u = url@;
                    out.push(MediaSearchResult { url, kind: MediaKind::Video });
                    assert(result_urls(out@) =~= result_urls(before).push(u));
                }
            },
            None => {},
        }
        i = i + 1;
    }
    out
}

/// Results of a photo search: each photo's landscape URL, as images.
pub fn photo_results(landscape_urls: Vec<String>) -> (r: Vec<MediaSearchResult>)
    ensures
        result_urls(r@) == landscape_urls@.map_values(|s: String| s@),
        forall|i: int| 0 <= i < r@.len() ==> (#[trigger] r@[i]).kind == MediaKind::Image,
{
    let mut out: Vec<MediaSearchResult> = Vec::new();
    let n = landscape_urls.len();
    let mut i: usize = 0;
    while i < n
        invariant
            i <= n,
            n == landscape_urls@.len(),
            out@.len() == i,
            forall|k: int| 0 <= k < i ==> (#[trigger] out@[k]).url@ == landscape_urls@[k]@,
            forall|k: int| 0 <= k < out@.len() ==> (#[trigger] out@[k]).kind == MediaKind::Image,
        decreases n - i,
    {
        let u = landscape_urls[i].clone();
        out.push(MediaSearchResult { url: u, kind: MediaKind::Image });
        i = i + 1;
    }
    assert(result_urls(out@) =~= landscape_urls@.map_values(|s: String| s@));
    out
}

} // verus!
