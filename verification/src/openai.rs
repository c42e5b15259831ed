//! Chat-completion logic: endpoints, prompts, keyword parsing, and the
//! reading of an LLM's asset plan.
use vstd::prelude::*;

use crate::error::SdkError;
use crate::sentences::{keep_piece, strings_view};
use crate::text::{chars_of, dec, dec_chars, extend_chars, push_str_chars, string_from_chars, trim, trim_chars};
use crate::types::{MediaAsset, MediaKind, TimedChunk};

verus! {

broadcast use vstd::seq_lib::group_seq_properties;

/// System prompt of keyword extraction.
pub const KEYWORD_PROMPT: &'static str = "Extract 2-3 concrete, visual search keywords for a stock photo that would visually represent this paragraph of a news broadcast. Focus on tangible objects, scenes, or actions (e.g. \"stock market trading floor\", \"solar panels field\", \"doctor examining patient\"). Return ONLY a comma-separated list of keywords, nothing else.";

/// System prompt of text rewriting.
pub const REWRITE_SYSTEM_PROMPT: &'static str = "You are a text rewriter. You will receive a piece of narration text and then user instructions on how to modify it. Rewrite the narration to match the requested modification. Do NOT modify anything else than what's requested. The requested modification may be to change the style, tone, or to even rewrite it to focus on a different subject, or to extract only some information from it. Reply ONLY with the new formatted text exactly as asked.";

/// Configuration of OpenAI-compatible chat providers.
#[derive(Debug, Clone)]
pub struct OpenAiConfig {
    pub api_key: String,
    pub model: String,
    pub timeout_secs: u64,
    /// Base URL of the API. Default: `"https://api.openai.com"`.
    pub base_url: String,
}

impl Default for OpenAiConfig {
    fn default() -> (r: Self)
        ensures
            r.api_key@ == Seq::<char>::empty(),
            r.model@ == "gpt-4o-mini"@,
            r.timeout_secs == 30,
            r.base_url@ == "https://api.openai.com"@,
    {
        OpenAiConfig {
            api_key: String::new(),
            model: String::from_str("gpt-4o-mini"),
            timeout_secs: 30,
            base_url: String::from_str("https://api.openai.com"),
        }
    }
}

/// `s` without trailing `/` characters (`trim_end_matches('/')`).
pub open spec fn trim_slashes(s: Seq<char>) -> Seq<char>
    decreases s.len(),
{
    if s.len() > 0 && s.last() == '/' {
        trim_slashes(s.drop_last())
    } else {
        s
    }
}

/// `s.trim_end_matches('/')`.
pub fn trim_trailing_slashes(s: &str) -> (r: String)
    ensures
        r@ == trim_slashes(s@),
{
    let cs = chars_of(s);
    let mut n = cs.len();
    assert(cs@.take(n as int) =~= cs@);
    while n > 0 && cs[n - 1] == '/'
        invariant
            n <= cs@.len(),
            trim_slashes(cs@) == trim_slashes(cs@.take(n as int)),
        decreases n,
    {
        assert(cs@.take(n as int).drop_last() =~= cs@.take(n - 1));
        n = n - 1;
    }
    let mut out: Vec<char> = Vec::new();
    let mut i: usize = 0;
    while i < n
        invariant
            i <= n <= cs@.len(),
            out@ == cs@.take(i as int),
        decreases n - i,
    {
        out.push(cs[i]);
        assert(cs@.take(i + 1) =~= cs@.take(i as int).push(cs@[i as int]));
        i = i + 1;
    }
    string_from_chars(out.as_slice())
}

/// The chat completions endpoint under a base URL.
pub fn chat_completions_url(base_url: &str) -> (r: String)
    ensures
        r@ == trim_slashes(base_url@) + "/v1/chat/completions"@,
{
    let mut r = trim_trailing_slashes(base_url);
    r.append("/v1/chat/completions");
    r
}

/// Pieces of `s`, split at `sep` and read up to position `n`: the pieces
/// closed so far (trimmed, empty ones dropped) and the piece being read.
pub open spec fn scan_pieces(s: Seq<char>, sep: char, n: nat) -> (Seq<Seq<char>>, Seq<char>)
    decreases n,
{
    if n == 0 {
        (Seq::empty(), Seq::empty())
    } else {
        let (acc, cur) = scan_pieces(s, sep, (n - 1) as nat);
        if s[n - 1] == sep {
            (keep_piece(acc, cur), Seq::empty())
        } else {
            (acc, cur.push(s[n - 1]))
        }
    }
}

/// The pieces of `s` between occurrences of `sep`, each trimmed, empty ones dropped.
pub open spec fn trimmed_pieces(s: Seq<char>, sep: char) -> Seq<Seq<char>> {
    let (acc, cur) = scan_pieces(s, sep, s.len());
    keep_piece(acc, cur)
}

/// The keywords of a comma-separated list.
pub open spec fn keywords_of(s: Seq<char>) -> Seq<Seq<char>> {
    trimmed_pieces(s, ',')
}

fn push_kept(out: &mut Vec<String>, piece: &Vec<char>)
    ensures
        strings_view(final(out)@) == keep_piece(strings_view(old(out)@), piece@),
{
    let t = trim_chars(piece.as_slice());
    if t.len() > 0 {
        out.push(string_from_chars(t.as_slice()));
        assert(strings_view(out@) =~= strings_view(old(out)@).push(t@));
    }
}

/// Splits `content` at each `sep`, trims the pieces and drops the empty ones.
pub fn split_trimmed(content: &str, sep: char) -> (r: Vec<String>)
    ensures
        strings_view(r@) == trimmed_pieces(content@, sep),
{
    let cs = chars_of(content);
    let mut out: Vec<String> = Vec::new();
    let mut cur: Vec<char> = Vec::new();
    let mut i: usize = 0;
    while i < cs.len()
        invariant
            i <= cs@.len(),
            cs@ == content@,
            strings_view(out@) == scan_pieces(cs@, sep, i as nat).0,
            cur@ == scan_pieces(cs@, sep, i as nat).1,
        decreases cs@.len() - i,
    {
        if cs[i] == sep {
            push_kept(&mut out, &cur);
            cur = Vec::new();
        } else {
            cur.push(cs[i]);
        }
        i = i + 1;
    }
    push_kept(&mut out, &cur);
    out
}

/// The keywords of an LLM reply: split on commas, trimmed, empty ones dropped.
pub fn parse_keywords(content: &str) -> (r: Vec<String>)
    ensures
        strings_view(r@) == keywords_of(content@),
{
    split_trimmed(content, ',')
}

/// The content of the first choice of a chat reply, if it has one.
pub fn first_choice_content(contents: &[Option<String>]) -> (r: Option<String>)
    ensures
        r == if contents@.len() > 0 {
            contents@[0]
        } else {
            None
        },
{
    if contents.len() > 0 {
        match &contents[0] {
            Some(c) => Some(c.clone()),
            None => None,
        }
    } else {
        None
    }
}

/// The user message of a rewrite request.
pub open spec fn rewrite_message_spec(style: Seq<char>, text: Seq<char>) -> Seq<char> {
    "Style instructions: "@ + style + "\n\n---\n\nText to rewrite:\n"@ + text
}

pub fn rewrite_message(style: &str, text: &str) -> (r: String)
    ensures
        r@ == rewrite_message_spec(style@, text@),
{
    let mut r = String::from_str("Style instructions: ");
    r.append(style);
    r.append("\n\n---\n\nText to rewrite:\n");
    r.append(text);
    r
}

/// A rewritten text is the reply, trimmed.
pub fn rewrite_result(reply: &str) -> (r: String)
    ensures
        r@ == trim(reply@),
{
    let cs = chars_of(reply);
    let t = trim_chars(cs.as_slice());
    string_from_chars(t.as_slice())
}

/// Index of the first `c` in `s`.
pub open spec fn first_index(s: Seq<char>, c: char) -> Option<int>
    decreases s.len(),
{
    if s.len() == 0 {
        None
    } else {
        match first_index(s.drop_last(), c) {
            Some(i) => Some(i),
            None => if s.last() == c {
                Some(s.len() - 1)
            } else {
                None
            },
        }
    }
}

/// Index of the last `c` in `s`.
pub open spec fn last_index(s: Seq<char>, c: char) -> Option<int>
    decreases s.len(),
{
    if s.len() == 0 {
        None
    } else if s.last() == c {
        Some(s.len() - 1)
    } else {
        last_index(s.drop_last(), c)
    }
}

/// The JSON array in an LLM reply that may wrap it in prose or markdown
/// fences: the trimmed reply when it is bracketed, else the span from the
/// first `[` to the last `]`.
pub open spec fn json_array_spec(s: Seq<char>) -> Option<Seq<char>> {
    let t = trim(s);
    if t.len() > 0 && t[0] == '[' && t.last() == ']' {
        Some(t)
    } else {
        match (first_index(s, '['), last_index(s, ']')) {
            (Some(a), Some(b)) => if a < b {
                Some(s.subrange(a, b + 1))
            } else {
                None
            },
            _ => None,
        }
    }
}

fn find_first(s: &[char], c: char) -> (r: Option<usize>)
    ensures
        match r {
            Some(i) => first_index(s@, c) == Some(i as int) && i < s@.len(),
            None => first_index(s@, c) is None,
        },
{
    let mut i: usize = 0;
    while i < s.len()
        invariant
            i <= s@.len(),
            first_index(s@.take(i as int), c) is None,
        decreases s@.len() - i,
    {
        assert(s@.take(i + 1).drop_last() =~= s@.take(i as int));
        if s[i] == c {
            proof {
                lemma_first_index_prefix(s@, c, (i + 1) as nat);
            }
            return Some(i);
        }
        i = i + 1;
    }
    assert(s@.take(s@.len() as int) =~= s@);
    None
}

proof fn lemma_first_index_prefix(s: Seq<char>, c: char, n: nat)
    requires
        n <= s.len(),
        first_index(s.take(n as int), c) is Some,
    ensures
        first_index(s, c) == first_index(s.take(n as int), c),
    decreases s.len() - n,
{
    if n < s.len() {
        assert(s.take(n as int + 1).drop_last() =~= s.take(n as int));
        lemma_first_index_prefix(s, c, n + 1);
    } else {
        assert(s.take(n as int) =~= s);
    }
}

fn find_last(s: &[char], c: char) -> (r: Option<usize>)
    ensures
        match r {
            Some(i) => last_index(s@, c) == Some(i as int) && i < s@.len(),
            None => last_index(s@, c) is None,
        },
{
    let mut n = s.len();
    assert(s@.take(n as int) =~= s@);
    while n > 0
        invariant
            n <= s@.len(),
            last_index(s@, c) == last_index(s@.take(n as int), c),
        decreases n,
    {
        assert(s@.take(n as int).drop_last() =~= s@.take(n - 1));
        if s[n - 1] == c {
            return Some(n - 1);
        }
        n = n - 1;
    }
    None
}

fn copy_range(s: &[char], a: usize, b: usize) -> (r: Vec<char>)
    requires
        a <= b <= s@.len(),
    ensures
        r@ == s@.subrange(a as int, b as int),
{
    let mut out: Vec<char> = Vec::new();
    let mut i = a;
    while i < b
        invariant
            a <= i <= b <= s@.len(),
            out@ == s@.subrange(a as int, i as int),
        decreases b - i,
    {
        out.push(s[i]);
        assert(s@.subrange(a as int, i + 1) =~= s@.subrange(a as int, i as int).push(s@[i as int]));
        i = i + 1;
    }
    out
}

/// The JSON array of an LLM reply, if it has one.
pub fn extract_json_array(s: &str) -> (r: Option<String>)
    ensures
        match r {
            Some(x) => json_array_spec(s@) == Some(x@),
            None => json_array_spec(s@) is None,
        },
{
    let cs = chars_of(s);
    let t = trim_chars(cs.as_slice());
    if t.len() > 0 && t[0] == '[' && t[t.len() - 1] == ']' {
        return Some(string_from_chars(t.as_slice()));
    }
    match (find_first(cs.as_slice(), '['), find_last(cs.as_slice(), ']')) {
        (Some(a), Some(b)) => {
            if a < b {
                assert(b < cs.len());
                let piece = copy_range(cs.as_slice(), a, b + 1);
                Some(string_from_chars(piece.as_slice()))
            } else {
                None
            }
        },
        _ => None,
    }
}

/// What `serde_json` reads from a JSON array of optional indices, when it
/// reads one.
pub uninterp spec fn json_index_list(text: Seq<char>) -> Option<Seq<Option<usize>>>;

/// `serde_json::from_str::<Vec<Option<usize>>>`. The contract names the
/// parsed value; the error text it returns on failure is not specified.
#[verifier::external_body]
fn parse_index_list(text: &str) -> (r: Result<Vec<Option<usize>>, String>)
    ensures
        r is Ok <==> json_index_list(text@) is Some,
        r matches Ok(v) ==> json_index_list(text@) == Some(v@),
{
    serde_json::from_str::<Vec<Option<usize>>>(text).map_err(|e| e.to_string())
}

/// Asset index for chunk `i`: the plan's entry, if any, when it names an asset.
pub open spec fn plan_entry(raw: Seq<Option<usize>>, i: int, n_assets: nat) -> Option<usize> {
    if i < raw.len() {
        match raw[i] {
            Some(idx) => if idx < n_assets {
                Some(idx)
            } else {
                None
            },
            None => None,
        }
    } else {
        None
    }
}

/// The plan for `n_chunks` chunks read from a parsed array.
pub open spec fn bounded_plan(raw: Seq<Option<usize>>, n_chunks: nat, n_assets: nat) -> Seq<Option<usize>> {
    Seq::new(n_chunks, |i: int| plan_entry(raw, i, n_assets))
}

/// What reading an LLM's asset plan gives: a plan when the reply holds a
/// JSON array of optional indices (one entry per chunk; missing entries and
/// indices past the assets count as no match); an error naming the reply
/// when it holds no array; an error when the array does not parse.
pub open spec fn asset_plan_read(
    content: Seq<char>,
    n_chunks: nat,
    n_assets: nat,
    r: Result<Seq<Option<usize>>, SdkError>,
) -> bool {
    match json_array_spec(content) {
        None => r matches Err(SdkError::MediaPlanner(m)) && m@ == "no JSON array in response: "@
            + content,
        Some(j) => match json_index_list(j) {
            Some(raw) => r == Ok::<Seq<Option<usize>>, SdkError>(bounded_plan(raw, n_chunks, n_assets)),
            None => r matches Err(SdkError::MediaPlanner(m)) && exists|e: Seq<char>| m@ == "JSON parse failed: "@ + e + " — raw: "@ + j,
        },
    }
}

/// The plan for `n_chunks` chunks from a parsed array: entry `i` for chunk
/// `i`, none where the array is short or names no asset.
pub fn bound_plan(raw: &[Option<usize>], n_chunks: usize, n_assets: usize) -> (r: Vec<Option<usize>>)
    ensures
        r@ == bounded_plan(raw@, n_chunks as nat, n_assets as nat),
{
    let mut out: Vec<Option<usize>> = Vec::new();
    let mut i: usize = 0;
    while i < n_chunks
        invariant
            i <= n_chunks,
            out@ == bounded_plan(raw@, n_chunks as nat, n_assets as nat).take(i as int),
        decreases n_chunks - i,
    {
        let e = if i < raw.len() {
            match raw[i] {
                Some(idx) => if idx < n_assets {
                    Some(idx)
                } else {
                    None
                },
                None => None,
            }
        } else {
            None
        };
        out.push(e);
        assert(out@ =~= bounded_plan(raw@, n_chunks as nat, n_assets as nat).take(i + 1));
        i = i + 1;
    }
    assert(out@ =~= bounded_plan(raw@, n_chunks as nat, n_assets as nat));
    out
}

/// Reads an LLM's asset plan for `n_chunks` chunks and `n_assets` assets.
pub fn parse_asset_plan(content: &str, n_chunks: usize, n_assets: usize) -> (r: Result<Vec<Option<usize>>, SdkError>)
    ensures
        asset_plan_read(
            content@,
            n_chunks as nat,
            n_assets as nat,
            match r {
                Ok(v) => Ok(v@),
                Err(e) => Err(e),
            },
        ),
{
    let json = match extract_json_array(content) {
        Some(j) => j,
        None => {
            let mut m = String::from_str("no JSON array in response: ");
            m.append(content);
            return Err(SdkError::MediaPlanner(m));
        },
    };
    let raw = match parse_index_list(json.as_str()) {
        Ok(v) => v,
        Err(e) => {
            let mut m = String::from_str("JSON parse failed: ");
            m.append(e.as_str());
            m.append(" — raw: ");
            m.append(json.as_str());
            return Err(SdkError::MediaPlanner(m));
        },
    };
    Ok(bound_plan(raw.as_slice(), n_chunks, n_assets))
}

/// `s` when it has at most `max` characters, else its first `max`
/// characters and an ellipsis.
pub open spec fn truncate_spec(s: Seq<char>, max: nat) -> Seq<char> {
    if s.len() <= max {
        s
    } else {
        s.take(max as int).push('…')
    }
}

/// Shortens text for a prompt.
pub fn truncate_for_prompt(s: &str, max_chars: usize) -> (r: String)
    ensures
        r@ == truncate_spec(s@, max_chars as nat),
{
    let cs = chars_of(s);
    if cs.len() <= max_chars {
        string_from_chars(cs.as_slice())
    } else {
        let mut out = copy_range(cs.as_slice(), 0, max_chars);
        out.push('…');
        assert(out@ =~= cs@.take(max_chars as int).push('…'));
        string_from_chars(out.as_slice())
    }
}

/// How a media kind is written in a prompt.
pub open spec fn kind_label(k: MediaKind) -> Seq<char> {
    match k {
        MediaKind::Image => "Image"@,
        MediaKind::Video => "Video"@,
    }
}

/// The opening of the asset-planning prompt.
pub open spec fn plan_intro() -> Seq<char> {
    "You are a media planner for a narrated video. You will be given narration text chunks (each with timing) and a list of available media assets (images/videos with descriptions).\n\nFor each chunk, select the most visually appropriate media asset by returning its index, or null if no asset fits well.\n\n"@
}

/// The reuse rule of the asset-planning prompt.
pub open spec fn reuse_rule(allow_reuse: bool, max_reuse: Option<usize>) -> Seq<char> {
    if !allow_reuse {
        "IMPORTANT: Each asset may only be used ONCE.\n\n"@
    } else {
        match max_reuse {
            Some(max) => "IMPORTANT: Each asset may be used at most "@ + dec(max as nat) + " times.\n\n"@,
            None => Seq::empty(),
        }
    }
}

/// The matching rules of the asset-planning prompt.
pub open spec fn plan_rules() -> Seq<char> {
    "Rules:\n- Match assets to chunks based on semantic relevance between the asset description and chunk content\n- Consider narrative flow — avoid jarring visual transitions\n- Return null for chunks where no asset is a good fit\n\n"@
}

/// The prompt line of chunk `i`, with its start and end labels (seconds).
pub open spec fn chunk_line(i: nat, start: Seq<char>, end: Seq<char>, text: Seq<char>) -> Seq<char> {
    "  "@ + dec(i) + ": ["@ + start + "s–"@ + end + "s] \""@ + truncate_spec(text, 200) + "\"\n"@
}

pub open spec fn chunk_lines(
    chunks: Seq<TimedChunk>,
    labels: Seq<(String, String)>,
    n: nat,
) -> Seq<char>
    decreases n,
{
    if n == 0 {
        Seq::empty()
    } else {
        chunk_lines(chunks, labels, (n - 1) as nat) + chunk_line(
            (n - 1) as nat,
            labels[n - 1].0@,
            labels[n - 1].1@,
            chunks[n - 1].text@,
        )
    }
}

/// The prompt line of asset `i`.
pub open spec fn asset_line(i: nat, a: MediaAsset) -> Seq<char> {
    "  "@ + dec(i) + ": ["@ + kind_label(a.kind) + "] \""@ + a.description@ + "\"\n"@
}

pub open spec fn asset_lines(assets: Seq<MediaAsset>, n: nat) -> Seq<char>
    decreases n,
{
    if n == 0 {
        Seq::empty()
    } else {
        asset_lines(assets, (n - 1) as nat) + asset_line((n - 1) as nat, assets[n - 1])
    }
}

/// The asset-planning prompt: task, reuse rule, matching rules, the chunks
/// with their time labels and (truncated) text, the assets with their kind
/// and description, and the expected reply shape.
pub open spec fn asset_prompt(
    chunks: Seq<TimedChunk>,
    labels: Seq<(String, String)>,
    assets: Seq<MediaAsset>,
    allow_reuse: bool,
    max_reuse: Option<usize>,
) -> Seq<char> {
    plan_intro() + reuse_rule(allow_reuse, max_reuse) + plan_rules() + "Chunks:\n"@ + chunk_lines(
        chunks,
        labels,
        chunks.len(),
    ) + "\nAvailable assets:\n"@ + asset_lines(assets, assets.len())
        + "\nReturn ONLY a JSON array of length "@ + dec(chunks.len())
        + " where each element is either an asset index (0-based integer) or null. Example: [0, 1, null, 0, 2]\n"@
}

fn push_dec(out: &mut Vec<char>, n: u64)
    ensures
        final(out)@ == old(out)@ + dec(n as nat),
{
    let d = dec_chars(n);
    extend_chars(out, d.as_slice());
}

fn push_chunk_line(out: &mut Vec<char>, i: usize, start: &String, end: &String, text: &String)
    ensures
        final(out)@ == old(out)@ + chunk_line(i as nat, start@, end@, text@),
{
    let ghost o = out@;
    push_str_chars(out, "  ");
    push_dec(out, i as u64);
    push_str_chars(out, ": [");
    push_str_chars(out, start.as_str());
    push_str_chars(out, "s–");
    push_str_chars(out, end.as_str());
    push_str_chars(out, "s] \"");
    let t = truncate_for_prompt(text.as_str(), 200);
    push_str_chars(out, t.as_str());
    push_str_chars(out, "\"\n");
    assert(out@ =~= o + chunk_line(i as nat, start@, end@, text@));
}

fn push_asset_line(out: &mut Vec<char>, i: usize, a: &MediaAsset)
    ensures
        final(out)@ == old(out)@ + asset_line(i as nat, *a),
{
    let ghost o = out@;
    push_str_chars(out, "  ");
    push_dec(out, i as u64);
    push_str_chars(out, ": [");
    match a.kind {
        MediaKind::Image => push_str_chars(out, "Image"),
        MediaKind::Video => push_str_chars(out, "Video"),
    }
    push_str_chars(out, "] \"");
    push_str_chars(out, a.description.as_str());
    push_str_chars(out, "\"\n");
    assert(out@ =~= o + asset_line(i as nat, *a));
}

/// The closing request of the planning prompt: a JSON array of `n` entries.
pub open spec fn plan_length_request(n: nat) -> Seq<char> {
    "\nReturn ONLY a JSON array of length "@ + dec(n)
        + " where each element is either an asset index (0-based integer) or null. Example: [0, 1, null, 0, 2]\n"@
}

/// The prompt asks for one plan entry per chunk: it ends by asking for a
/// JSON array whose length is the number of chunks, whatever the number of
/// assets.
pub proof fn lemma_prompt_asks_entry_per_chunk(
    chunks: Seq<TimedChunk>,
    labels: Seq<(String, String)>,
    assets: Seq<MediaAsset>,
    allow_reuse: bool,
    max_reuse: Option<usize>,
)
    ensures
        exists|head: Seq<char>|
            asset_prompt(chunks, labels, assets, allow_reuse, max_reuse) == head + plan_length_request(
                chunks.len(),
            ),
{
    let head = plan_intro() + reuse_rule(allow_reuse, max_reuse) + plan_rules() + "Chunks:\n"@
        + chunk_lines(chunks, labels, chunks.len()) + "\nAvailable assets:\n"@ + asset_lines(
        assets,
        assets.len(),
    );
    assert(asset_prompt(chunks, labels, assets, allow_reuse, max_reuse) =~= head + plan_length_request(
        chunks.len(),
    ));
}

/// Builds the asset-planning prompt; `labels` holds each chunk's start and
/// end time in seconds, as text.
pub fn build_asset_prompt(
    chunks: &[TimedChunk],
    labels: &[(String, String)],
    assets: &[MediaAsset],
    allow_reuse: bool,
    max_reuse: Option<usize>,
) -> (r: String)
    requires
        labels@.len() == chunks@.len(),
    ensures
        r@ == asset_prompt(chunks@, labels@, assets@, allow_reuse, max_reuse),
{
    let mut out: Vec<char> = Vec::new();
    push_str_chars(&mut out, "You are a media planner for a narrated video. You will be given narration text chunks (each with timing) and a list of available media assets (images/videos with descriptions).\n\nFor each chunk, select the most visually appropriate media asset by returning its index, or null if no asset fits well.\n\n");
    if !allow_reuse {
        push_str_chars(&mut out, "IMPORTANT: Each asset may only be used ONCE.\n\n");
    } else {
        match max_reuse {
            Some(max) => {
                push_str_chars(&mut out, "IMPORTANT: Each asset may be used at most ");
                push_dec(&mut out, max as u64);
                push_str_chars(&mut out, " times.\n\n");
            },
            None => {},
        }
    }
    push_str_chars(&mut out, "Rules:\n- Match assets to chunks based on semantic relevance between the asset description and chunk content\n- Consider narrative flow — avoid jarring visual transitions\n- Return null for chunks where no asset is a good fit\n\n");
    push_str_chars(&mut out, "Chunks:\n");
    let ghost head = out@;
    assert(head =~= plan_intro() + reuse_rule(allow_reuse, max_reuse) + plan_rules() + "Chunks:\n"@);
    let mut i: usize = 0;
    while i < chunks.len()
        invariant
            i <= chunks@.len(),
            labels@.len() == chunks@.len(),
            out@ == head + chunk_lines(chunks@, labels@, i as nat),
        decreases chunks@.len() - i,
    {
        push_chunk_line(&mut out, i, &labels[i].0, &labels[i].1, &chunks[i].text);
        assert(out@ =~= head + chunk_lines(chunks@, labels@, (i + 1) as nat));
        i = i + 1;
    }
    push_str_chars(&mut out, "\nAvailable assets:\n");
    let ghost mid = out@;
    let mut j: usize = 0;
    while j < assets.len()
        invariant
            j <= assets@.len(),
            out@ == mid + asset_lines(assets@, j as nat),
        decreases assets@.len() - j,
    {
        push_asset_line(&mut out, j, &assets[j]);
        assert(out@ =~= mid + asset_lines(assets@, (j + 1) as nat));
        j = j + 1;
    }
    push_str_chars(&mut out, "\nReturn ONLY a JSON array of length ");
    push_dec(&mut out, chunks.len() as u64);
    push_str_chars(&mut out, " where each element is either an asset index (0-based integer) or null. Example: [0, 1, null, 0, 2]\n");
    assert(out@ =~= asset_prompt(chunks@, labels@, assets@, allow_reuse, max_reuse));
    string_from_chars(out.as_slice())
}

} // verus!
