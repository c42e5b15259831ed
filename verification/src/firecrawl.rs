//! Firecrawl content logic: prompts, endpoints, reading extracted text,
//! paywall detection, and narration from search results.
use vstd::prelude::*;

use crate::codec::{b64_encode, b64_encode_spec};
use crate::error::SdkError;
use crate::text::contains_seq;
use crate::text::{chars_of, string_from_chars, trim, trim_chars};
use crate::types::NarrationStyle;
use vstd::utf8::encode_utf8;

verus! {

broadcast use vstd::seq_lib::group_seq_properties;

/// What the extraction LLM answers when a page is behind a paywall.
pub const PAYWALL_SIGNAL: &'static str = "PAYWALL_DETECTED";

/// Appended to the article prompt so that paywalls are reported.
pub const PAYWALL_SUFFIX: &'static str = "\n\nIMPORTANT: If the page content is blocked by a paywall, login wall, cookie wall, or is otherwise inaccessible (e.g. \"subscribe to read\", \"create an account\", \"this content is for members only\"), respond with EXACTLY the text: PAYWALL_DETECTED — nothing else.";

/// Configuration of the Firecrawl scraper.
#[derive(Debug, Clone)]
pub struct FirecrawlConfig {
    pub base_url: String,
    /// Full override of the article narration prompt.
    pub narration_prompt: Option<String>,
    /// Full override of the search narration prompt.
    pub search_narration_prompt: Option<String>,
    /// Style variables of the default prompts.
    pub style: NarrationStyle,
    pub timeout_secs: u64,
}

impl Default for FirecrawlConfig {
    fn default() -> (r: Self)
        ensures
            r.base_url@ == "http://localhost:3002"@,
            r.narration_prompt is None,
            r.search_narration_prompt is None,
            r.style.role@ == "news broadcast scriptwriter"@,
            r.style.persona@ == "a news anchor"@,
            r.style.length@ == "2-4 paragraphs, 30-90 seconds when read aloud"@,
            r.style.tone@ == "Conversational and engaging"@,
            r.style.structure@ == "Start with the key headline/finding, then provide context"@,
            r.timeout_secs == 120,
    {
        FirecrawlConfig {
            base_url: String::from_str("http://localhost:3002"),
            narration_prompt: None,
            search_narration_prompt: None,
            style: NarrationStyle::default(),
            timeout_secs: 120,
        }
    }
}

/// The article narration prompt made from a style.
pub open spec fn article_prompt_spec(s: NarrationStyle) -> Seq<char> {
    "You are a "@ + s.role@
        + ". Given this article, write a narration segment suitable for a spoken audio broadcast. Requirements:\n- "@
        + s.length@ + "\n- "@ + s.tone@ + " tone, as if "@ + s.persona@ + " is reading it\n- "@
        + s.structure@
        + "\n- Do NOT include any stage directions, speaker labels, or meta-commentary\n- Return ONLY the narration text, nothing else"@
}

/// The search narration prompt made from a style.
pub open spec fn search_prompt_spec(s: NarrationStyle) -> Seq<char> {
    "You are a "@ + s.role@
        + ". You will receive search results about a topic. Using the information from these sources, write a narration segment suitable for a spoken audio broadcast. Requirements:\n- "@
        + s.length@ + "\n- "@ + s.tone@ + " tone, as if "@ + s.persona@
        + " is reading it\n- Synthesize information from the available sources\n- "@ + s.structure@
        + "\n- Do NOT include any stage directions, speaker labels, or meta-commentary\n- Do NOT mention that you used search results or multiple sources\n- Return ONLY the narration text, nothing else"@
}

/// The article narration prompt: the override, or the style's prompt.
pub fn narration_prompt(config: &FirecrawlConfig) -> (r: String)
    ensures
        r@ == match config.narration_prompt {
            Some(p) => p@,
            None => article_prompt_spec(config.style),
        },
{
    match &config.narration_prompt {
        Some(p) => p.clone(),
        None => {
            let s = &config.style;
            let mut r = String::from_str("You are a ");
            r.append(s.role.as_str());
            r.append(". Given this article, write a narration segment suitable for a spoken audio broadcast. Requirements:\n- ");
            r.append(s.length.as_str());
            r.append("\n- ");
            r.append(s.tone.as_str());
            r.append(" tone, as if ");
            r.append(s.persona.as_str());
            r.append(" is reading it\n- ");
            r.append(s.structure.as_str());
            r.append("\n- Do NOT include any stage directions, speaker labels, or meta-commentary\n- Return ONLY the narration text, nothing else");
            r
        },
    }
}

/// The search narration prompt: the override, or the style's prompt.
pub fn search_narration_prompt(config: &FirecrawlConfig) -> (r: String)
    ensures
        r@ == match config.search_narration_prompt {
            Some(p) => p@,
            None => search_prompt_spec(config.style),
        },
{
    match &config.search_narration_prompt {
        Some(p) => p.clone(),
        None => {
            let s = &config.style;
            let mut r = String::from_str("You are a ");
            r.append(s.role.as_str());
            r.append(". You will receive search results about a topic. Using the information from these sources, write a narration segment suitable for a spoken audio broadcast. Requirements:\n- ");
            r.append(s.length.as_str());
            r.append("\n- ");
            r.append(s.tone.as_str());
            r.append(" tone, as if ");
            r.append(s.persona.as_str());
            r.append(" is reading it\n- Synthesize information from the available sources\n- ");
            r.append(s.structure.as_str());
            r.append("\n- Do NOT include any stage directions, speaker labels, or meta-commentary\n- Do NOT mention that you used search results or multiple sources\n- Return ONLY the narration text, nothing else");
            r
        },
    }
}

/// The prompt of an article scrape: the narration prompt and the paywall instruction.
pub fn scrape_prompt(config: &FirecrawlConfig) -> (r: String)
    ensures
        r@ == match config.narration_prompt {
            Some(p) => p@,
            None => article_prompt_spec(config.style),
        } + PAYWALL_SUFFIX@,
{
    let mut r = narration_prompt(config);
    r.append(PAYWALL_SUFFIX);
    r
}

/// The scrape endpoint.
pub fn scrape_endpoint(config: &FirecrawlConfig) -> (r: String)
    ensures
        r@ == config.base_url@ + "/v1/scrape"@,
{
    let mut r = config.base_url.clone();
    r.append("/v1/scrape");
    r
}

/// The search endpoint.
pub fn search_endpoint(config: &FirecrawlConfig) -> (r: String)
    ensures
        r@ == config.base_url@ + "/v1/search"@,
{
    let mut r = config.base_url.clone();
    r.append("/v1/search");
    r
}

/// Extracted JSON as the library reads it: a string, an object given by its
/// entries (each key with its value when that value is a string), or
/// anything else.
#[derive(Debug, Clone)]
pub enum ExtractedJson {
    Text(String),
    Object(Vec<(String, Option<String>)>),
    Other,
}

/// The value under `key`: `None` when absent, `Some(None)` when not a string.
pub open spec fn lookup(entries: Seq<(String, Option<String>)>, key: Seq<char>) -> Option<Option<Seq<char>>>
    decreases entries.len(),
{
    if entries.len() == 0 {
        None
    } else if entries[0].0@ == key {
        Some(
            match entries[0].1 {
                Some(v) => Some(v@),
                None => None,
            },
        )
    } else {
        lookup(entries.drop_first(), key)
    }
}

/// The string values of an object, in order.
pub open spec fn string_values(entries: Seq<(String, Option<String>)>) -> Seq<Seq<char>>
    decreases entries.len(),
{
    if entries.len() == 0 {
        Seq::empty()
    } else {
        let prev = string_values(entries.drop_last());
        match entries.last().1 {
            Some(v) => prev.push(v@),
            None => prev,
        }
    }
}

fn lookup_exec(entries: &[(String, Option<String>)], key: &str) -> (r: Option<Option<String>>)
    ensures
        match r {
            Some(Some(v)) => lookup(entries@, key@) == Some(Some(v@)),
            Some(None) => lookup(entries@, key@) == Some(None::<Seq<char>>),
            None => lookup(entries@, key@) is None,
        },
{
    let k = chars_of(key);
    let mut i: usize = 0;
    assert(entries@.skip(0) =~= entries@);
    while i < entries.len()
        invariant
            i <= entries@.len(),
            k@ == key@,
            lookup(entries@, key@) == lookup(entries@.skip(i as int), key@),
        decreases entries@.len() - i,
    {
        let e = chars_of(entries[i].0.as_str());
        if eq_chars(e.as_slice(), k.as_slice()) {
            return Some(
                match &entries[i].1 {
                    Some(v) => Some(v.clone()),
                    None => None,
                },
            );
        }
        assert(entries@.skip(i as int).drop_first() =~= entries@.skip(i + 1));
        i = i + 1;
    }
    None
}

fn eq_chars(a: &[char], b: &[char]) -> (r: bool)
    ensures
        r == (a@ == b@),
{
    if a.len() != b.len() {
        return false;
    }
    let mut i: usize = 0;
    while i < a.len()
        invariant
            i <= a@.len(),
            a@.len() == b@.len(),
            forall|j: int| 0 <= j < i ==> a@[j] == b@[j],
        decreases a@.len() - i,
    {
        if a[i] != b[i] {
            return false;
        }
        i = i + 1;
    }
    assert(a@ =~= b@);
    true
}

fn string_values_exec(entries: &[(String, Option<String>)]) -> (r: Vec<String>)
    ensures
        r@.map_values(|s: String| s@) == string_values(entries@),
{
    let mut out: Vec<String> = Vec::new();
    let mut i: usize = 0;
    while i < entries.len()
        invariant
            i <= entries@.len(),
            out@.map_values(|s: String| s@) == string_values(entries@.take(i as int)),
        decreases entries@.len() - i,
    {
        let ghost before = out@;
        match &entries[i].1 {
            Some(v) => {
                let c = v.clone();
                out.push(c);
                assert(out@.map_values(|s: String| s@) =~= before.map_values(|s: String| s@).push(v@));
            },
            None => {},
        }
        assert(entries@.take(i + 1).drop_last() =~= entries@.take(i as int));
        i = i + 1;
    }
    assert(entries@.take(entries@.len() as int) =~= entries@);
    out
}

/// A trimmed text, kept when non-empty.
pub open spec fn nonempty_trim(s: Seq<char>) -> Option<Seq<char>> {
    if trim(s).len() > 0 {
        Some(trim(s))
    } else {
        None
    }
}

/// The text of a scrape's extract: a string; or, in an object, the value
/// of the first of "narration", "text", "content", "script" that is
/// present, when it is a string; or else the object's only string value.
pub open spec fn extract_text(v: ExtractedJson) -> Option<Seq<char>> {
    match v {
        ExtractedJson::Text(s) => Some(s@),
        ExtractedJson::Object(entries) => {
            let keyed = match lookup(entries@, "narration"@) {
                Some(x) => x,
                None => match lookup(entries@, "text"@) {
                    Some(x) => x,
                    None => match lookup(entries@, "content"@) {
                        Some(x) => x,
                        None => match lookup(entries@, "script"@) {
                            Some(x) => x,
                            None => None,
                        },
                    },
                },
            };
            match keyed {
                Some(t) => Some(t),
                None => if string_values(entries@).len() == 1 {
                    Some(string_values(entries@)[0])
                } else {
                    None
                },
            }
        },
        ExtractedJson::Other => None,
    }
}

/// The narration of a scrape: the extract's text, trimmed, when non-empty;
/// else the markdown, trimmed, when longer than 50 bytes.
pub open spec fn text_from_data(extract: Option<ExtractedJson>, markdown: Option<String>) -> Option<Seq<char>> {
    let from_extract = match extract {
        Some(v) => match extract_text(v) {
            Some(t) => nonempty_trim(t),
            None => None,
        },
        None => None,
    };
    match from_extract {
        Some(t) => Some(t),
        None => match markdown {
            Some(md) => if trim(md@).len() > 0 && (encode_utf8(trim(md@)).len() as usize) > 50 {
                Some(trim(md@))
            } else {
                None
            },
            None => None,
        },
    }
}

/// Entry `j` is the object's only string value.
pub open spec fn only_string_at(e: Seq<(String, Option<String>)>, j: int) -> bool {
    &&& 0 <= j < e.len()
    &&& e[j].1 is Some
    &&& forall|k: int| 0 <= k < e.len() && k != j ==> (#[trigger] e[k]).1 is None
}

proof fn lemma_lookup_absent(e: Seq<(String, Option<String>)>, key: Seq<char>)
    requires
        forall|j: int| 0 <= j < e.len() ==> (#[trigger] e[j]).0@ != key,
    ensures
        lookup(e, key) is None,
    decreases e.len(),
{
    if e.len() > 0 {
        assert(e[0].0@ != key);
        assert forall|j: int| 0 <= j < e.drop_first().len() implies (#[trigger] e.drop_first()[j]).0@ != key by {
            assert(e.drop_first()[j] == e[j + 1]);
        }
        lemma_lookup_absent(e.drop_first(), key);
    }
}

proof fn lemma_string_values_count(e: Seq<(String, Option<String>)>)
    ensures
        string_values(e).len() == 0 <==> (forall|j: int| 0 <= j < e.len() ==> (#[trigger] e[j]).1 is None),
        forall|j: int| only_string_at(e, j) ==> string_values(e) == seq![e[j].1->0@],
        string_values(e).len() == 1 ==> exists|j: int| only_string_at(e, j),
    decreases e.len(),
{
    if e.len() > 0 {
        let d = e.drop_last();
        let x = e.last();
        lemma_string_values_count(d);
        assert forall|j: int| 0 <= j < d.len() implies (#[trigger] d[j]) == e[j] by {}
        if string_values(e).len() == 0 {
            assert forall|j: int| 0 <= j < e.len() implies (#[trigger] e[j]).1 is None by {
                if j < d.len() {
                    assert(d[j] == e[j]);
                }
            }
        }
        assert forall|j: int| only_string_at(e, j) implies string_values(e) == seq![e[j].1->0@] by {
            if j == e.len() - 1 {
                assert forall|k: int| 0 <= k < d.len() implies (#[trigger] d[k]).1 is None by {
                    assert(d[k] == e[k]);
                }
                assert(string_values(d).len() == 0);
                assert(string_values(e) =~= seq![e[j].1->0@]);
            } else {
                assert(x.1 is None);
                assert(only_string_at(d, j)) by {
                    assert forall|k: int| 0 <= k < d.len() && k != j implies (#[trigger] d[k]).1 is None by {
                        assert(d[k] == e[k]);
                    }
                }
            }
        }
        if string_values(e).len() == 1 {
            if x.1 is Some {
                assert(string_values(d).len() == 0);
                let j = e.len() - 1;
                assert forall|k: int| 0 <= k < e.len() && k != j implies (#[trigger] e[k]).1 is None by {
                    assert(d[k] == e[k]);
                }
                assert(only_string_at(e, j));
            } else {
                assert(string_values(d).len() == 1);
                let j = choose|j: int| only_string_at(d, j);
                assert forall|k: int| 0 <= k < e.len() && k != j implies (#[trigger] e[k]).1 is None by {
                    if k < d.len() {
                        assert(d[k] == e[k]);
                    }
                }
                assert(e[j] == d[j]);
                assert(only_string_at(e, j));
            }
        }
    }
}

/// An extract object with none of the keys `narration`, `text`, `content`
/// or `script` gives text exactly when one of its values is a string, and
/// then that string (trimmed, when non-empty, as the scrape's narration).
pub proof fn lemma_unkeyed_object_single_string(v: ExtractedJson)
    requires
        v matches ExtractedJson::Object(e) && (forall|j: int|
            0 <= j < e@.len() ==> (#[trigger] e@[j]).0@ != "narration"@ && e@[j].0@ != "text"@
                && e@[j].0@ != "content"@ && e@[j].0@ != "script"@),
    ensures
        v matches ExtractedJson::Object(e) && {
            &&& (extract_text(v) is Some <==> exists|j: int| only_string_at(e@, j))
            &&& forall|j: int| only_string_at(e@, j) ==> extract_text(v) == Some(e@[j].1->0@)
            &&& (text_from_data(Some(v), None) is Some ==> exists|j: int| only_string_at(e@, j))
            &&& forall|j: int|
                only_string_at(e@, j) ==> text_from_data(Some(v), None) == nonempty_trim(e@[j].1->0@)
        },
{
    if let ExtractedJson::Object(e) = v {
        lemma_lookup_absent(e@, "narration"@);
        lemma_lookup_absent(e@, "text"@);
        lemma_lookup_absent(e@, "content"@);
        lemma_lookup_absent(e@, "script"@);
        lemma_string_values_count(e@);
        if exists|j: int| only_string_at(e@, j) {
            let j = choose|j: int| only_string_at(e@, j);
            assert(string_values(e@).len() == 1);
        }
    }
}

/// A search hit's JSON object with none of the keys `narration`,
/// `broadcastNarration`, `text`, `content` or `script` gives text only when
/// exactly one of its values is a string, and then that string, trimmed.
pub proof fn lemma_unkeyed_search_json_single_string(v: ExtractedJson)
    requires
        v matches ExtractedJson::Object(e) && (forall|j: int|
            0 <= j < e@.len() ==> (#[trigger] e@[j]).0@ != "narration"@ && e@[j].0@ != "text"@
                && e@[j].0@ != "content"@ && e@[j].0@ != "script"@ && e@[j].0@ != "broadcastNarration"@),
    ensures
        v matches ExtractedJson::Object(e) && {
            &&& (search_json_text(v) is Some ==> exists|j: int| only_string_at(e@, j))
            &&& forall|j: int| only_string_at(e@, j) ==> search_json_text(v) == nonempty_trim(e@[j].1->0@)
        },
{
    if let ExtractedJson::Object(e) = v {
        lemma_lookup_absent(e@, "narration"@);
        lemma_lookup_absent(e@, "broadcastNarration"@);
        lemma_lookup_absent(e@, "text"@);
        lemma_lookup_absent(e@, "content"@);
        lemma_lookup_absent(e@, "script"@);
        lemma_string_values_count(e@);
    }
}

fn trimmed_string(s: &str) -> (r: String)
    ensures
        r@ == trim(s@),
{
    let cs = chars_of(s);
    let t = trim_chars(cs.as_slice());
    string_from_chars(t.as_slice())
}

fn extract_text_exec(v: &ExtractedJson) -> (r: Option<String>)
    ensures
        match r {
            Some(t) => extract_text(*v) == Some(t@),
            None => extract_text(*v) is None,
        },
{
    match v {
        ExtractedJson::Text(s) => Some(s.clone()),
        ExtractedJson::Object(entries) => {
            let mut keyed = lookup_exec(entries.as_slice(), "narration");
            if keyed.is_none() {
                keyed = lookup_exec(entries.as_slice(), "text");
                if keyed.is_none() {
                    keyed = lookup_exec(entries.as_slice(), "content");
                    if keyed.is_none() {
                        keyed = lookup_exec(entries.as_slice(), "script");
                    }
                }
            }
            match keyed {
                Some(Some(t)) => Some(t),
                _ => {
                    let vals = string_values_exec(entries.as_slice());
                    if vals.len() == 1 {
                        Some(vals[0].clone())
                    } else {
                        None
                    }
                },
            }
        },
        ExtractedJson::Other => None,
    }
}

/// Pulls the narration out of a scrape response's extract and markdown.
pub fn extract_text_from_data(extract: &Option<ExtractedJson>, markdown: &Option<String>) -> (r: Option<String>)
    ensures
        match r {
            Some(t) => text_from_data(*extract, *markdown) == Some(t@),
            None => text_from_data(*extract, *markdown) is None,
        },
{
    match extract {
        Some(v) => match extract_text_exec(v) {
            Some(t) => {
                let tt = trimmed_string(t.as_str());
                if tt.as_str().is_empty() {
                } else {
                    return Some(tt);
                }
            },
            None => {},
        },
        None => {},
    }
    match markdown {
        Some(md) => {
            let t = trimmed_string(md.as_str());
            if !t.as_str().is_empty() && t.as_str().len() > 50 {
                Some(t)
            } else {
                None
            }
        },
        None => None,
    }
}

/// The narration in a search hit's extracted JSON: a non-empty trimmed
/// string; in an object, the first of "narration", "broadcastNarration",
/// "text", "content", "script" holding a non-empty trimmed string, else the
/// object's only string value when it is non-empty after trimming.
pub open spec fn search_json_text(v: ExtractedJson) -> Option<Seq<char>> {
    match v {
        ExtractedJson::Text(s) => nonempty_trim(s@),
        ExtractedJson::Object(entries) => {
            let keyed = |k: Seq<char>|
                match lookup(entries@, k) {
                    Some(Some(s)) => nonempty_trim(s),
                    _ => None,
                };
            match keyed("narration"@) {
                Some(t) => Some(t),
                None => match keyed("broadcastNarration"@) {
                    Some(t) => Some(t),
                    None => match keyed("text"@) {
                        Some(t) => Some(t),
                        None => match keyed("content"@) {
                            Some(t) => Some(t),
                            None => match keyed("script"@) {
                                Some(t) => Some(t),
                                None => if string_values(entries@).len() == 1 {
                                    nonempty_trim(string_values(entries@)[0])
                                } else {
                                    None
                                },
                            },
                        },
                    },
                },
            }
        },
        ExtractedJson::Other => None,
    }
}

fn keyed_text(entries: &[(String, Option<String>)], key: &str) -> (r: Option<String>)
    ensures
        match r {
            Some(t) => (match lookup(entries@, key@) {
                Some(Some(s)) => nonempty_trim(s),
                _ => None,
            }) == Some(t@),
            None => (match lookup(entries@, key@) {
                Some(Some(s)) => nonempty_trim(s),
                _ => None,
            }) is None,
        },
{
    match lookup_exec(entries, key) {
        Some(Some(s)) => {
            let t = trimmed_string(s.as_str());
            if t.as_str().is_empty() {
                None
            } else {
                Some(t)
            }
        },
        _ => None,
    }
}

/// Extracts narration text from a search hit's extracted JSON.
pub fn extract_text_from_json(v: &ExtractedJson) -> (r: Option<String>)
    ensures
        match r {
            Some(t) => search_json_text(*v) == Some(t@),
            None => search_json_text(*v) is None,
        },
{
    match v {
        ExtractedJson::Text(s) => {
            let t = trimmed_string(s.as_str());
            if t.as_str().is_empty() {
                None
            } else {
                Some(t)
            }
        },
        ExtractedJson::Object(entries) => {
            let e = entries.as_slice();
            let r1 = keyed_text(e, "narration");
            if r1.is_some() {
                return r1;
            }
            let r2 = keyed_text(e, "broadcastNarration");
            if r2.is_some() {
                return r2;
            }
            let r3 = keyed_text(e, "text");
            if r3.is_some() {
                return r3;
            }
            let r4 = keyed_text(e, "content");
            if r4.is_some() {
                return r4;
            }
            let r5 = keyed_text(e, "script");
            if r5.is_some() {
                return r5;
            }
            let vals = string_values_exec(e);
            if vals.len() == 1 {
                let t = trimmed_string(vals[0].as_str());
                if t.as_str().is_empty() {
                    None
                } else {
                    Some(t)
                }
            } else {
                None
            }
        },
        ExtractedJson::Other => None,
    }
}

/// The outcome of an article scrape.
#[derive(Debug)]
pub enum ScrapeOutcome {
    Narration(String),
    Paywall,
    Failed,
}

/// A successful scrape's outcome: the page is behind a paywall when the
/// extracted text holds the paywall signal; else its text is the narration;
/// without text the scrape failed.
pub fn classify_scrape(success: bool, data: Option<(Option<ExtractedJson>, Option<String>)>) -> (r: ScrapeOutcome)
    ensures
        !success ==> r is Failed,
        success ==> match data {
            None => r is Failed,
            Some((extract, markdown)) => match text_from_data(extract, markdown) {
                Some(t) => if contains_seq(t, PAYWALL_SIGNAL@) {
                    r is Paywall
                } else if t.len() > 0 {
                    r matches ScrapeOutcome::Narration(n) && n@ == t
                } else {
                    r is Failed
                },
                None => r is Failed,
            },
        },
{
    if !success {
        return ScrapeOutcome::Failed;
    }
    match data {
        None => ScrapeOutcome::Failed,
        Some((extract, markdown)) => match extract_text_from_data(&extract, &markdown) {
            Some(t) => {
                let cs = chars_of(t.as_str());
                let sig = chars_of(PAYWALL_SIGNAL);
                if crate::text::contains_chars(cs.as_slice(), sig.as_slice()) {
                    ScrapeOutcome::Paywall
                } else if !t.as_str().is_empty() {
                    ScrapeOutcome::Narration(t)
                } else {
                    ScrapeOutcome::Failed
                }
            },
            None => ScrapeOutcome::Failed,
        },
    }
}

/// The narration a scrape gave, if it gave one; a paywalled or failed
/// scrape gives none, and the article is then looked for by a search.
pub fn scraped_narration(outcome: ScrapeOutcome) -> (r: Option<String>)
    ensures
        match outcome {
            ScrapeOutcome::Narration(t) => r == Some(t),
            _ => r is None,
        },
{
    match outcome {
        ScrapeOutcome::Narration(t) => Some(t),
        _ => None,
    }
}

/// The narration of the fallback search: what it found, or none when the
/// search failed (its error is not passed on).
pub fn fallback_narration(result: Result<Option<String>, SdkError>) -> (r: Option<String>)
    ensures
        match result {
            Ok(x) => r == x,
            Err(_) => r is None,
        },
{
    match result {
        Ok(x) => x,
        Err(_) => None,
    }
}

/// One search hit: its description and its extracted JSON.
#[derive(Debug, Clone)]
pub struct SearchHit {
    pub description: Option<String>,
    pub extract_json: Option<ExtractedJson>,
}

/// What to do with search results.
#[derive(Debug)]
pub enum SearchOutcome {
    /// A hit carried narration.
    Narration(String),
    /// No hit carried narration; narrate from these descriptions.
    Context(String),
    /// Nothing usable.
    Nothing,
}

/// The first narration among the first `n` hits.
pub open spec fn first_hit_narration(hits: Seq<SearchHit>, n: nat) -> Option<Seq<char>>
    decreases n,
{
    if n == 0 {
        None
    } else {
        match first_hit_narration(hits, (n - 1) as nat) {
            Some(t) => Some(t),
            None => match hits[n - 1].extract_json {
                Some(v) => search_json_text(v),
                None => None,
            },
        }
    }
}

/// The descriptions of the first `n` hits, each trimmed and followed by a
/// newline, blank ones skipped.
pub open spec fn hit_context(hits: Seq<SearchHit>, n: nat) -> Seq<char>
    decreases n,
{
    if n == 0 {
        Seq::empty()
    } else {
        hit_context(hits, (n - 1) as nat) + match hits[n - 1].description {
            Some(d) => if trim(d@).len() > 0 {
                trim(d@).push('\n')
            } else {
                Seq::empty()
            },
            None => Seq::empty(),
        }
    }
}

/// Reads search results: nothing when the search failed or found nothing;
/// the first hit's narration when one has some; else the hits' descriptions
/// as context, when there are any.
pub fn search_outcome(success: bool, data: Option<Vec<SearchHit>>) -> (r: SearchOutcome)
    ensures
        !success ==> r is Nothing,
        success ==> match data {
            None => r is Nothing,
            Some(hits) => if hits@.len() == 0 {
                r is Nothing
            } else {
                match first_hit_narration(hits@, hits@.len()) {
                    Some(t) => r matches SearchOutcome::Narration(n) && n@ == t,
                    None => if hit_context(hits@, hits@.len()).len() == 0 {
                        r is Nothing
                    } else {
                        r matches SearchOutcome::Context(c) && c@ == hit_context(hits@, hits@.len())
                    },
                }
            },
        },
{
    if !success {
        return SearchOutcome::Nothing;
    }
    let hits = match data {
        Some(h) => h,
        None => return SearchOutcome::Nothing,
    };
    if hits.len() == 0 {
        return SearchOutcome::Nothing;
    }
    let ghost hv = hits@;
    assert(data matches Some(h) && h@ == hv);
    let mut i: usize = 0;
    while i < hits.len()
        invariant
            i <= hits@.len(),
            hits@ == hv,
            success,
            data matches Some(h) && h@ == hv,
            hv.len() > 0,
            first_hit_narration(hits@, i as nat) is None,
        decreases hits@.len() - i,
    {
        match &hits[i].extract_json {
            Some(v) => match extract_text_from_json(v) {
                Some(t) => {
                    proof {
                        lemma_first_hit_stays(hits@, (i + 1) as nat, hits@.len());
                    }
                    return SearchOutcome::Narration(t);
                },
                None => {},
            },
            None => {},
        }
        i = i + 1;
    }
    assert(first_hit_narration(hv, hv.len()) is None);
    let mut ctx: Vec<char> = Vec::new();
    let mut j: usize = 0;
    while j < hits.len()
        invariant
            j <= hits@.len(),
            ctx@ == hit_context(hits@, j as nat),
        decreases hits@.len() - j,
    {
        match &hits[j].description {
            Some(d) => {
                let cs = chars_of(d.as_str());
                let t = trim_chars(cs.as_slice());
                if t.len() > 0 {
                    crate::text::extend_chars(&mut ctx, t.as_slice());
                    ctx.push('\n');
                }
            },
            None => {},
        }
        assert(ctx@ =~= hit_context(hits@, (j + 1) as nat));
        j = j + 1;
    }
    if ctx.len() == 0 {
        SearchOutcome::Nothing
    } else {
        SearchOutcome::Context(string_from_chars(ctx.as_slice()))
    }
}

proof fn lemma_first_hit_stays(hits: Seq<SearchHit>, k: nat, n: nat)
    requires
        k <= n,
        first_hit_narration(hits, k) is Some,
    ensures
        first_hit_narration(hits, n) == first_hit_narration(hits, k),
    decreases n - k,
{
    if k < n {
        lemma_first_hit_stays(hits, k, (n - 1) as nat);
    }
}

/// `s` with `&`, `<`, `>` and `"` escaped for HTML.
pub open spec fn html_escape_spec(s: Seq<char>) -> Seq<char>
    decreases s.len(),
{
    if s.len() == 0 {
        Seq::empty()
    } else {
        let c = s.last();
        html_escape_spec(s.drop_last()) + if c == '&' {
            "&amp;"@
        } else if c == '<' {
            "&lt;"@
        } else if c == '>' {
            "&gt;"@
        } else if c == '"' {
            "&quot;"@
        } else {
            seq![c]
        }
    }
}

/// Escaped text holds no markup: no `<`, `>` or `"` is left in it.
pub proof fn lemma_html_escape_no_markup(s: Seq<char>)
    ensures
        forall|i: int|
            0 <= i < html_escape_spec(s).len() ==> #[trigger] html_escape_spec(s)[i] != '<'
                && html_escape_spec(s)[i] != '>' && html_escape_spec(s)[i] != '"',
    decreases s.len(),
{
    reveal_strlit("&amp;");
    reveal_strlit("&lt;");
    reveal_strlit("&gt;");
    reveal_strlit("&quot;");
    if s.len() > 0 {
        lemma_html_escape_no_markup(s.drop_last());
        let p = html_escape_spec(s.drop_last());
        let c = s.last();
        let t = if c == '&' {
            "&amp;"@
        } else if c == '<' {
            "&lt;"@
        } else if c == '>' {
            "&gt;"@
        } else if c == '"' {
            "&quot;"@
        } else {
            seq![c]
        };
        assert(html_escape_spec(s) == p + t);
        assert forall|i: int| 0 <= i < (p + t).len() implies #[trigger] (p + t)[i] != '<' && (p + t)[i]
            != '>' && (p + t)[i] != '"' by {
            if i >= p.len() {
                assert((p + t)[i] == t[i - p.len()]);
            } else {
                assert((p + t)[i] == p[i]);
            }
        }
    }
}

/// Escapes `&`, `<`, `>` and `"` for HTML.
pub fn html_escape(s: &str) -> (r: String)
    ensures
        r@ == html_escape_spec(s@),
{
    let cs = chars_of(s);
    let mut out: Vec<char> = Vec::new();
    let mut i: usize = 0;
    while i < cs.len()
        invariant
            i <= cs@.len(),
            out@ == html_escape_spec(cs@.take(i as int)),
        decreases cs@.len() - i,
    {
        let c = cs[i];
        if c == '&' {
            crate::text::push_str_chars(&mut out, "&amp;");
        } else if c == '<' {
            crate::text::push_str_chars(&mut out, "&lt;");
        } else if c == '>' {
            crate::text::push_str_chars(&mut out, "&gt;");
        } else if c == '"' {
            crate::text::push_str_chars(&mut out, "&quot;");
        } else {
            out.push(c);
        }
        assert(cs@.take(i + 1).drop_last() =~= cs@.take(i as int));
        assert(out@ =~= html_escape_spec(cs@.take(i + 1)));
        i = i + 1;
    }
    assert(cs@.take(cs@.len() as int) =~= cs@);
    string_from_chars(out.as_slice())
}

/// The HTML page that carries search context for narration.
pub open spec fn context_page(title: Seq<char>, context: Seq<char>) -> Seq<char> {
    "<html><body><h1>"@ + html_escape_spec(title) + "</h1><article>"@ + html_escape_spec(context)
        + "</article></body></html>"@
}

/// A `data:` URL carrying the context page, Base64-encoded.
pub fn context_data_url(title: &str, context: &str) -> (r: String)
    ensures
        r@ == "data:text/html;base64,"@ + b64_encode_spec(encode_utf8(context_page(title@, context@))),
{
    let mut html = String::from_str("<html><body><h1>");
    let t = html_escape(title);
    html.append(t.as_str());
    html.append("</h1><article>");
    let c = html_escape(context);
    html.append(c.as_str());
    html.append("</article></body></html>");
    let enc = b64_encode(html.as_str().as_bytes());
    let mut r = String::from_str("data:text/html;base64,");
    r.append(enc.as_str());
    r
}

} // verus!
