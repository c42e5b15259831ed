//! The library's error type.
use vstd::prelude::*;

verus! {

#[verifier::external_type_specification]
#[verifier::external_body]
pub struct ExHttpError(reqwest::Error);

#[verifier::external_type_specification]
#[verifier::external_body]
pub struct ExIoError(std::io::Error);

#[verifier::external_type_specification]
#[verifier::external_body]
pub struct ExJsonError(serde_json::Error);

/// Errors of each pipeline stage.
#[derive(Debug)]
#[non_exhaustive]
pub enum SdkError {
    Tts(String),
    Llm(String),
    MediaSearch(String),
    MediaPlanner(String),
    WebScraper(String),
    AudioStorage(String),
    Cache(String),
    VideoRender(String),
    Config(String),
    Http(reqwest::Error),
    Io(std::io::Error),
    Json(serde_json::Error),
}

} // verus!
