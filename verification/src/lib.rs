//! Narrated-video pipeline: text chunking, captions, media planning and the
//! decision logic that drives narration, speech, media and rendering.
pub mod text;
pub mod sentences;
pub mod error;
pub mod types;
pub mod codec;
pub mod chunks;
pub mod pipeline;
pub mod srt;
pub mod render;
pub mod openai;
pub mod planner;
pub mod firecrawl;
pub mod pexels;
pub mod speech;
pub mod storage;
