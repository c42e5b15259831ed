# narrate-this

Turns text, article URLs or web searches into narrated videos: narration,
text transforms, speech with word captions, stock or user media, audio
storage and an FFmpeg render.

- `src/` is the verified library (Verus). It holds the pipeline's decisions
  as a state machine (`pipeline`), sentence splitting and timed chunking,
  SRT subtitles, the FFmpeg argument list, prompt building and reply
  parsing for the LLM, Firecrawl and Pexels result handling, speech stream
  and alignment handling, content hashing and Base64, and content-addressed
  storage paths. Every function carries a contract proved by Verus; the
  laws of the pipeline (invariant, cache keys, optional stages, error
  handling) are proof functions in `src/pipeline.rs`.
- `app/` is the asynchronous side: the provider traits and their HTTP,
  file-system, database and FFmpeg implementations, the builder, and the
  loop that performs each command of a run and hands the answer back.
- `tests/` exercises the library on concrete values.
