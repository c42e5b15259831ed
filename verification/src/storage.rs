//! Content-addressed audio storage: where a piece of audio is kept.
use vstd::prelude::*;

use crate::codec::{content_hash, hex_lower, sha256};
use crate::text::{chars_of, string_from_chars};

verus! {

/// Stores audio files under a base directory, each at a path derived from
/// the SHA-256 of its bytes.
pub struct FsAudioStorage {
    base_dir: String,
}

impl FsAudioStorage {
    pub closed spec fn base_dir_spec(&self) -> Seq<char> {
        self.base_dir@
    }

    pub fn new(base_dir: String) -> (r: Self)
        ensures
            r.base_dir_spec() == base_dir@,
    {
        FsAudioStorage { base_dir }
    }

    pub fn base_dir(&self) -> (r: &String)
        ensures
            r@ == self.base_dir_spec(),
    {
        &self.base_dir
    }
}

/// The lower-case hex SHA-256 of some audio.
pub open spec fn audio_hash(audio: Seq<u8>) -> Seq<char> {
    hex_lower(sha256(audio))
}

/// The relative path of the audio whose hash is `hash`:
/// `<first two digits>/<hash>.mp3`.
pub open spec fn rel_path_of(hash: Seq<char>) -> Seq<char> {
    hash.take(2) + "/"@ + hash + ".mp3"@
}

/// Where a piece of audio is kept, relative to the base directory.
pub struct AudioLocation {
    /// The directory named by the first two hex digits of the hash.
    pub subdir: String,
    /// `<hash>.mp3`.
    pub file_name: String,
    /// `<subdir>/<file_name>`.
    pub rel_path: String,
}

pub fn audio_location(audio: &[u8]) -> (r: AudioLocation)
    ensures
        r.subdir@ == audio_hash(audio@).take(2),
        r.file_name@ == audio_hash(audio@) + ".mp3"@,
        r.rel_path@ == rel_path_of(audio_hash(audio@)),
        r.rel_path@ == r.subdir@ + "/"@ + r.file_name@,
{
    let hash = content_hash(audio);
    let hc = chars_of(hash.as_str());
    let mut sd: Vec<char> = Vec::new();
    sd.push(hc[0]);
    sd.push(hc[1]);
    assert(sd@ =~= hc@.take(2));
    let subdir = string_from_chars(sd.as_slice());
    let mut file_name = hash.clone();
    file_name.append(".mp3");
    let mut rel_path = subdir.clone();
    rel_path.append("/");
    rel_path.append(file_name.as_str());
    AudioLocation { subdir, file_name, rel_path }
}

/// Two hashes that give the same relative path are the same hash: audio with
/// different digests never shares a file.
pub proof fn lemma_rel_path_injective(h1: Seq<char>, h2: Seq<char>)
    requires
        h1.len() == 64,
        h2.len() == 64,
        rel_path_of(h1) == rel_path_of(h2),
    ensures
        h1 == h2,
{
    reveal_strlit("/");
    reveal_strlit(".mp3");
    let p1 = rel_path_of(h1);
    let p2 = rel_path_of(h2);
    assert(p1.subrange(3, 67) =~= h1);
    assert(p2.subrange(3, 67) =~= h2);
}

/// Identical audio bytes are stored at the same path; audio at the same path
/// has the same digest.
pub proof fn lemma_content_addressed(a: Seq<u8>, b: Seq<u8>)
    requires
        sha256(a).len() == 32,
        sha256(b).len() == 32,
    ensures
        a == b ==> rel_path_of(audio_hash(a)) == rel_path_of(audio_hash(b)),
        rel_path_of(audio_hash(a)) == rel_path_of(audio_hash(b)) ==> audio_hash(a) == audio_hash(b),
{
    crate::codec::lemma_hex_len(sha256(a));
    crate::codec::lemma_hex_len(sha256(b));
    if rel_path_of(audio_hash(a)) == rel_path_of(audio_hash(b)) {
        lemma_rel_path_injective(audio_hash(a), audio_hash(b));
    }
}

} // verus!
