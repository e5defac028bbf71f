// HTTP streaming of audio files to Squeeze players: what is queued for a
// player and how a file is announced. The HTTP server itself is run by the
// caller; it serves GET /stream?player=<MAC>&gen=<generation>.

use vstd::prelude::*;
use crate::paths::{extension_of, is_extension_of, path_extension, plain_path};
use crate::text::{ascii_lower, chars_eq_str, str_chars, to_ascii_lower};

verus! {

/// Entry in the streaming queue for a player.
#[derive(Debug, Clone)]
pub struct StreamEntry {
    pub path: String,
    pub generation: u64,
    /// Where in the file the stream starts (for seeking).
    pub byte_offset: u64,
}

/// The content type served for a file extension (already lowercased).
pub open spec fn stream_content_type(ext: Seq<char>) -> Seq<char> {
    if ext == "flac"@ {
        "audio/flac"@
    } else if ext == "mp3"@ {
        "audio/mpeg"@
    } else if ext == "ogg"@ || ext == "oga"@ {
        "audio/ogg"@
    } else if ext == "aac"@ || ext == "m4a"@ {
        "audio/mp4"@
    } else if ext == "wav"@ || ext == "wave"@ {
        "audio/wav"@
    } else if ext == "aif"@ || ext == "aiff"@ {
        "audio/aiff"@
    } else if ext == "wma"@ {
        "audio/x-ms-wma"@
    } else {
        "application/octet-stream"@
    }
}

/// Each audio format is served under its own type, found from either of its
/// extensions and from nothing else: FLAC as "audio/flac", MP3 as
/// "audio/mpeg", Ogg (ogg, oga) as "audio/ogg", AAC (aac, m4a) as
/// "audio/mp4", WAV (wav, wave) as "audio/wav", AIFF (aif, aiff) as
/// "audio/aiff", WMA as "audio/x-ms-wma"; any other extension, an empty one
/// included, as "application/octet-stream". Case does not matter.
pub proof fn lemma_stream_content_types(ext: Seq<char>)
    ensures
        (stream_content_type(ext) == "audio/flac"@) == (ext == "flac"@),
        (stream_content_type(ext) == "audio/mpeg"@) == (ext == "mp3"@),
        (stream_content_type(ext) == "audio/ogg"@) == (ext == "ogg"@ || ext == "oga"@),
        (stream_content_type(ext) == "audio/mp4"@) == (ext == "aac"@ || ext == "m4a"@),
        (stream_content_type(ext) == "audio/wav"@) == (ext == "wav"@ || ext == "wave"@),
        (stream_content_type(ext) == "audio/aiff"@) == (ext == "aif"@ || ext == "aiff"@),
        (stream_content_type(ext) == "audio/x-ms-wma"@) == (ext == "wma"@),
        (stream_content_type(ext) == "application/octet-stream"@) == !(ext == "flac"@ || ext
            == "mp3"@ || ext == "ogg"@ || ext == "oga"@ || ext == "aac"@ || ext == "m4a"@ || ext
            == "wav"@ || ext == "wave"@ || ext == "aif"@ || ext == "aiff"@ || ext == "wma"@),
        (ext == "wav"@ || ext == "wave"@) ==> stream_content_type(ascii_lower(ext))
            == "audio/wav"@,
{
    reveal_strlit("audio/flac");
    reveal_strlit("audio/mpeg");
    reveal_strlit("audio/ogg");
    reveal_strlit("audio/mp4");
    reveal_strlit("audio/wav");
    reveal_strlit("audio/aiff");
    reveal_strlit("audio/x-ms-wma");
    reveal_strlit("application/octet-stream");
    reveal_strlit("wav");
    reveal_strlit("wave");
    reveal_strlit("flac");
    reveal_strlit("mp3");
    reveal_strlit("ogg");
    reveal_strlit("oga");
    reveal_strlit("aac");
    reveal_strlit("m4a");
    reveal_strlit("aif");
    reveal_strlit("aiff");
    reveal_strlit("wma");
    assert("audio/flac"@[6] != "audio/mpeg"@[6]);
    assert("audio/flac"@.len() != "audio/ogg"@.len());
    assert("audio/flac"@.len() != "audio/mp4"@.len());
    assert("audio/flac"@.len() != "audio/wav"@.len());
    assert("audio/flac"@[6] != "audio/aiff"@[6]);
    assert("audio/flac"@.len() != "audio/x-ms-wma"@.len());
    assert("audio/flac"@.len() != "application/octet-stream"@.len());
    assert("audio/mpeg"@.len() != "audio/ogg"@.len());
    assert("audio/mpeg"@.len() != "audio/mp4"@.len());
    assert("audio/mpeg"@.len() != "audio/wav"@.len());
    assert("audio/mpeg"@[6] != "audio/aiff"@[6]);
    assert("audio/mpeg"@.len() != "audio/x-ms-wma"@.len());
    assert("audio/mpeg"@.len() != "application/octet-stream"@.len());
    assert("audio/ogg"@[6] != "audio/mp4"@[6]);
    assert("audio/ogg"@[6] != "audio/wav"@[6]);
    assert("audio/ogg"@.len() != "audio/aiff"@.len());
    assert("audio/ogg"@.len() != "audio/x-ms-wma"@.len());
    assert("audio/ogg"@.len() != "application/octet-stream"@.len());
    assert("audio/mp4"@[6] != "audio/wav"@[6]);
    assert("audio/mp4"@.len() != "audio/aiff"@.len());
    assert("audio/mp4"@.len() != "audio/x-ms-wma"@.len());
    assert("audio/mp4"@.len() != "application/octet-stream"@.len());
    assert("audio/wav"@.len() != "audio/aiff"@.len());
    assert("audio/wav"@.len() != "audio/x-ms-wma"@.len());
    assert("audio/wav"@.len() != "application/octet-stream"@.len());
    assert("audio/aiff"@.len() != "audio/x-ms-wma"@.len());
    assert("audio/aiff"@.len() != "application/octet-stream"@.len());
    assert("audio/x-ms-wma"@.len() != "application/octet-stream"@.len());
    assert("flac"@.len() != "mp3"@.len());
    assert("flac"@.len() != "ogg"@.len());
    assert("flac"@.len() != "oga"@.len());
    assert("flac"@.len() != "aac"@.len());
    assert("flac"@.len() != "m4a"@.len());
    assert("flac"@.len() != "wav"@.len());
    assert("flac"@[0] != "wave"@[0]);
    assert("flac"@.len() != "aif"@.len());
    assert("flac"@[0] != "aiff"@[0]);
    assert("flac"@.len() != "wma"@.len());
    assert("mp3"@[0] != "ogg"@[0]);
    assert("mp3"@[0] != "oga"@[0]);
    assert("mp3"@[0] != "aac"@[0]);
    assert("mp3"@[1] != "m4a"@[1]);
    assert("mp3"@[0] != "wav"@[0]);
    assert("mp3"@.len() != "wave"@.len());
    assert("mp3"@[0] != "aif"@[0]);
    assert("mp3"@.len() != "aiff"@.len());
    assert("mp3"@[0] != "wma"@[0]);
    assert("ogg"@[2] != "oga"@[2]);
    assert("ogg"@[0] != "aac"@[0]);
    assert("ogg"@[0] != "m4a"@[0]);
    assert("ogg"@[0] != "wav"@[0]);
    assert("ogg"@.len() != "wave"@.len());
    assert("ogg"@[0] != "aif"@[0]);
    assert("ogg"@.len() != "aiff"@.len());
    assert("ogg"@[0] != "wma"@[0]);
    assert("oga"@[0] != "aac"@[0]);
    assert("oga"@[0] != "m4a"@[0]);
    assert("oga"@[0] != "wav"@[0]);
    assert("oga"@.len() != "wave"@.len());
    assert("oga"@[0] != "aif"@[0]);
    assert("oga"@.len() != "aiff"@.len());
    assert("oga"@[0] != "wma"@[0]);
    assert("aac"@[0] != "m4a"@[0]);
    assert("aac"@[0] != "wav"@[0]);
    assert("aac"@.len() != "wave"@.len());
    assert("aac"@[1] != "aif"@[1]);
    assert("aac"@.len() != "aiff"@.len());
    assert("aac"@[0] != "wma"@[0]);
    assert("m4a"@[0] != "wav"@[0]);
    assert("m4a"@.len() != "wave"@.len());
    assert("m4a"@[0] != "aif"@[0]);
    assert("m4a"@.len() != "aiff"@.len());
    assert("m4a"@[0] != "wma"@[0]);
    assert("wav"@.len() != "wave"@.len());
    assert("wav"@[0] != "aif"@[0]);
    assert("wav"@.len() != "aiff"@.len());
    assert("wav"@[1] != "wma"@[1]);
    assert("wave"@.len() != "aif"@.len());
    assert("wave"@[0] != "aiff"@[0]);
    assert("wave"@.len() != "wma"@.len());
    assert("aif"@.len() != "aiff"@.len());
    assert("aif"@[0] != "wma"@[0]);
    assert("aiff"@.len() != "wma"@.len());
    if ext == "wav"@ {
        assert(ascii_lower(ext) =~= ext);
    }
    if ext == "wave"@ {
        assert(ascii_lower(ext) =~= ext);
    }
}

pub fn content_type_for_extension(ext: &[char]) -> (s: &'static str)
    ensures
        s@ == stream_content_type(ext@),
{
    if chars_eq_str(ext, "flac") {
        "audio/flac"
    } else if chars_eq_str(ext, "mp3") {
        "audio/mpeg"
    } else if chars_eq_str(ext, "ogg") || chars_eq_str(ext, "oga") {
        "audio/ogg"
    } else if chars_eq_str(ext, "aac") || chars_eq_str(ext, "m4a") {
        "audio/mp4"
    } else if chars_eq_str(ext, "wav") || chars_eq_str(ext, "wave") {
        "audio/wav"
    } else if chars_eq_str(ext, "aif") || chars_eq_str(ext, "aiff") {
        "audio/aiff"
    } else if chars_eq_str(ext, "wma") {
        "audio/x-ms-wma"
    } else {
        "application/octet-stream"
    }
}

/// The lowercased extension of a plain path, or empty when it has none.
pub open spec fn lower_extension(path: Seq<char>) -> Seq<char> {
    match extension_of(path) {
        Some(x) => ascii_lower(x),
        None => Seq::empty(),
    }
}

/// The lowercased extension of a path, or empty when it has none.
pub fn lowercase_extension(path: &str) -> (e: Vec<char>)
    ensures
        e@.len() == 0 || exists|x: Seq<char>| #[trigger] is_extension_of(path@, x) && e@ == ascii_lower(x),
        plain_path(path@) ==> e@ == lower_extension(path@),
{
    match path_extension(path) {
        Some(x) => {
            let cs = str_chars(x.as_str());
            to_ascii_lower(cs.as_slice())
        },
        None => Vec::new(),
    }
}

/// The content type of an audio file, from its extension (case-insensitive);
/// a file without an extension is served as "application/octet-stream".
pub fn guess_content_type(path: &str) -> (s: String)
    ensures
        s@ == stream_content_type(Seq::empty()) || exists|x: Seq<char>| #[trigger] is_extension_of(path@, x) && s@ == stream_content_type(ascii_lower(x)),
        plain_path(path@) ==> s@ == stream_content_type(lower_extension(path@)),
{
    let e = lowercase_extension(path);
    if e.len() == 0 {
        assert(e@ =~= Seq::<char>::empty());
    }
    String::from_str(content_type_for_extension(e.as_slice()))
}

} // verus!
