//! Track descriptors: one immutable record per audio file in the queue.

use vstd::prelude::*;

verus! {

/// What a tag reader found in an audio file's primary tag.
/// Either field may be missing from the tag itself.
pub struct TagInfo {
    pub title: Option<String>,
    pub artist: Option<String>,
}

/// One entry of the playback queue, immutable once constructed.
///
/// `path` is the file's location, kept as raw bytes and used as the
/// track's identity; `duration` is in whole seconds; `bitrate` is
/// informational only and unused by the controller.
#[derive(Clone, Debug, PartialEq)]
pub struct Track {
    pub path: Vec<u8>,
    pub title: String,
    pub artist: String,
    pub duration: u64,
    pub bitrate: Option<u32>,
}

/// Artist shown when the tag names none.
pub open spec fn unknown_artist() -> Seq<char> {
    "unknown"@
}

/// File name shown when the path has none.
pub open spec fn unknown_file_name() -> Seq<char> {
    "unknown path"@
}

impl Track {
    /// Build a descriptor from what was read off the file.
    ///
    /// `path_display` is the whole path as text and `file_name` its last
    /// component, if it has one. A file without any primary tag is titled
    /// by its file name (or, failing that, by the whole path as text);
    /// a tag missing its title falls back to the file name, and a
    /// missing artist to "unknown".
    pub fn new(
        path: Vec<u8>,
        path_display: String,
        file_name: Option<String>,
        tag: Option<TagInfo>,
        duration: u64,
        bitrate: Option<u32>,
    ) -> (t: Track)
        ensures
            t.path == path,
            t.duration == duration,
            t.bitrate == bitrate,
            tag is None ==> t.title@ == (match file_name {
                Some(f) => f@,
                None => path_display@,
            }) && t.artist@ == unknown_artist(),
            tag matches Some(ti) ==> t.title@ == (match ti.title {
                Some(s) => s@,
                None => match file_name {
                    Some(f) => f@,
                    None => unknown_file_name(),
                },
            }),
            tag matches Some(ti) ==> t.artist@ == (match ti.artist {
                Some(s) => s@,
                None => unknown_artist(),
            }),
    {
        match tag {
            None => {
                let title: String = match file_name {
                    Some(f) => f,
                    None => path_display,
                };
                Track { path, title, artist: "unknown".to_owned(), duration, bitrate }
            },
            Some(ti) => {
                let name: String = match file_name {
                    Some(f) => f,
                    None => "unknown path".to_owned(),
                };
                let title: String = match ti.title {
                    Some(s) => s,
                    None => name,
                };
                let artist: String = match ti.artist {
                    Some(s) => s,
                    None => "unknown".to_owned(),
                };
                Track { path, title, artist, duration, bitrate }
            },
        }
    }
}

} // verus!
