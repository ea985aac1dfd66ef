//! Bookkeeping around the external fetch tool.
//!
//! The tool itself runs out of process and is invoked outside the
//! library; here live the computations around it: the target path a
//! song's download writes to, and the bookkeeping of a finished fetch.
//! A fetch whose target file already exists short-circuits without
//! invoking the tool and still reports success, with the file attached
//! either way.

use vstd::prelude::*;
use vstd::string::StringExecFns;

use crate::song::{Song, SongView};

verus! {

/// File name of a song's download target: the external identifier with
/// the audio suffix.
pub fn target_file_name(id: &String) -> (r: String)
    ensures
        r@ == id@ + ".mp3"@,
{
    let mut r = id.clone();
    r.append(".mp3");
    r
}

/// Full path of a song's download target inside `directory`.
pub fn target_path(directory: &String, id: &String) -> (r: String)
    ensures
        r@ == directory@ + "/"@ + id@ + ".mp3"@,
{
    let mut r = directory.clone();
    r.append("/");
    r.append(id.as_str());
    r.append(".mp3");
    r
}

/// A finished download: the same song with its local file attached, so
/// the success event carries the file whether the tool ran or the target
/// already existed.
pub fn finish_download(song: Song, path: String) -> (r: Song)
    ensures
        r@ == (SongView { file: Some(path@), ..song@ }),
{
    Song { file: Some(path), ..song }
}

} // verus!
