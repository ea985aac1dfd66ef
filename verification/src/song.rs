//! The catalog entities shared by every service: songs and playlists.

use vstd::prelude::*;

verus! {

/// Mathematical image of a [`Song`]: every text field as a sequence of
/// characters, every number as an unbounded integer.
pub struct SongView {
    pub sql_id: int,
    pub name: Seq<char>,
    pub artist: Seq<char>,
    pub album: Seq<char>,
    pub id: Seq<char>,
    pub duration: int,
    pub file: Option<Seq<char>>,
}

/// A catalog entry.  `sql_id` is the stable identity the storage
/// collaborator assigned (zero until cached), `id` the identifier on the
/// external source, and `file` the local file path once the song has been
/// downloaded (`Some` means "downloaded").
pub struct Song {
    pub sql_id: usize,
    pub name: String,
    pub artist: String,
    pub album: String,
    pub id: String,
    pub duration: usize,
    pub file: Option<String>,
}

impl View for Song {
    type V = SongView;

    open spec fn view(&self) -> SongView {
        SongView {
            sql_id: self.sql_id as int,
            name: self.name@,
            artist: self.artist@,
            album: self.album@,
            id: self.id@,
            duration: self.duration as int,
            file: match self.file {
                Some(p) => Some(p@),
                None => None,
            },
        }
    }
}

/// Two songs are the same catalog identity when they name the same item
/// on the external source; metadata plays no part in it.
pub open spec fn same_identity(a: SongView, b: SongView) -> bool {
    a.id == b.id
}

impl Song {
    pub fn new(
        sql_id: usize,
        name: String,
        artist: String,
        album: String,
        id: String,
        duration: usize,
        file: Option<String>,
    ) -> (song: Self)
        ensures
            song@ == (SongView {
                sql_id: sql_id as int,
                name: name@,
                artist: artist@,
                album: album@,
                id: id@,
                duration: duration as int,
                file: match file {
                    Some(p) => Some(p@),
                    None => None,
                },
            }),
    {
        Self { sql_id, name, artist, album, id, duration, file }
    }

    /// Whether this song names the same catalog identity as `other`.
    pub fn is_same_identity(&self, other: &Song) -> (r: bool)
        ensures
            r == same_identity(self@, other@),
    {
        self.id == other.id
    }

    /// Whether the song is already downloaded, that is, has a local file.
    pub fn is_downloaded(&self) -> (r: bool)
        ensures
            r == (self@.file is Some),
    {
        self.file.is_some()
    }
}

impl Clone for Song {
    fn clone(&self) -> (res: Self)
        ensures
            res == *self,
    {
        Song {
            sql_id: self.sql_id,
            name: self.name.clone(),
            artist: self.artist.clone(),
            album: self.album.clone(),
            id: self.id.clone(),
            duration: self.duration,
            file: match &self.file {
                Some(p) => Some(p.clone()),
                None => None,
            },
        }
    }
}

impl PartialEq for Song {
    /// Equality between songs is identity equality.
    fn eq(&self, other: &Song) -> (r: bool) {
        self.id == other.id
    }
}

impl vstd::std_specs::cmp::PartialEqSpecImpl for Song {
    open spec fn obeys_eq_spec() -> bool {
        true
    }

    open spec fn eq_spec(&self, other: &Song) -> bool {
        same_identity(self@, other@)
    }
}

/// A named, ordered collection of songs.  `songs` is `None` until the
/// storage collaborator has loaded the playlist's contents.
pub struct Playlist {
    pub id: usize,
    pub name: String,
    pub songs: Option<Vec<Song>>,
}

/// Which page of the user interface is showing.  The interface itself is
/// not part of this core; the pages are listed here because the services
/// report state transitions in terms of them.
#[derive(Clone, Copy, PartialEq, Eq, Structural)]
pub enum State {
    SearchPlaylists,
    Search,
    MakePlaylist,
    Playlist,
    UploadFile,
}

impl Default for State {
    fn default() -> (r: Self)
        ensures
            r == State::SearchPlaylists,
    {
        State::SearchPlaylists
    }
}

} // verus!
