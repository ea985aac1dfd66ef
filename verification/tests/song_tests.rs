use resonate::fetch::{finish_download, target_file_name, target_path};
use resonate::song::{Playlist, Song, State};
use resonate::utility::sync;

fn song(id: &str, sql_id: usize) -> Song {
    Song::new(
        sql_id,
        "Name".to_string(),
        "Artist".to_string(),
        "Album".to_string(),
        id.to_string(),
        240,
        None,
    )
}

#[test]
fn song_new_keeps_every_field() {
    let s = Song::new(
        7,
        "A Name".to_string(),
        "An Artist".to_string(),
        "An Album".to_string(),
        "ext-id".to_string(),
        301,
        Some("/tmp/ext-id.mp3".to_string()),
    );
    assert_eq!(s.sql_id, 7);
    assert_eq!(s.name, "A Name");
    assert_eq!(s.artist, "An Artist");
    assert_eq!(s.album, "An Album");
    assert_eq!(s.id, "ext-id");
    assert_eq!(s.duration, 301);
    assert_eq!(s.file.as_deref(), Some("/tmp/ext-id.mp3"));
}

#[test]
fn song_equality_is_identity_not_metadata() {
    let a = song("same", 1);
    let mut b = song("same", 2);
    b.name = "Entirely different".to_string();
    assert!(a == b);
    assert!(a.is_same_identity(&b));
    let c = song("other", 1);
    assert!(a != c);
    assert!(!a.is_same_identity(&c));
}

#[test]
fn song_downloaded_means_file_present() {
    let bare = song("x", 1);
    assert!(!bare.is_downloaded());
    let done = finish_download(bare, "/music/x.mp3".to_string());
    assert!(done.is_downloaded());
    assert_eq!(done.file.as_deref(), Some("/music/x.mp3"));
    assert_eq!(done.id, "x");
    assert_eq!(done.duration, 240);
}

#[test]
fn clone_copies_every_field() {
    let original = song("c", 5);
    let copy = original.clone();
    assert_eq!(copy.sql_id, original.sql_id);
    assert_eq!(copy.name, original.name);
    assert_eq!(copy.id, original.id);
    assert_eq!(copy.file, original.file);
}

#[test]
fn target_names_follow_the_identifier() {
    assert_eq!(target_file_name(&"abc".to_string()), "abc.mp3");
    assert_eq!(
        target_path(&"/data/music".to_string(), &"abc".to_string()),
        "/data/music/abc.mp3"
    );
}

#[test]
fn playlist_holds_its_songs() {
    let p = Playlist { id: 3, name: "Mix".to_string(), songs: Some(vec![song("a", 1)]) };
    assert_eq!(p.id, 3);
    assert_eq!(p.name, "Mix");
    assert_eq!(p.songs.unwrap().len(), 1);
    let unloaded = Playlist { id: 4, name: "Later".to_string(), songs: None };
    assert!(unloaded.songs.is_none());
}

#[test]
fn default_state_is_the_playlist_search_page() {
    assert!(State::default() == State::SearchPlaylists);
}

#[test]
fn sync_shares_a_value_behind_a_lock() {
    let shared = sync(41usize);
    {
        let mut guard = shared.lock().unwrap();
        *guard += 1;
    }
    let other_handle = shared.clone();
    assert_eq!(*other_handle.lock().unwrap(), 42);
}
