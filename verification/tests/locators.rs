use std::path::Path;
use wavora::uri::{argument_to_path, file_uri_to_path, path_to_file_uri};

#[test]
fn desktop_file_uri_argument_becomes_local_path() {
    let path = String::from_utf8(argument_to_path("file:///tmp/Hello%20World.flac")).expect("utf-8 path");
    assert_eq!(Path::new(&path), Path::new("/tmp/Hello World.flac"));
}

#[test]
fn plain_arguments_are_paths_already() {
    assert_eq!(argument_to_path("/music/a b.flac"), b"/music/a b.flac".to_vec());
    assert_eq!(argument_to_path("file://host/music.flac"), b"file://host/music.flac".to_vec());
}

#[test]
fn file_uris_escape_every_reserved_byte() {
    assert_eq!(
        path_to_file_uri(b"/home/user/Music/Hello World.flac"),
        "file:///home/user/Music/Hello%20World.flac"
    );
    assert_eq!(path_to_file_uri("/m/Café-1_2.~x".as_bytes()), "file:///m/Caf%C3%A9-1_2.~x");
    assert_eq!(path_to_file_uri(b"/a#b?c%d"), "file:///a%23b%3Fc%25d");
}

#[test]
fn file_uris_decode_back_to_their_paths() {
    for path in ["/tmp/Hello World.flac", "/m/Café 100%.flac", "/"] {
        let uri = path_to_file_uri(path.as_bytes());
        assert_eq!(file_uri_to_path(&uri), Some(path.as_bytes().to_vec()));
    }
    assert_eq!(file_uri_to_path("file:///m/caf%c3%a9"), Some("/m/café".as_bytes().to_vec()));
}

#[test]
fn only_local_file_uris_name_paths() {
    assert_eq!(file_uri_to_path("http://example.com/a.flac"), None);
    assert_eq!(file_uri_to_path("file://host/a.flac"), None);
    assert_eq!(file_uri_to_path("file://"), None);
    assert_eq!(file_uri_to_path("file:///a%2"), None);
    assert_eq!(file_uri_to_path("file:///a%zz.flac"), None);
}
