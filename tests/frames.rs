use glyphcast::enumerator::{enumerate_frames, id_le, is_frame_id, select_frame_ids, sort_ids};
use glyphcast::session::SessionError;

fn ids(names: &[&str]) -> Vec<Vec<u8>> {
    names.iter().map(|s| s.as_bytes().to_vec()).collect()
}

fn locators(names: &[&str]) -> Vec<String> {
    let hs = enumerate_frames(&ids(names)).unwrap();
    for (i, h) in hs.iter().enumerate() {
        assert_eq!(h.index, i);
    }
    hs.into_iter().map(|h| String::from_utf8(h.locator).unwrap()).collect()
}

#[test]
fn padded_names_sort_in_numeric_order() {
    assert_eq!(
        locators(&["frame_0002.png", "frame_0001.png", "frame_0010.png"]),
        vec!["frame_0001.png", "frame_0002.png", "frame_0010.png"]
    );
}

#[test]
fn only_png_files_are_frames() {
    assert_eq!(
        locators(&["frames/b.png", "frames/a.txt", "frames/.png", "frames/a.png", "frames/c.PNG", "x.pngs"]),
        vec!["frames/a.png", "frames/b.png"]
    );
    assert!(is_frame_id(&b"..png".to_vec()));
    assert!(is_frame_id(&b"a.png".to_vec()));
    assert!(!is_frame_id(&b".png".to_vec()));
    assert!(!is_frame_id(&b"dir\\.png".to_vec()));
    assert_eq!(select_frame_ids(&ids(&["b.png", "a.jpg", "a.png"])), ids(&["b.png", "a.png"]));
}

#[test]
fn no_frames_is_source_empty() {
    assert_eq!(enumerate_frames(&ids(&[])).unwrap_err(), SessionError::SourceEmpty);
    assert_eq!(enumerate_frames(&ids(&["audio.mp3", "notes.txt"])).unwrap_err(), SessionError::SourceEmpty);
}

#[test]
fn byte_order_puts_prefixes_first() {
    assert!(id_le(&b"ab".to_vec(), &b"abc".to_vec()));
    assert!(!id_le(&b"abc".to_vec(), &b"ab".to_vec()));
    assert!(id_le(&b"ab".to_vec(), &b"ab".to_vec()));
    assert!(id_le(&b"".to_vec(), &b"".to_vec()));
    assert!(id_le(&b"a9".to_vec(), &b"b0".to_vec()));
    assert!(!id_le(&b"b0".to_vec(), &b"a9".to_vec()));
}

#[test]
fn sort_keeps_duplicates() {
    let sorted = sort_ids(ids(&["c", "a", "b", "a", ""]));
    assert_eq!(sorted, ids(&["", "a", "a", "b", "c"]));
}
