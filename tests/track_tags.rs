use audio_cd_ripper::metadata::{Album, AlbumTrack};
use audio_cd_ripper::tags::{decimal_text, track_tags};

#[test]
fn decimal_text_of_numbers() {
    assert_eq!(decimal_text(0), "0");
    assert_eq!(decimal_text(7), "7");
    assert_eq!(decimal_text(10), "10");
    assert_eq!(decimal_text(305), "305");
    assert_eq!(decimal_text(4294967295), "4294967295");
}

#[test]
fn tags_of_a_track() {
    let album = Album {
        title: "Blue Train".to_string(),
        country: "US".to_string(),
        date: "1957".to_string(),
        artist: "John Coltrane".to_string(),
        tracks: vec![],
        front_cover_url: None,
    };
    let track = AlbumTrack { num: 12, title: "Locomotion".to_string(), len: 0 };
    let tags: Vec<(String, String)> = track_tags(&track, &album);
    let expected = [
        ("TITLE", "Locomotion"),
        ("ALBUM", "Blue Train"),
        ("ARTIST", "John Coltrane"),
        ("TRACKNUMBER", "12"),
        ("DATE", "1957"),
        ("COUNTRY", "US"),
    ];
    assert_eq!(tags.len(), expected.len());
    for ((name, value), (en, ev)) in tags.iter().zip(expected.iter()) {
        assert_eq!((name.as_str(), value.as_str()), (*en, *ev));
    }
}
