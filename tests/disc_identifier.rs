use audio_cd_ripper::disc_id::{
    calculate_music_brainz_id, disc_id_from_digest, format_toc_string, musicbrainz_token,
    TableOfContents, TocTrack,
};

fn three_track_toc() -> TableOfContents {
    TableOfContents {
        first_track: 1,
        last_track: 3,
        leadout_lba: 150000,
        tracks: vec![
            TocTrack { number: 1, start_lba: 0 },
            TocTrack { number: 2, start_lba: 20000 },
            TocTrack { number: 3, start_lba: 40000 },
        ],
    }
}

fn is_upper_hex(c: char) -> bool {
    c.is_ascii_digit() || ('A'..='F').contains(&c)
}

#[test]
fn toc_string_starts_with_header_and_tracks() {
    let text = format_toc_string(&three_track_toc());
    assert_eq!(&text[..40], "010300024A860000009600004EB600009CD60000");
    assert_eq!(&text[40..], "0".repeat(804 - 40));
}

#[test]
fn toc_string_is_804_upper_hex_digits() {
    let text = format_toc_string(&three_track_toc());
    assert_eq!(text.len(), 804);
    assert!(text.chars().all(is_upper_hex));
    let empty = TableOfContents { first_track: 0, last_track: 0, leadout_lba: 0, tracks: vec![] };
    let text = format_toc_string(&empty);
    assert_eq!(text.len(), 804);
    assert_eq!(&text[..12], "000000000096");
    let full = TableOfContents {
        first_track: 1,
        last_track: 99,
        leadout_lba: 0xFFFF_FFFF,
        tracks: (1..=99).map(|n| TocTrack { number: n, start_lba: 0xFFFF_FFFF }).collect(),
    };
    let text = format_toc_string(&full);
    assert_eq!(text.len(), 804);
    assert!(text.chars().all(is_upper_hex));
    // 0xFFFFFFFF + 150 keeps its last eight digits.
    assert_eq!(&text[4..12], "00000095");
}

#[test]
fn toc_string_uses_first_track_with_a_number() {
    let toc = TableOfContents {
        first_track: 2,
        last_track: 2,
        leadout_lba: 100,
        tracks: vec![TocTrack { number: 2, start_lba: 10 }, TocTrack { number: 2, start_lba: 99 }],
    };
    let text = format_toc_string(&toc);
    assert_eq!(&text[12..20], "00000000");
    assert_eq!(&text[20..28], "000000A0");
}

#[test]
fn disc_id_of_three_track_fixture() {
    let id = calculate_music_brainz_id(&three_track_toc());
    assert_eq!(id, "J6SjQeHWRQyim__PFXFhxpRTsf0");
    assert_eq!(id.len(), 27);
    assert!(id.chars().all(|c| c.is_ascii_alphanumeric() || c == '.' || c == '_'));
}

#[test]
fn disc_id_is_deterministic() {
    let a = calculate_music_brainz_id(&three_track_toc());
    let b = calculate_music_brainz_id(&three_track_toc());
    assert_eq!(a, b);
}

#[test]
fn disc_id_of_single_empty_track_disc() {
    let toc = TableOfContents { first_track: 1, last_track: 1, leadout_lba: 0, tracks: vec![] };
    let id = calculate_music_brainz_id(&toc);
    assert_eq!(id, "4XNDisC_aRACHFO.1UuTHxPOS78");
    assert!(!id.contains('+') && !id.contains('/') && !id.contains('='));
}

#[test]
fn token_replaces_and_trims() {
    assert_eq!(musicbrainz_token("+/8="), "._8");
    assert_eq!(musicbrainz_token("ab=="), "ab");
    assert_eq!(musicbrainz_token("YWJj"), "YWJj");
    assert_eq!(musicbrainz_token(""), "");
    assert_eq!(musicbrainz_token("===="), "");
}

#[test]
fn digest_is_encoded_then_turned_into_token() {
    assert_eq!(disc_id_from_digest(&vec![0xfb, 0xff]), "._8");
    assert_eq!(disc_id_from_digest(&b"abc".to_vec()), "YWJj");
    assert_eq!(disc_id_from_digest(&vec![]), "");
    assert_eq!(disc_id_from_digest(&vec![0]), "AA");
    assert_eq!(disc_id_from_digest(&vec![0xff; 20]).len(), 27);
}

#[test]
fn track_order_does_not_change_the_identifier() {
    let mut reordered = three_track_toc();
    reordered.tracks.reverse();
    assert_eq!(format_toc_string(&reordered), format_toc_string(&three_track_toc()));
    assert_eq!(calculate_music_brainz_id(&reordered), "J6SjQeHWRQyim__PFXFhxpRTsf0");
}
