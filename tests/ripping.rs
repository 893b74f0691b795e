use audio_cd_ripper::lookup::resolve_lookup;
use audio_cd_ripper::metadata::{Album, AlbumTrack, MusicBrainzResponse};
use audio_cd_ripper::pipeline::{RipAction, RipEvent, RipSession, RunError, TrackOutcome};

fn album(numbers: &[u32], cover: bool) -> Album {
    Album {
        title: "Album".to_string(),
        country: "unknown".to_string(),
        date: "Unknown date".to_string(),
        artist: "Unknown artist".to_string(),
        tracks: numbers
            .iter()
            .map(|n| AlbumTrack { num: *n, title: format!("Track {n}"), len: 0 })
            .collect(),
        front_cover_url: if cover { Some("https://example.org/front".to_string()) } else { None },
    }
}

fn started(a: &Album) -> RipSession {
    let mut s = RipSession::new(Some(a));
    assert_eq!(s.pending, RipAction::CheckDirectory);
    assert_eq!(s.step(RipEvent::DirectoryChecked(false)), RipAction::CreateDirectory);
    s
}

fn rip_track(s: &mut RipSession) -> RipAction {
    assert_eq!(s.step(RipEvent::TrackRead(true)), RipAction::CheckFile);
    assert_eq!(s.step(RipEvent::FileChecked(false)), RipAction::Encode);
    assert_eq!(s.step(RipEvent::Encoded(true)), RipAction::Tag);
    s.step(RipEvent::Tagged(true))
}

#[test]
fn whole_album_is_ripped_then_cover_fetched() {
    let a = album(&[1, 2], true);
    let mut s = started(&a);
    assert_eq!(s.step(RipEvent::DirectoryCreated(true)), RipAction::ReadTrack(1));
    assert_eq!(rip_track(&mut s), RipAction::ReadTrack(2));
    assert_eq!(rip_track(&mut s), RipAction::FetchCoverArt);
    assert_eq!(s.step(RipEvent::CoverArtDone), RipAction::Finish);
    assert_eq!(s.outcomes, vec![TrackOutcome::Written, TrackOutcome::Written]);
}

#[test]
fn existing_directory_aborts_and_stays_aborted() {
    let a = album(&[1, 2], true);
    let mut s = RipSession::new(Some(&a));
    assert_eq!(s.step(RipEvent::DirectoryChecked(true)), RipAction::Abort(RunError::DirectoryExists));
    assert_eq!(s.step(RipEvent::DirectoryCreated(true)), RipAction::Abort(RunError::DirectoryExists));
    assert_eq!(s.step(RipEvent::FileChecked(false)), RipAction::Abort(RunError::DirectoryExists));
    assert_eq!(s.step(RipEvent::CoverArtDone), RipAction::Abort(RunError::DirectoryExists));
    assert!(s.outcomes.is_empty());
}

#[test]
fn existing_track_file_is_left_and_next_track_follows() {
    let a = album(&[1, 2], false);
    let mut s = started(&a);
    assert_eq!(s.step(RipEvent::DirectoryCreated(true)), RipAction::ReadTrack(1));
    assert_eq!(s.step(RipEvent::TrackRead(true)), RipAction::CheckFile);
    assert_eq!(s.step(RipEvent::FileChecked(true)), RipAction::ReadTrack(2));
    assert_eq!(rip_track(&mut s), RipAction::Finish);
    assert_eq!(s.outcomes, vec![TrackOutcome::SkippedExisting, TrackOutcome::Written]);
}

#[test]
fn out_of_range_track_number_is_skipped() {
    let a = album(&[1, 256, 300, 255], false);
    let mut s = started(&a);
    assert_eq!(s.step(RipEvent::DirectoryCreated(true)), RipAction::ReadTrack(1));
    assert_eq!(rip_track(&mut s), RipAction::ReadTrack(255));
    assert_eq!(s.track, 3);
    assert_eq!(rip_track(&mut s), RipAction::Finish);
    assert_eq!(
        s.outcomes,
        vec![
            TrackOutcome::Written,
            TrackOutcome::SkippedOutOfRange,
            TrackOutcome::SkippedOutOfRange,
            TrackOutcome::Written
        ]
    );
}

#[test]
fn album_without_cover_never_fetches_it() {
    let a = album(&[4294967295], false);
    let mut s = started(&a);
    assert_eq!(s.step(RipEvent::DirectoryCreated(true)), RipAction::Finish);
    assert_eq!(s.outcomes, vec![TrackOutcome::SkippedOutOfRange]);
    assert_eq!(s.step(RipEvent::CoverArtDone), RipAction::Finish);
}

#[test]
fn empty_album_goes_to_cover_art() {
    let a = album(&[], true);
    let mut s = started(&a);
    assert_eq!(s.step(RipEvent::DirectoryCreated(true)), RipAction::FetchCoverArt);
    assert_eq!(s.step(RipEvent::CoverArtDone), RipAction::Finish);
}

#[test]
fn drive_failure_aborts_the_run() {
    let a = album(&[1, 2], true);
    let mut s = started(&a);
    assert_eq!(s.step(RipEvent::DirectoryCreated(true)), RipAction::ReadTrack(1));
    assert_eq!(s.step(RipEvent::TrackRead(false)), RipAction::Abort(RunError::DriveIo));
    assert_eq!(s.step(RipEvent::TrackRead(true)), RipAction::Abort(RunError::DriveIo));
}

#[test]
fn directory_creation_failure_aborts() {
    let a = album(&[1], false);
    let mut s = started(&a);
    assert_eq!(s.step(RipEvent::DirectoryCreated(false)), RipAction::Abort(RunError::LocalIo));
}

#[test]
fn encoding_and_tagging_failures_are_not_fatal() {
    let a = album(&[1, 2], false);
    let mut s = started(&a);
    assert_eq!(s.step(RipEvent::DirectoryCreated(true)), RipAction::ReadTrack(1));
    assert_eq!(s.step(RipEvent::TrackRead(true)), RipAction::CheckFile);
    assert_eq!(s.step(RipEvent::FileChecked(false)), RipAction::Encode);
    assert_eq!(s.step(RipEvent::Encoded(false)), RipAction::ReadTrack(2));
    assert_eq!(s.step(RipEvent::TrackRead(true)), RipAction::CheckFile);
    assert_eq!(s.step(RipEvent::FileChecked(false)), RipAction::Encode);
    assert_eq!(s.step(RipEvent::Encoded(true)), RipAction::Tag);
    assert_eq!(s.step(RipEvent::Tagged(false)), RipAction::Finish);
    assert_eq!(s.outcomes, vec![TrackOutcome::EncodingFailed, TrackOutcome::TaggingFailed]);
}

#[test]
fn unexpected_event_changes_nothing() {
    let a = album(&[1], false);
    let mut s = RipSession::new(Some(&a));
    assert_eq!(s.step(RipEvent::Tagged(true)), RipAction::CheckDirectory);
    assert!(s.outcomes.is_empty());
}

#[test]
fn empty_release_list_aborts_as_metadata_not_found() {
    let resolved = resolve_lookup(&Ok(MusicBrainzResponse { releases: Some(vec![]) }));
    assert!(resolved.is_none());
    let mut s = RipSession::new(resolved.as_ref());
    assert_eq!(s.pending, RipAction::Abort(RunError::MetadataNotFound));
    assert_eq!(s.step(RipEvent::DirectoryChecked(false)), RipAction::Abort(RunError::MetadataNotFound));
}
