//! The decisions of ripping an album: a session that, given the outcome of
//! each step, names the next one. Whoever drives it performs the steps
//! (directory and file checks, drive reads, encoding, tagging, cover art).
use crate::metadata::Album;
use vstd::prelude::*;

verus! {

/// Why a run stopped before its end.
#[derive(Clone, Copy, Debug, PartialEq, Eq, Structural)]
pub enum RunError {
    /// The disc's metadata could not be resolved.
    MetadataNotFound,
    /// The album directory is already there; nothing is touched.
    DirectoryExists,
    /// The album directory could not be created.
    LocalIo,
    /// The drive failed to read a track.
    DriveIo,
}

/// What became of one album track.
#[derive(Clone, Copy, Debug, PartialEq, Eq, Structural)]
pub enum TrackOutcome {
    /// Encoded and tagged.
    Written,
    /// Encoded; its tags could not be written.
    TaggingFailed,
    /// The encoder failed; the track was left behind.
    EncodingFailed,
    /// Its number does not fit the medium's track numbering.
    SkippedOutOfRange,
    /// A file for it was already there and was left as it was.
    SkippedExisting,
}

/// The outcome of the step that the session asked for.
#[derive(Clone, Copy, Debug, PartialEq, Eq, Structural)]
pub enum RipEvent {
    /// Whether the album directory exists.
    DirectoryChecked(bool),
    /// Whether creating the album directory succeeded.
    DirectoryCreated(bool),
    /// Whether the drive read the track.
    TrackRead(bool),
    /// Whether the track's file exists.
    FileChecked(bool),
    /// Whether encoding the track succeeded.
    Encoded(bool),
    /// Whether tagging the track succeeded.
    Tagged(bool),
    /// The cover art step ended, whatever its outcome.
    CoverArtDone,
}

/// The step to perform next.
#[derive(Clone, Copy, Debug, PartialEq, Eq, Structural)]
pub enum RipAction {
    CheckDirectory,
    CreateDirectory,
    /// Read the current track from the drive, by its physical number.
    ReadTrack(u8),
    /// Look for the current track's file.
    CheckFile,
    /// Encode the current track into its file.
    Encode,
    /// Write the current track's tags.
    Tag,
    FetchCoverArt,
    /// The run is over and succeeded.
    Finish,
    /// The run is over and failed.
    Abort(RunError),
}

/// A ripping session over the tracks of one album.
pub struct RipSession {
    /// The album's track numbers, in album order.
    pub numbers: Vec<u32>,
    /// Whether the album has a cover address.
    pub has_cover: bool,
    /// Index of the current track.
    pub track: usize,
    /// The step asked for.
    pub pending: RipAction,
    /// What became of each track handled so far, in order.
    pub outcomes: Vec<TrackOutcome>,
}

/// What a session holds.
pub struct RipState {
    pub numbers: Seq<u32>,
    pub has_cover: bool,
    pub track: int,
    pub pending: RipAction,
    pub outcomes: Seq<TrackOutcome>,
}

/// Moves to the first track at or after `i` whose number fits, recording
/// each one passed over as out of range; after the last track, to the cover
/// art where there is one, else to the end.
pub open spec fn enter_track_of(s: RipState, i: nat) -> RipState
    decreases s.numbers.len() - i,
{
    if i >= s.numbers.len() {
        RipState {
            track: i as int,
            pending: if s.has_cover {
                RipAction::FetchCoverArt
            } else {
                RipAction::Finish
            },
            ..s
        }
    } else if s.numbers[i as int] <= u8::MAX {
        RipState { track: i as int, pending: RipAction::ReadTrack(s.numbers[i as int] as u8), ..s }
    } else {
        enter_track_of(
            RipState { outcomes: s.outcomes.push(TrackOutcome::SkippedOutOfRange), ..s },
            i + 1,
        )
    }
}

/// Records the current track's outcome and moves past it.
pub open spec fn finish_track_of(s: RipState, outcome: TrackOutcome) -> RipState {
    enter_track_of(RipState { outcomes: s.outcomes.push(outcome), ..s }, (s.track + 1) as nat)
}

pub open spec fn with_pending(s: RipState, a: RipAction) -> RipState {
    RipState { pending: a, ..s }
}

/// The session after an event. An event that does not answer the pending
/// step changes nothing, and a finished or aborted session stays as it is.
pub open spec fn step_of(s: RipState, e: RipEvent) -> RipState {
    match (s.pending, e) {
        (RipAction::CheckDirectory, RipEvent::DirectoryChecked(exists)) => if exists {
            with_pending(s, RipAction::Abort(RunError::DirectoryExists))
        } else {
            with_pending(s, RipAction::CreateDirectory)
        },
        (RipAction::CreateDirectory, RipEvent::DirectoryCreated(ok)) => if ok {
            enter_track_of(s, 0)
        } else {
            with_pending(s, RipAction::Abort(RunError::LocalIo))
        },
        (RipAction::ReadTrack(_), RipEvent::TrackRead(ok)) => if ok {
            with_pending(s, RipAction::CheckFile)
        } else {
            with_pending(s, RipAction::Abort(RunError::DriveIo))
        },
        (RipAction::CheckFile, RipEvent::FileChecked(exists)) => if exists {
            finish_track_of(s, TrackOutcome::SkippedExisting)
        } else {
            with_pending(s, RipAction::Encode)
        },
        (RipAction::Encode, RipEvent::Encoded(ok)) => if ok {
            with_pending(s, RipAction::Tag)
        } else {
            finish_track_of(s, TrackOutcome::EncodingFailed)
        },
        (RipAction::Tag, RipEvent::Tagged(ok)) => finish_track_of(
            s,
            if ok {
                TrackOutcome::Written
            } else {
                TrackOutcome::TaggingFailed
            },
        ),
        (RipAction::FetchCoverArt, RipEvent::CoverArtDone) => with_pending(s, RipAction::Finish),
        _ => s,
    }
}

/// The steps that are about the current track.
pub open spec fn on_track(a: RipAction) -> bool {
    a is ReadTrack || a is CheckFile || a is Encode || a is Tag
}

pub open spec fn state_wf(s: RipState) -> bool {
    &&& 0 <= s.track <= s.numbers.len()
    &&& on_track(s.pending) ==> s.track < s.numbers.len()
}

impl RipSession {
    pub open spec fn state(&self) -> RipState {
        RipState {
            numbers: self.numbers@,
            has_cover: self.has_cover,
            track: self.track as int,
            pending: self.pending,
            outcomes: self.outcomes@,
        }
    }

    pub open spec fn wf(&self) -> bool {
        state_wf(self.state())
    }

    /// A session over a resolved album, which begins by checking for the
    /// album directory; over no album, a session that has already failed.
    pub fn new(album: Option<&Album>) -> (r: RipSession)
        ensures
            r.wf(),
            r.track == 0,
            r.outcomes@.len() == 0,
            match album {
                Some(a) => {
                    &&& r.pending == RipAction::CheckDirectory
                    &&& r.numbers@ == a.tracks@.map_values(|t: crate::metadata::AlbumTrack| t.num)
                    &&& r.has_cover == (a.front_cover_url is Some)
                },
                None => r.pending == RipAction::Abort(RunError::MetadataNotFound) && r.numbers@.len()
                    == 0,
            },
    {
        match album {
            None => RipSession {
                numbers: Vec::new(),
                has_cover: false,
                track: 0,
                pending: RipAction::Abort(RunError::MetadataNotFound),
                outcomes: Vec::new(),
            },
            Some(a) => {
                let mut numbers: Vec<u32> = Vec::new();
                let mut i: usize = 0;
                while i < a.tracks.len()
                    invariant
                        i <= a.tracks@.len(),
                        numbers@ == a.tracks@.subrange(0, i as int).map_values(
                            |t: crate::metadata::AlbumTrack| t.num,
                        ),
                    decreases a.tracks.len() - i,
                {
                    numbers.push(a.tracks[i].num);
                    assert(a.tracks@.subrange(0, i + 1).map_values(
                        |t: crate::metadata::AlbumTrack| t.num,
                    ) =~= numbers@);
                    i += 1;
                }
                assert(a.tracks@.subrange(0, a.tracks@.len() as int) =~= a.tracks@);
                RipSession {
                    numbers,
                    has_cover: a.front_cover_url.is_some(),
                    track: 0,
                    pending: RipAction::CheckDirectory,
                    outcomes: Vec::new(),
                }
            },
        }
    }

    fn enter_track(&mut self, start: usize)
        requires
            start <= old(self).numbers@.len(),
        ensures
            final(self).state() == enter_track_of(old(self).state(), start as nat),
    {
        let mut i: usize = start;
        while i < self.numbers.len() && self.numbers[i] > 255
            invariant
                start <= i <= self.numbers@.len(),
                self.numbers@ == old(self).numbers@,
                self.has_cover == old(self).has_cover,
                enter_track_of(old(self).state(), start as nat) == enter_track_of(
                    self.state(),
                    i as nat,
                ),
            decreases self.numbers.len() - i,
        {
            let ghost before = self.state();
            self.outcomes.push(TrackOutcome::SkippedOutOfRange);
            assert(self.state() == RipState {
                outcomes: before.outcomes.push(TrackOutcome::SkippedOutOfRange),
                ..before
            });
            i += 1;
        }
        self.track = i;
        if i < self.numbers.len() {
            self.pending = RipAction::ReadTrack(self.numbers[i] as u8);
        } else if self.has_cover {
            self.pending = RipAction::FetchCoverArt;
        } else {
            self.pending = RipAction::Finish;
        }
    }

    fn finish_track(&mut self, outcome: TrackOutcome)
        requires
            old(self).wf(),
            old(self).track < old(self).numbers@.len(),
        ensures
            final(self).state() == finish_track_of(old(self).state(), outcome),
    {
        let len = self.numbers.len();
        assert(self.track < len);
        let next = self.track + 1;
        self.outcomes.push(outcome);
        self.enter_track(next);
    }

    /// Takes the outcome of the pending step and returns the next one.
    pub fn step(&mut self, event: RipEvent) -> (action: RipAction)
        requires
            old(self).wf(),
        ensures
            final(self).state() == step_of(old(self).state(), event),
            final(self).wf(),
            action == final(self).pending,
    {
        proof {
            lemma_step_wf(self.state(), event);
        }
        match (self.pending, event) {
            (RipAction::CheckDirectory, RipEvent::DirectoryChecked(exists)) => {
                if exists {
                    self.pending = RipAction::Abort(RunError::DirectoryExists);
                } else {
                    self.pending = RipAction::CreateDirectory;
                }
            },
            (RipAction::CreateDirectory, RipEvent::DirectoryCreated(ok)) => {
                if ok {
                    self.enter_track(0);
                } else {
                    self.pending = RipAction::Abort(RunError::LocalIo);
                }
            },
            (RipAction::ReadTrack(_), RipEvent::TrackRead(ok)) => {
                if ok {
                    self.pending = RipAction::CheckFile;
                } else {
                    self.pending = RipAction::Abort(RunError::DriveIo);
                }
            },
            (RipAction::CheckFile, RipEvent::FileChecked(exists)) => {
                if exists {
                    self.finish_track(TrackOutcome::SkippedExisting);
                } else {
                    self.pending = RipAction::Encode;
                }
            },
            (RipAction::Encode, RipEvent::Encoded(ok)) => {
                if ok {
                    self.pending = RipAction::Tag;
                } else {
                    self.finish_track(TrackOutcome::EncodingFailed);
                }
            },
            (RipAction::Tag, RipEvent::Tagged(ok)) => {
                if ok {
                    self.finish_track(TrackOutcome::Written);
                } else {
                    self.finish_track(TrackOutcome::TaggingFailed);
                }
            },
            (RipAction::FetchCoverArt, RipEvent::CoverArtDone) => {
                self.pending = RipAction::Finish;
            },
            _ => {},
        }
        self.pending
    }
}

// ---------------------------------------------------------------------------
// Laws
// ---------------------------------------------------------------------------

/// What entering a track keeps: the track list, the cover flag, the outcomes
/// so far; it lands at or after `i`, on a read of a track that fits, or on
/// the cover art (only where there is one), or at the end.
pub proof fn lemma_enter_track(s: RipState, i: nat)
    ensures
        ({
            let r = enter_track_of(s, i);
            &&& r.numbers == s.numbers
            &&& r.has_cover == s.has_cover
            &&& r.track >= i
            &&& r.outcomes.len() >= s.outcomes.len()
            &&& r.outcomes.subrange(0, s.outcomes.len() as int) == s.outcomes
            &&& (r.pending is ReadTrack ==> r.track < s.numbers.len())
            &&& (r.pending is ReadTrack || r.pending is FetchCoverArt || r.pending is Finish)
            &&& (r.pending is FetchCoverArt ==> s.has_cover)
            &&& r.track <= s.numbers.len() || r.track == i
        }),
    decreases s.numbers.len() - i,
{
    if i >= s.numbers.len() {
        assert(s.outcomes.subrange(0, s.outcomes.len() as int) =~= s.outcomes);
    } else if s.numbers[i as int] <= u8::MAX {
        assert(s.outcomes.subrange(0, s.outcomes.len() as int) =~= s.outcomes);
    } else {
        let t = RipState { outcomes: s.outcomes.push(TrackOutcome::SkippedOutOfRange), ..s };
        lemma_enter_track(t, i + 1);
        let r = enter_track_of(t, i + 1);
        assert(r.outcomes.subrange(0, s.outcomes.len() as int) =~= r.outcomes.subrange(
            0,
            t.outcomes.len() as int,
        ).subrange(0, s.outcomes.len() as int));
        assert(t.outcomes.subrange(0, s.outcomes.len() as int) =~= s.outcomes);
    }
}

/// What a step's moves to a track keep: well-formedness and the cover flag,
/// and the cover art comes next only where there is one.
proof fn lemma_step_moves(s: RipState)
    requires
        state_wf(s),
    ensures
        forall|o: TrackOutcome|
            s.track < s.numbers.len() ==> {
                let r = #[trigger] finish_track_of(s, o);
                &&& state_wf(r)
                &&& r.has_cover == s.has_cover
                &&& (r.pending is FetchCoverArt ==> s.has_cover)
            },
        state_wf(enter_track_of(s, 0)),
        enter_track_of(s, 0).has_cover == s.has_cover,
        enter_track_of(s, 0).pending is FetchCoverArt ==> s.has_cover,
{
    assert forall|o: TrackOutcome| s.track < s.numbers.len() implies {
        let r = #[trigger] finish_track_of(s, o);
        &&& state_wf(r)
        &&& r.has_cover == s.has_cover
        &&& (r.pending is FetchCoverArt ==> s.has_cover)
    } by {
        lemma_enter_track(RipState { outcomes: s.outcomes.push(o), ..s }, (s.track + 1) as nat);
    }
    lemma_enter_track(s, 0);
}

proof fn lemma_step_wf(s: RipState, e: RipEvent)
    requires
        state_wf(s),
    ensures
        state_wf(step_of(s, e)),
{
    lemma_step_moves(s);
}

/// A finished or aborted session stays as it is, whatever comes.
pub proof fn lemma_run_over_is_final(s: RipState, e: RipEvent)
    requires
        s.pending is Finish || s.pending is Abort,
    ensures
        step_of(s, e) == s,
{
}

/// Where the album directory already exists, the run aborts at once and asks
/// for nothing more: no directory, file or cover art is written.
pub proof fn lemma_existing_directory_aborts(s: RipState, later: RipEvent)
    requires
        s.pending == RipAction::CheckDirectory,
    ensures
        step_of(s, RipEvent::DirectoryChecked(true)).pending == RipAction::Abort(
            RunError::DirectoryExists,
        ),
        step_of(s, RipEvent::DirectoryChecked(true)).outcomes == s.outcomes,
        step_of(step_of(s, RipEvent::DirectoryChecked(true)), later) == step_of(
            s,
            RipEvent::DirectoryChecked(true),
        ),
{
}

/// Where a track's file already exists, it is recorded as skipped and the
/// session moves past it without encoding or tagging it.
pub proof fn lemma_existing_file_skipped(s: RipState)
    requires
        state_wf(s),
        s.pending == RipAction::CheckFile,
    ensures
        ({
            let r = step_of(s, RipEvent::FileChecked(true));
            &&& r.outcomes.len() > s.outcomes.len()
            &&& r.outcomes[s.outcomes.len() as int] == TrackOutcome::SkippedExisting
            &&& r.outcomes.subrange(0, s.outcomes.len() as int) == s.outcomes
            &&& r.track > s.track
            &&& r == enter_track_of(
                RipState { outcomes: s.outcomes.push(TrackOutcome::SkippedExisting), ..s },
                (s.track + 1) as nat,
            )
        }),
{
    let t = RipState { outcomes: s.outcomes.push(TrackOutcome::SkippedExisting), ..s };
    lemma_enter_track(t, (s.track + 1) as nat);
    let r = enter_track_of(t, (s.track + 1) as nat);
    assert(r.outcomes[s.outcomes.len() as int] == r.outcomes.subrange(0, t.outcomes.len() as int)[s.outcomes.len() as int]);
    assert(r.outcomes.subrange(0, s.outcomes.len() as int) =~= r.outcomes.subrange(
        0,
        t.outcomes.len() as int,
    ).subrange(0, s.outcomes.len() as int));
    assert(t.outcomes.subrange(0, s.outcomes.len() as int) =~= s.outcomes);
}

/// A track whose number does not fit is recorded as out of range and the
/// session goes on with the next track; a track whose number fits is read.
pub proof fn lemma_out_of_range_skipped(s: RipState, i: nat)
    requires
        i < s.numbers.len(),
    ensures
        s.numbers[i as int] > u8::MAX ==> enter_track_of(s, i) == enter_track_of(
            RipState { outcomes: s.outcomes.push(TrackOutcome::SkippedOutOfRange), ..s },
            i + 1,
        ),
        s.numbers[i as int] <= u8::MAX ==> enter_track_of(s, i).pending == RipAction::ReadTrack(
            s.numbers[i as int] as u8,
        ) && enter_track_of(s, i).track == i,
{
}

/// An album without a cover address never has the cover art fetched.
pub proof fn lemma_no_cover_no_fetch(s: RipState, e: RipEvent)
    requires
        state_wf(s),
        !s.has_cover,
        s.pending != RipAction::FetchCoverArt,
    ensures
        step_of(s, e).pending != RipAction::FetchCoverArt,
        !step_of(s, e).has_cover,
{
    lemma_step_wf(s, e);
    lemma_step_moves(s);
}

} // verus!
