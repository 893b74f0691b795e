//! Release metadata: the shape of a disc lookup's answer, and how an album is
//! resolved from it.
use vstd::prelude::*;
use vstd::string::StrSliceExecFns;
use vstd::string::StringExecFns;

verus! {

// ---------------------------------------------------------------------------
// The lookup's answer
// ---------------------------------------------------------------------------

/// The answer to a lookup by disc identifier.
pub struct MusicBrainzResponse {
    pub releases: Option<Vec<Release>>,
}

/// One release candidate of the answer.
pub struct Release {
    pub id: String,
    pub title: String,
    pub date: Option<String>,
    pub country: Option<String>,
    pub release_group: Option<ReleaseGroup>,
    pub cover_art_archive: Option<CoverArtArchive>,
    pub media: Option<Vec<Medium>>,
    pub artist_credit: Option<Vec<ArtistCredit>>,
}

pub struct ReleaseGroup {
    pub id: String,
    pub title: Option<String>,
    pub primary_type: Option<String>,
}

/// Which cover images the archive holds for a release.
pub struct CoverArtArchive {
    pub artwork: bool,
    pub count: u32,
    pub front: bool,
    pub back: bool,
}

/// One physical medium of a release.
pub struct Medium {
    pub format: Option<String>,
    pub position: Option<u32>,
    pub track_count: Option<u32>,
    pub tracks: Option<Vec<Track>>,
}

/// One track entry of a medium, as the database lists it.
pub struct Track {
    pub id: String,
    pub number: Option<String>,
    pub title: Option<String>,
    pub length: Option<u32>,
}

pub struct ArtistCredit {
    pub name: String,
    pub joinphrase: Option<String>,
    pub artist: Option<Artist>,
}

pub struct Artist {
    pub id: String,
    pub name: String,
    pub sort_name: Option<String>,
}

// ---------------------------------------------------------------------------
// The resolved album
// ---------------------------------------------------------------------------

/// A resolved album.
pub struct Album {
    pub title: String,
    pub country: String,
    pub date: String,
    pub artist: String,
    pub tracks: Vec<AlbumTrack>,
    pub front_cover_url: Option<String>,
}

/// One track of a resolved album: its number in the release's numbering,
/// its title and its length in milliseconds (zero where unknown).
pub struct AlbumTrack {
    pub num: u32,
    pub title: String,
    pub len: u32,
}

/// What an album track holds: number, title and length.
pub type AlbumTrackView = (u32, Seq<char>, u32);

impl View for AlbumTrack {
    type V = AlbumTrackView;

    open spec fn view(&self) -> AlbumTrackView {
        (self.num, self.title@, self.len)
    }
}

/// What an album holds.
pub struct AlbumView {
    pub title: Seq<char>,
    pub country: Seq<char>,
    pub date: Seq<char>,
    pub artist: Seq<char>,
    pub tracks: Seq<AlbumTrackView>,
    pub front_cover_url: Option<Seq<char>>,
}

pub open spec fn text_opt(o: Option<String>) -> Option<Seq<char>> {
    match o {
        Some(s) => Some(s@),
        None => None,
    }
}

impl View for Album {
    type V = AlbumView;

    open spec fn view(&self) -> AlbumView {
        AlbumView {
            title: self.title@,
            country: self.country@,
            date: self.date@,
            artist: self.artist@,
            tracks: self.tracks@.map_values(|t: AlbumTrack| t@),
            front_cover_url: text_opt(self.front_cover_url),
        }
    }
}

// ---------------------------------------------------------------------------
// Field defaults and fixed texts
// ---------------------------------------------------------------------------

/// A text field's value, or its default where the field is absent.
pub open spec fn text_or(o: Option<String>, default: Seq<char>) -> Seq<char> {
    match o {
        Some(s) => s@,
        None => default,
    }
}

pub open spec fn unknown_country() -> Seq<char> {
    "unknown"@
}

pub open spec fn unknown_date() -> Seq<char> {
    "Unknown date"@
}

pub open spec fn unknown_artist() -> Seq<char> {
    "Unknown artist"@
}

pub open spec fn unknown_track_title() -> Seq<char> {
    "unknown track"@
}

/// Where the front cover of a release is served.
pub open spec fn cover_url_of(release_id: Seq<char>) -> Seq<char> {
    "https://coverartarchive.org/release/"@ + release_id + "/front"@
}

/// The cover image's file name: PNG keeps its kind, anything else is stored
/// as JPEG.
pub open spec fn cover_file_name_of(content_type: Option<Seq<char>>) -> Seq<char> {
    if content_type == Some("image/png"@) {
        "folder.png"@
    } else {
        "folder.jpg"@
    }
}

/// Where a disc identifier is looked up, with recordings and artist credits.
pub open spec fn lookup_url_of(disc_id: Seq<char>) -> Seq<char> {
    "https://musicbrainz.org/ws/2/discid/"@ + disc_id + "?inc=recordings+artist-credits"@
}

/// The identifying header value: `<app>/<version> (<contact>)`.
pub open spec fn user_agent_of(app: Seq<char>, version: Seq<char>, contact: Seq<char>) -> Seq<
    char,
> {
    app + "/"@ + version + " ("@ + contact + ")"@
}

// ---------------------------------------------------------------------------
// Track numbers
// ---------------------------------------------------------------------------

/// `0` to `9`, by character code.
pub open spec fn is_digit(c: char) -> bool {
    48 <= (c as u32) <= 57
}

pub open spec fn digit_value(c: char) -> int {
    (c as u32) - 48
}

/// The value of a run of decimal digits.
pub open spec fn digits_value(s: Seq<char>) -> int
    decreases s.len(),
{
    if s.len() == 0 {
        0
    } else {
        digits_value(s.drop_last()) * 10 + digit_value(s.last())
    }
}

pub open spec fn all_digits(s: Seq<char>) -> bool {
    forall|i: int| 0 <= i < s.len() ==> is_digit(#[trigger] s[i])
}

/// The text without one leading `+`.
pub open spec fn unsigned_digits(s: Seq<char>) -> Seq<char> {
    if s.len() > 0 && s[0] == '+' {
        s.subrange(1, s.len() as int)
    } else {
        s
    }
}

/// A track number read as an unsigned 32-bit decimal: an optional `+`, then
/// one or more digits whose value fits.
pub open spec fn parse_u32_of(s: Seq<char>) -> Option<u32> {
    let d = unsigned_digits(s);
    if d.len() > 0 && all_digits(d) && digits_value(d) <= u32::MAX {
        Some(digits_value(d) as u32)
    } else {
        None
    }
}

/// The album track that a track entry gives, if its number reads.
pub open spec fn album_track_of(t: Track) -> Option<AlbumTrackView> {
    match t.number {
        None => None,
        Some(n) => match parse_u32_of(n@) {
            None => None,
            Some(num) => Some(
                (
                    num,
                    text_or(t.title, unknown_track_title()),
                    match t.length {
                        Some(l) => l,
                        None => 0,
                    },
                ),
            ),
        },
    }
}

/// The album tracks of a list of entries, in order, those whose number does
/// not read left out.
pub open spec fn album_tracks_of(tracks: Seq<Track>) -> Seq<AlbumTrackView>
    decreases tracks.len(),
{
    if tracks.len() == 0 {
        Seq::empty()
    } else {
        let rest = album_tracks_of(tracks.drop_last());
        match album_track_of(tracks.last()) {
            Some(v) => rest.push(v),
            None => rest,
        }
    }
}

// ---------------------------------------------------------------------------
// Resolution
// ---------------------------------------------------------------------------

pub open spec fn is_cd(m: Medium) -> bool {
    match m.format {
        Some(f) => f@ == "CD"@,
        None => false,
    }
}

/// The index of the first CD medium at or after `i`.
pub open spec fn first_cd_from(media: Seq<Medium>, i: int) -> Option<int>
    decreases media.len() - i,
{
    if i < 0 || i >= media.len() {
        None
    } else if is_cd(media[i]) {
        Some(i)
    } else {
        first_cd_from(media, i + 1)
    }
}

pub open spec fn first_cd(media: Option<Vec<Medium>>) -> Option<int> {
    match media {
        None => None,
        Some(ms) => first_cd_from(ms@, 0),
    }
}

/// The artist shown: the first credited name, or the default.
pub open spec fn artist_of(credits: Option<Vec<ArtistCredit>>) -> Seq<char> {
    match credits {
        Some(v) => if v@.len() > 0 {
            v@[0].name@
        } else {
            unknown_artist()
        },
        None => unknown_artist(),
    }
}

pub open spec fn front_cover_of(release: Release) -> Option<Seq<char>> {
    match release.cover_art_archive {
        Some(c) => if c.front {
            Some(cover_url_of(release.id@))
        } else {
            None
        },
        None => None,
    }
}

/// The album that a release gives, from the track list of its first CD medium.
pub open spec fn album_of_release(release: Release) -> Option<AlbumView> {
    match first_cd(release.media) {
        None => None,
        Some(k) => match release.media.unwrap()@[k].tracks {
            None => None,
            Some(ts) => Some(
                AlbumView {
                    title: release.title@,
                    country: text_or(release.country, unknown_country()),
                    date: text_or(release.date, unknown_date()),
                    artist: artist_of(release.artist_credit),
                    tracks: album_tracks_of(ts@),
                    front_cover_url: front_cover_of(release),
                },
            ),
        },
    }
}

/// The album that an answer resolves to: that of its first release candidate.
pub open spec fn resolve_of(response: MusicBrainzResponse) -> Option<AlbumView> {
    match response.releases {
        None => None,
        Some(rs) => if rs@.len() == 0 {
            None
        } else {
            album_of_release(rs@[0])
        },
    }
}

pub open spec fn album_matches(r: Option<Album>, v: Option<AlbumView>) -> bool {
    match r {
        Some(a) => v == Some(a@),
        None => v is None,
    }
}

// ---------------------------------------------------------------------------
// Executable functions
// ---------------------------------------------------------------------------

proof fn lemma_digits_value_prefix(d: Seq<char>, j: int)
    requires
        all_digits(d),
        0 <= j <= d.len(),
    ensures
        0 <= digits_value(d.subrange(0, j)) <= digits_value(d),
    decreases d.len(),
{
    if j == d.len() {
        assert(d.subrange(0, j) =~= d);
    } else {
        lemma_digits_value_prefix(d.drop_last(), j);
        assert(d.drop_last().subrange(0, j) =~= d.subrange(0, j));
    }
    lemma_digits_value_nonneg(d);
}

proof fn lemma_digits_value_nonneg(d: Seq<char>)
    requires
        all_digits(d),
    ensures
        digits_value(d) >= 0,
    decreases d.len(),
{
    if d.len() > 0 {
        lemma_digits_value_nonneg(d.drop_last());
    }
}

/// Reads a track number as an unsigned 32-bit decimal.
pub fn parse_track_number(s: &str) -> (r: Option<u32>)
    ensures
        r == parse_u32_of(s@),
{
    let n = s.unicode_len();
    let mut start: usize = 0;
    if n > 0 && s.get_char(0) == '+' {
        start = 1;
    }
    let ghost d = unsigned_digits(s@);
    assert(d =~= s@.subrange(start as int, n as int));
    if start == n {
        return None;
    }
    let mut value: u64 = 0;
    let mut i: usize = start;
    while i < n
        invariant
            start <= i <= n,
            n == s@.len(),
            d == unsigned_digits(s@),
            d == s@.subrange(start as int, n as int),
            forall|k: int| start <= k < i ==> is_digit(#[trigger] s@[k]),
            value == digits_value(s@.subrange(start as int, i as int)),
            value <= u32::MAX,
        decreases n - i,
    {
        let c = s.get_char(i);
        let code = c as u32;
        if code < 48 || code > 57 {
            assert(d[i - start] == c);
            assert(!is_digit(d[i - start]));
            return None;
        }
        let ghost prefix = s@.subrange(start as int, i + 1);
        assert(prefix.drop_last() =~= s@.subrange(start as int, i as int));
        assert(prefix.last() == c);
        value = value * 10 + (code - 48) as u64;
        assert(value == digits_value(prefix));
        if value > u32::MAX as u64 {
            proof {
                if all_digits(d) {
                    assert(d.subrange(0, i + 1 - start) =~= s@.subrange(start as int, i + 1));
                    lemma_digits_value_prefix(d, i + 1 - start);
                }
            }
            return None;
        }
        i += 1;
    }
    assert(s@.subrange(start as int, i as int) =~= d);
    Some(value as u32)
}

/// Whether two texts hold the same characters.
pub fn same_text(a: &str, b: &str) -> (r: bool)
    ensures
        r == (a@ == b@),
{
    let n = a.unicode_len();
    if n != b.unicode_len() {
        return false;
    }
    let mut i: usize = 0;
    while i < n
        invariant
            i <= n,
            n == a@.len(),
            n == b@.len(),
            a@.subrange(0, i as int) == b@.subrange(0, i as int),
        decreases n - i,
    {
        if a.get_char(i) != b.get_char(i) {
            return false;
        }
        assert(a@.subrange(0, i + 1) =~= a@.subrange(0, i as int).push(a@[i as int]));
        assert(b@.subrange(0, i + 1) =~= b@.subrange(0, i as int).push(b@[i as int]));
        i += 1;
    }
    assert(a@ =~= a@.subrange(0, n as int));
    assert(b@ =~= b@.subrange(0, n as int));
    true
}

/// Exactly the text `CD`.
fn is_cd_label(s: &String) -> (r: bool)
    ensures
        r == (s@ == "CD"@),
{
    same_text(s.as_str(), "CD")
}

/// A text field's value, or a copy of `default` where it is absent.
fn text_or_default(o: &Option<String>, default: &str) -> (r: String)
    ensures
        r@ == text_or(*o, default@),
{
    match o {
        Some(s) => s.clone(),
        None => String::from_str(default),
    }
}

impl AlbumTrack {
    /// The album track of a track entry, where its number reads as an
    /// unsigned 32-bit decimal; the title defaults to `unknown track` and the
    /// length to zero.
    pub fn new(track: &Track) -> (r: Option<AlbumTrack>)
        ensures
            match r {
                Some(a) => album_track_of(*track) == Some(a@),
                None => album_track_of(*track) is None,
            },
    {
        let number = match &track.number {
            Some(n) => n,
            None => return None,
        };
        let num = match parse_track_number(number.as_str()) {
            Some(v) => v,
            None => return None,
        };
        let title = text_or_default(&track.title, "unknown track");
        let len: u32 = match track.length {
            Some(l) => l,
            None => 0,
        };
        Some(AlbumTrack { num, title, len })
    }
}

/// The index of the first medium whose format is exactly `CD`.
fn find_cd_media(media: &Option<Vec<Medium>>) -> (r: Option<usize>)
    ensures
        match r {
            Some(k) => first_cd(*media) == Some(k as int) && k < media->0@.len(),
            None => first_cd(*media) is None,
        },
{
    let mediums = match media {
        Some(ms) => ms,
        None => return None,
    };
    let mut i: usize = 0;
    while i < mediums.len()
        invariant
            i <= mediums@.len(),
            media is Some,
            media->0@ == mediums@,
            first_cd_from(mediums@, 0) == first_cd_from(mediums@, i as int),
        decreases mediums.len() - i,
    {
        let m = &mediums[i];
        let found = match &m.format {
            Some(f) => is_cd_label(f),
            None => false,
        };
        assert(found == is_cd(mediums@[i as int]));
        if found {
            return Some(i);
        }
        i += 1;
    }
    None
}

/// The album tracks of a medium's entries, in order; entries whose number
/// does not read are left out.
fn parse_album_tracks(tracks: &Vec<Track>) -> (r: Vec<AlbumTrack>)
    ensures
        r@.map_values(|t: AlbumTrack| t@) == album_tracks_of(tracks@),
{
    let mut result: Vec<AlbumTrack> = Vec::new();
    let mut i: usize = 0;
    while i < tracks.len()
        invariant
            i <= tracks@.len(),
            result@.map_values(|t: AlbumTrack| t@) == album_tracks_of(
                tracks@.subrange(0, i as int),
            ),
        decreases tracks.len() - i,
    {
        let ghost before = result@;
        assert(tracks@.subrange(0, i + 1).drop_last() =~= tracks@.subrange(0, i as int));
        match AlbumTrack::new(&tracks[i]) {
            Some(t) => {
                result.push(t);
                assert(result@.map_values(|t: AlbumTrack| t@) =~= before.map_values(
                    |t: AlbumTrack| t@,
                ).push(t@));
            },
            None => {},
        }
        i += 1;
    }
    assert(tracks@.subrange(0, tracks@.len() as int) =~= tracks@);
    result
}

/// The first credited artist's name, or `Unknown artist`.
fn parse_artist(artist_credit: &Option<Vec<ArtistCredit>>) -> (r: String)
    ensures
        r@ == artist_of(*artist_credit),
{
    match artist_credit {
        Some(credits) => {
            if credits.len() > 0 {
                credits[0].name.clone()
            } else {
                String::from_str("Unknown artist")
            }
        },
        None => String::from_str("Unknown artist"),
    }
}

/// The front-cover address of a release whose archive reports a front image.
fn front_cover_url(release: &Release) -> (r: Option<String>)
    ensures
        text_opt(r) == front_cover_of(*release),
{
    match &release.cover_art_archive {
        Some(c) => {
            if c.front {
                let mut url = String::from_str("https://coverartarchive.org/release/");
                url.append(release.id.as_str());
                url.append("/front");
                Some(url)
            } else {
                None
            }
        },
        None => None,
    }
}

/// Resolves an answer to an album: the first release candidate, its first
/// medium whose format is `CD`, and that medium's track list; no album where
/// any of them is missing.
pub fn parse_metadata(response: &MusicBrainzResponse) -> (r: Option<Album>)
    ensures
        album_matches(r, resolve_of(*response)),
{
    let releases = match &response.releases {
        Some(rs) => rs,
        None => return None,
    };
    if releases.len() == 0 {
        return None;
    }
    let release = &releases[0];
    let k = match find_cd_media(&release.media) {
        Some(k) => k,
        None => return None,
    };
    let media = match &release.media {
        Some(ms) => ms,
        None => return None,
    };
    let tracks = match &media[k].tracks {
        Some(ts) => ts,
        None => return None,
    };
    let album = Album {
        title: release.title.clone(),
        country: text_or_default(&release.country, "unknown"),
        date: text_or_default(&release.date, "Unknown date"),
        artist: parse_artist(&release.artist_credit),
        tracks: parse_album_tracks(tracks),
        front_cover_url: front_cover_url(release),
    };
    Some(album)
}

/// The name of the cover image file for a response content type: `folder.png`
/// for `image/png`, else `folder.jpg` (also for JPEG and a missing type).
pub fn cover_file_name(content_type: Option<&str>) -> (r: String)
    ensures
        r@ == cover_file_name_of(
            match content_type {
                Some(t) => Some(t@),
                None => None,
            },
        ),
{
    let png = match content_type {
        Some(t) => same_text(t, "image/png"),
        None => false,
    };
    if png {
        String::from_str("folder.png")
    } else {
        String::from_str("folder.jpg")
    }
}

/// The address of the lookup for a disc identifier.
pub fn lookup_url(disc_id: &str) -> (r: String)
    ensures
        r@ == lookup_url_of(disc_id@),
{
    let mut url = String::from_str("https://musicbrainz.org/ws/2/discid/");
    url.append(disc_id);
    url.append("?inc=recordings+artist-credits");
    url
}

/// The identifying header value of a client.
pub fn user_agent(app_name: &str, app_version: &str, contact: &str) -> (r: String)
    ensures
        r@ == user_agent_of(app_name@, app_version@, contact@),
{
    let mut s = String::from_str(app_name);
    s.append("/");
    s.append(app_version);
    s.append(" (");
    s.append(contact);
    s.append(")");
    s
}

// ---------------------------------------------------------------------------
// Laws
// ---------------------------------------------------------------------------

proof fn lemma_no_cd_from(media: Seq<Medium>, i: int)
    requires
        0 <= i,
        forall|k: int| 0 <= k < media.len() ==> !is_cd(#[trigger] media[k]),
    ensures
        first_cd_from(media, i) is None,
    decreases media.len() - i,
{
    if i < media.len() {
        lemma_no_cd_from(media, i + 1);
    }
}

/// An answer with no release candidate, or whose candidates hold no medium
/// whose format is `CD`, resolves to no album.
pub proof fn lemma_no_cd_no_album(response: MusicBrainzResponse)
    requires
        match response.releases {
            Some(rs) => forall|r: int|
                0 <= r < rs@.len() ==> match (#[trigger] rs@[r]).media {
                    Some(ms) => forall|k: int| 0 <= k < ms@.len() ==> !is_cd(#[trigger] ms@[k]),
                    None => true,
                },
            None => true,
        },
    ensures
        resolve_of(response) is None,
{
    match response.releases {
        Some(rs) => {
            if rs@.len() > 0 {
                let first = rs@[0];
                match first.media {
                    Some(ms) => lemma_no_cd_from(ms@, 0),
                    None => {},
                }
            }
        },
        None => {},
    }
}

/// An answer whose release list is empty resolves to no album.
pub proof fn lemma_empty_releases_no_album(response: MusicBrainzResponse)
    requires
        match response.releases {
            Some(rs) => rs@.len() == 0,
            None => true,
        },
    ensures
        resolve_of(response) is None,
{
}

/// A release whose cover archive reports no front image gives an album
/// without a cover address.
pub proof fn lemma_no_front_no_cover_url(release: Release)
    requires
        match release.cover_art_archive {
            Some(c) => !c.front,
            None => true,
        },
    ensures
        match album_of_release(release) {
            Some(a) => a.front_cover_url is None,
            None => true,
        },
{
}

} // verus!
