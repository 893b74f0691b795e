//! The disc identifier: a table of contents turned into the key under which
//! the release database files a disc.
use base64::Engine;
use sha1::Digest;
use vstd::prelude::*;
use vstd::string::StrSliceExecFns;
use vstd::string::StringExecFns;

verus! {

/// Lead-in offset, in frames, added to every address of the table of contents
/// (two seconds at 75 frames a second).
pub const LEAD_IN_FRAMES: u32 = 150;

/// Number of track slots that the canonical text always holds.
pub const TRACK_SLOTS: u8 = 99;

/// One track of a table of contents: its number and the block it starts at.
#[derive(Clone, Copy, Debug)]
pub struct TocTrack {
    pub number: u8,
    pub start_lba: u32,
}

/// A disc's table of contents as the drive reports it.
#[derive(Debug)]
pub struct TableOfContents {
    pub first_track: u8,
    pub last_track: u8,
    pub leadout_lba: u32,
    pub tracks: Vec<TocTrack>,
}

// ---------------------------------------------------------------------------
// The canonical text
// ---------------------------------------------------------------------------

/// The sixteen upper-case hexadecimal digits, in order of value.
pub open spec fn hex_alphabet() -> Seq<char> {
    seq!['0', '1', '2', '3', '4', '5', '6', '7', '8', '9', 'A', 'B', 'C', 'D', 'E', 'F']
}

pub open spec fn is_upper_hex(c: char) -> bool {
    hex_alphabet().contains(c)
}

/// The last `width` upper-case hexadecimal digits of `n`, zero-padded on the left.
pub open spec fn hex_fixed(n: nat, width: nat) -> Seq<char>
    decreases width,
{
    if width == 0 {
        Seq::empty()
    } else {
        hex_fixed(n / 16, (width - 1) as nat).push(hex_alphabet()[(n % 16) as int])
    }
}

/// The first track of `tracks` that carries `number`, if any.
pub open spec fn track_with_number(tracks: Seq<TocTrack>, number: nat) -> Option<TocTrack>
    decreases tracks.len(),
{
    if tracks.len() == 0 {
        None
    } else if tracks[0].number == number {
        Some(tracks[0])
    } else {
        track_with_number(tracks.drop_first(), number)
    }
}

/// The value written for a slot: the track's start shifted by the lead-in,
/// or zero (eight `0` digits) where no track has that number.
pub open spec fn slot_offset(tracks: Seq<TocTrack>, slot: nat) -> nat {
    match track_with_number(tracks, slot) {
        Some(t) => (t.start_lba + LEAD_IN_FRAMES) as nat,
        None => 0,
    }
}

/// Eight digits for each of the slots `1..=count`.
pub open spec fn slot_digits(tracks: Seq<TocTrack>, count: nat) -> Seq<char>
    decreases count,
{
    if count == 0 {
        Seq::empty()
    } else {
        slot_digits(tracks, (count - 1) as nat) + hex_fixed(slot_offset(tracks, count), 8)
    }
}

/// First track, last track and lead-out, the part before the slots.
pub open spec fn toc_header(toc: TableOfContents) -> Seq<char> {
    hex_fixed(toc.first_track as nat, 2) + hex_fixed(toc.last_track as nat, 2) + hex_fixed(
        (toc.leadout_lba + LEAD_IN_FRAMES) as nat,
        8,
    )
}

/// The canonical text that is hashed to give the disc identifier.
pub open spec fn toc_text(toc: TableOfContents) -> Seq<char> {
    toc_header(toc) + slot_digits(toc.tracks@, TRACK_SLOTS as nat)
}

// ---------------------------------------------------------------------------
// Hash, encoding and the token
// ---------------------------------------------------------------------------

/// The SHA-1 digest of the UTF-8 bytes of a text.
pub uninterp spec fn sha1_of(text: Seq<char>) -> Seq<u8>;

/// The standard (padded) base64 encoding of some bytes.
pub uninterp spec fn base64_of(bytes: Seq<u8>) -> Seq<char>;

pub open spec fn is_base64_symbol(c: char) -> bool {
    ('A' <= c && c <= 'Z') || ('a' <= c && c <= 'z') || ('0' <= c && c <= '9') || c == '+' || c
        == '/'
}

/// Every `=` of the text is followed by `=` only.
pub open spec fn padding_is_trailing(s: Seq<char>) -> bool {
    forall|i: int, j: int| 0 <= i < j < s.len() && s[i] == '=' ==> s[j] == '='
}

/// How many `=` the padded encoding of `n` bytes ends with.
pub open spec fn padding_len(n: nat) -> nat {
    if n % 3 == 0 {
        0
    } else {
        (3 - n % 3) as nat
    }
}

/// The length of the padded encoding of `n` bytes.
pub open spec fn base64_len(n: nat) -> nat {
    4 * ((n + 2) / 3)
}

/// The characters of a token: ASCII letters and digits, `.` and `_`.
pub open spec fn is_token_char(c: char) -> bool {
    ('A' <= c && c <= 'Z') || ('a' <= c && c <= 'z') || ('0' <= c && c <= '9') || c == '.' || c
        == '_'
}

/// The characters that the token never holds.
pub open spec fn is_reserved(c: char) -> bool {
    c == '+' || c == '/' || c == '='
}

pub open spec fn token_char(c: char) -> char {
    if c == '+' {
        '.'
    } else if c == '/' {
        '_'
    } else {
        c
    }
}

/// The text without its trailing `=` characters.
pub open spec fn trim_padding(s: Seq<char>) -> Seq<char>
    decreases s.len(),
{
    if s.len() > 0 && s.last() == '=' {
        trim_padding(s.drop_last())
    } else {
        s
    }
}

pub open spec fn token_chars(encoded: Seq<char>) -> Seq<char> {
    encoded.map_values(|c: char| token_char(c))
}

/// The database's form of a base64 text: `+` becomes `.`, `/` becomes `_`,
/// and the trailing padding goes.
pub open spec fn token_of(encoded: Seq<char>) -> Seq<char> {
    trim_padding(token_chars(encoded))
}

/// The identifier of a disc with this table of contents.
pub open spec fn disc_id_of(toc: TableOfContents) -> Seq<char> {
    token_of(base64_of(sha1_of(toc_text(toc))))
}

/// Relies on `String::push`: appends one character.
#[verifier::external_body]
pub(crate) fn push_char(s: &mut String, c: char)
    ensures
        final(s)@ == old(s)@.push(c),
{
    s.push(c)
}

/// Relies on sha1's `Sha1::digest` over the text's UTF-8 bytes: the digest is
/// a function of the text alone, and is 160 bits long.
#[verifier::external_body]
fn sha1_digest(text: &str) -> (r: Vec<u8>)
    ensures
        r@ == sha1_of(text@),
        r@.len() == 20,
{
    sha1::Sha1::digest(text.as_bytes()).to_vec()
}

/// Relies on base64's `general_purpose::STANDARD.encode`: the standard
/// alphabet, four symbols for each group of three bytes begun, and a final
/// group that is padded with `=` to four symbols.
#[verifier::external_body]
fn base64_standard(bytes: &Vec<u8>) -> (r: String)
    requires
        bytes@.len() <= usize::MAX / 2,
    ensures
        r@ == base64_of(bytes@),
        r@.len() == base64_len(bytes@.len() as nat),
        forall|i: int| 0 <= i < r@.len() ==> is_base64_symbol(#[trigger] r@[i]) || r@[i] == '=',
        forall|i: int|
            0 <= i < r@.len() ==> (#[trigger] r@[i] == '=') == (i >= r@.len() - padding_len(
                bytes@.len() as nat,
            )),
{
    base64::engine::general_purpose::STANDARD.encode(bytes)
}

// ---------------------------------------------------------------------------
// Executable functions
// ---------------------------------------------------------------------------

fn hex_char(v: u8) -> (c: char)
    requires
        v < 16,
    ensures
        c == hex_alphabet()[v as int],
{
    match v {
        0 => '0',
        1 => '1',
        2 => '2',
        3 => '3',
        4 => '4',
        5 => '5',
        6 => '6',
        7 => '7',
        8 => '8',
        9 => '9',
        10 => 'A',
        11 => 'B',
        12 => 'C',
        13 => 'D',
        14 => 'E',
        _ => 'F',
    }
}

/// Appends the last `width` hexadecimal digits of `value`.
fn push_hex(out: &mut String, value: u64, width: usize)
    ensures
        final(out)@ == old(out)@ + hex_fixed(value as nat, width as nat),
    decreases width,
{
    if width == 0 {
        assert(out@ + hex_fixed(value as nat, 0) =~= out@);
    } else {
        let ghost before = out@;
        push_hex(out, value / 16, width - 1);
        push_char(out, hex_char((value % 16) as u8));
        assert(out@ =~= before + hex_fixed(value as nat, width as nat));
    }
}

/// The first track of `tracks` numbered `number`.
fn find_track(tracks: &Vec<TocTrack>, number: u8) -> (r: Option<TocTrack>)
    ensures
        r == track_with_number(tracks@, number as nat),
{
    let mut i: usize = 0;
    assert(tracks@.subrange(0, tracks@.len() as int) =~= tracks@);
    while i < tracks.len()
        invariant
            i <= tracks@.len(),
            track_with_number(tracks@, number as nat) == track_with_number(
                tracks@.subrange(i as int, tracks@.len() as int),
                number as nat,
            ),
        decreases tracks.len() - i,
    {
        let t = tracks[i];
        if t.number == number {
            return Some(t);
        }
        assert(tracks@.subrange(i as int, tracks@.len() as int).drop_first() =~= tracks@.subrange(
            i + 1,
            tracks@.len() as int,
        ));
        i += 1;
    }
    None
}

/// The canonical text of a table of contents: first and last track in two
/// digits each, the lead-out and each of the 99 slots in eight digits each.
pub fn format_toc_string(toc: &TableOfContents) -> (r: String)
    ensures
        r@ == toc_text(*toc),
        r@.len() == 804,
        forall|i: int| 0 <= i < r@.len() ==> is_upper_hex(#[trigger] r@[i]),
{
    proof {
        lemma_toc_text_shape(*toc);
    }
    let mut text = String::new();
    push_hex(&mut text, toc.first_track as u64, 2);
    push_hex(&mut text, toc.last_track as u64, 2);
    push_hex(&mut text, toc.leadout_lba as u64 + LEAD_IN_FRAMES as u64, 8);
    assert(text@ =~= toc_header(*toc) + slot_digits(toc.tracks@, 0));
    let mut slot: u8 = 1;
    while slot <= TRACK_SLOTS
        invariant
            1 <= slot <= TRACK_SLOTS + 1,
            text@ == toc_header(*toc) + slot_digits(toc.tracks@, (slot - 1) as nat),
        decreases TRACK_SLOTS + 1 - slot,
    {
        let offset: u64 = match find_track(&toc.tracks, slot) {
            Some(t) => t.start_lba as u64 + LEAD_IN_FRAMES as u64,
            None => 0,
        };
        push_hex(&mut text, offset, 8);
        assert(text@ =~= toc_header(*toc) + slot_digits(toc.tracks@, slot as nat));
        slot += 1;
    }
    text
}

/// Turns a base64 text into the database's token form.
pub fn musicbrainz_token(encoded: &str) -> (r: String)
    ensures
        r@ == token_of(encoded@),
{
    let ghost mapped = token_chars(encoded@);
    let n = encoded.unicode_len();
    let mut end: usize = n;
    assert(mapped.subrange(0, n as int) =~= mapped);
    while end > 0 && encoded.get_char(end - 1) == '='
        invariant
            end <= n,
            n == encoded@.len(),
            mapped == token_chars(encoded@),
            trim_padding(mapped) == trim_padding(mapped.subrange(0, end as int)),
        decreases end,
    {
        assert(mapped.subrange(0, end as int).drop_last() =~= mapped.subrange(0, end - 1));
        end -= 1;
    }
    let mut out = String::new();
    let mut i: usize = 0;
    while i < end
        invariant
            i <= end <= n,
            n == encoded@.len(),
            mapped == token_chars(encoded@),
            out@ == mapped.subrange(0, i as int),
        decreases end - i,
    {
        let c = encoded.get_char(i);
        let t = if c == '+' {
            '.'
        } else if c == '/' {
            '_'
        } else {
            c
        };
        push_char(&mut out, t);
        assert(out@ =~= mapped.subrange(0, i + 1));
        i += 1;
    }
    assert(trim_padding(mapped.subrange(0, end as int)) == mapped.subrange(0, end as int));
    out
}

/// The identifier that a SHA-1 digest gives: its base64 text in token form.
pub fn disc_id_from_digest(digest: &Vec<u8>) -> (r: String)
    requires
        digest@.len() <= usize::MAX / 2,
    ensures
        r@ == token_of(base64_of(digest@)),
        r@.len() == base64_len(digest@.len() as nat) - padding_len(digest@.len() as nat),
        forall|i: int| 0 <= i < r@.len() ==> is_token_char(#[trigger] r@[i]),
        forall|i: int| 0 <= i < r@.len() ==> !is_reserved(#[trigger] r@[i]),
{
    let encoded = base64_standard(digest);
    proof {
        let n = digest@.len() as nat;
        lemma_token_shape(encoded@, base64_len(n) - padding_len(n));
    }
    musicbrainz_token(encoded.as_str())
}

/// The disc identifier of a table of contents: 27 characters, each an ASCII
/// letter or digit, `.` or `_`.
pub fn calculate_music_brainz_id(toc: &TableOfContents) -> (r: String)
    ensures
        r@ == disc_id_of(*toc),
        r@.len() == 27,
        forall|i: int| 0 <= i < r@.len() ==> is_token_char(#[trigger] r@[i]),
        forall|i: int| 0 <= i < r@.len() ==> !is_reserved(#[trigger] r@[i]),
{
    let text = format_toc_string(toc);
    let digest = sha1_digest(text.as_str());
    disc_id_from_digest(&digest)
}

// ---------------------------------------------------------------------------
// Laws
// ---------------------------------------------------------------------------

proof fn lemma_hex_fixed(n: nat, width: nat)
    ensures
        hex_fixed(n, width).len() == width,
        forall|i: int| 0 <= i < width ==> is_upper_hex(#[trigger] hex_fixed(n, width)[i]),
    decreases width,
{
    if width > 0 {
        lemma_hex_fixed(n / 16, (width - 1) as nat);
        let d = (n % 16) as int;
        assert(hex_alphabet().len() == 16);
        assert(hex_alphabet().contains(hex_alphabet()[d]));
    }
}

proof fn lemma_slot_digits(tracks: Seq<TocTrack>, count: nat)
    ensures
        slot_digits(tracks, count).len() == 8 * count,
        forall|i: int|
            0 <= i < 8 * count ==> is_upper_hex(#[trigger] slot_digits(tracks, count)[i]),
    decreases count,
{
    if count > 0 {
        lemma_slot_digits(tracks, (count - 1) as nat);
        lemma_hex_fixed(slot_offset(tracks, count), 8);
    }
}

/// The canonical text is always 804 upper-case hexadecimal digits, however
/// many tracks the table of contents holds.
pub proof fn lemma_toc_text_shape(toc: TableOfContents)
    ensures
        toc_text(toc).len() == 804,
        forall|i: int| 0 <= i < 804 ==> is_upper_hex(#[trigger] toc_text(toc)[i]),
{
    lemma_hex_fixed(toc.first_track as nat, 2);
    lemma_hex_fixed(toc.last_track as nat, 2);
    lemma_hex_fixed((toc.leadout_lba + LEAD_IN_FRAMES) as nat, 8);
    lemma_slot_digits(toc.tracks@, TRACK_SLOTS as nat);
}

/// The identifier depends on the table of contents alone: two tables with the
/// same track bounds, lead-out and tracks give the same identifier.
pub proof fn lemma_disc_id_deterministic(a: TableOfContents, b: TableOfContents)
    requires
        a.first_track == b.first_track,
        a.last_track == b.last_track,
        a.leadout_lba == b.leadout_lba,
        a.tracks@ == b.tracks@,
    ensures
        toc_text(a) == toc_text(b),
        disc_id_of(a) == disc_id_of(b),
{
}

/// No two tracks carry the same number.
pub open spec fn numbers_unique(tracks: Seq<TocTrack>) -> bool {
    forall|i: int, j: int|
        0 <= i < tracks.len() && 0 <= j < tracks.len() && #[trigger] tracks[i].number
            == #[trigger] tracks[j].number ==> i == j
}

proof fn lemma_track_with_number(tracks: Seq<TocTrack>, number: nat)
    ensures
        match track_with_number(tracks, number) {
            Some(t) => tracks.contains(t) && t.number == number,
            None => forall|i: int| 0 <= i < tracks.len() ==> (#[trigger] tracks[i]).number != number,
        },
    decreases tracks.len(),
{
    if tracks.len() > 0 && tracks[0].number != number {
        let rest = tracks.drop_first();
        lemma_track_with_number(rest, number);
        match track_with_number(rest, number) {
            Some(t) => {
                let k = choose|k: int| 0 <= k < rest.len() && rest[k] == t;
                assert(tracks[k + 1] == t);
            },
            None => {
                assert forall|i: int| 0 <= i < tracks.len() implies (#[trigger] tracks[i]).number
                    != number by {
                    if i > 0 {
                        assert(tracks[i] == rest[i - 1]);
                    }
                }
            },
        }
    } else if tracks.len() > 0 {
        assert(tracks[0] == tracks[0]);
    }
}

proof fn lemma_same_track_with_number(a: Seq<TocTrack>, b: Seq<TocTrack>, number: nat)
    requires
        numbers_unique(b),
        forall|t: TocTrack| a.contains(t) <==> b.contains(t),
    ensures
        track_with_number(a, number) == track_with_number(b, number),
{
    lemma_track_with_number(a, number);
    lemma_track_with_number(b, number);
    match (track_with_number(a, number), track_with_number(b, number)) {
        (Some(t), Some(u)) => {
            let i = choose|i: int| 0 <= i < b.len() && b[i] == t;
            let j = choose|j: int| 0 <= j < b.len() && b[j] == u;
            assert(b[i].number == b[j].number);
        },
        (Some(t), None) => {
            let i = choose|i: int| 0 <= i < b.len() && b[i] == t;
            assert(b[i].number != number);
        },
        (None, Some(u)) => {
            assert(a.contains(u));
            let i = choose|i: int| 0 <= i < a.len() && a[i] == u;
            assert(a[i].number != number);
        },
        (None, None) => {},
    }
}

proof fn lemma_slot_digits_same(a: Seq<TocTrack>, b: Seq<TocTrack>, count: nat)
    requires
        forall|n: nat| 1 <= n <= count ==> #[trigger] track_with_number(a, n) == track_with_number(b, n),
    ensures
        slot_digits(a, count) == slot_digits(b, count),
    decreases count,
{
    if count > 0 {
        lemma_slot_digits_same(a, b, (count - 1) as nat);
        assert(track_with_number(a, count) == track_with_number(b, count));
    }
}

/// Reordering the tracks of a table of contents whose track numbers are
/// unique leaves the canonical text, and so the identifier, unchanged.
pub proof fn lemma_track_order_irrelevant(a: TableOfContents, b: TableOfContents)
    requires
        a.first_track == b.first_track,
        a.last_track == b.last_track,
        a.leadout_lba == b.leadout_lba,
        numbers_unique(b.tracks@),
        forall|t: TocTrack| a.tracks@.contains(t) <==> b.tracks@.contains(t),
    ensures
        toc_text(a) == toc_text(b),
        disc_id_of(a) == disc_id_of(b),
{
    assert forall|n: nat| 1 <= n <= TRACK_SLOTS implies #[trigger] track_with_number(a.tracks@, n)
        == track_with_number(b.tracks@, n) by {
        lemma_same_track_with_number(a.tracks@, b.tracks@, n);
    }
    lemma_slot_digits_same(a.tracks@, b.tracks@, TRACK_SLOTS as nat);
}

proof fn lemma_trim_padding(s: Seq<char>)
    requires
        padding_is_trailing(s),
    ensures
        trim_padding(s).len() <= s.len(),
        trim_padding(s) == s.subrange(0, trim_padding(s).len() as int),
        forall|i: int| 0 <= i < trim_padding(s).len() ==> #[trigger] trim_padding(s)[i] != '=',
    decreases s.len(),
{
    if s.len() > 0 && s.last() == '=' {
        lemma_trim_padding(s.drop_last());
        let k = trim_padding(s).len() as int;
        assert(s.drop_last().subrange(0, k) =~= s.subrange(0, k));
    } else {
        assert(s.subrange(0, s.len() as int) =~= s);
        assert forall|i: int| 0 <= i < s.len() implies #[trigger] s[i] != '=' by {
            if s[i] == '=' && i < s.len() - 1 {
                assert(s[s.len() - 1] == '=');
            }
        }
    }
}

proof fn lemma_trim_exact(s: Seq<char>, k: int)
    requires
        0 <= k <= s.len(),
        forall|i: int| 0 <= i < s.len() ==> (#[trigger] s[i] == '=') == (i >= k),
    ensures
        trim_padding(s) == s.subrange(0, k),
    decreases s.len(),
{
    if s.len() > k {
        lemma_trim_exact(s.drop_last(), k);
        assert(s.drop_last().subrange(0, k) =~= s.subrange(0, k));
    } else {
        assert(s.subrange(0, k) =~= s);
    }
}

/// A base64 text whose first `k` characters are symbols and whose rest is
/// padding gives a token of `k` characters, each an ASCII letter or digit,
/// `.` or `_`.
pub proof fn lemma_token_shape(encoded: Seq<char>, k: int)
    requires
        0 <= k <= encoded.len(),
        forall|i: int|
            0 <= i < encoded.len() ==> is_base64_symbol(#[trigger] encoded[i]) || encoded[i]
                == '=',
        forall|i: int| 0 <= i < encoded.len() ==> (#[trigger] encoded[i] == '=') == (i >= k),
    ensures
        token_of(encoded) == token_chars(encoded).subrange(0, k),
        token_of(encoded).len() == k,
        forall|i: int| 0 <= i < k ==> is_token_char(#[trigger] token_of(encoded)[i]),
{
    let m = token_chars(encoded);
    assert forall|i: int| 0 <= i < m.len() implies (#[trigger] m[i] == '=') == (i >= k) by {
        assert(m[i] == token_char(encoded[i]));
    }
    lemma_trim_exact(m, k);
    assert forall|i: int| 0 <= i < k implies is_token_char(#[trigger] token_of(encoded)[i]) by {
        assert(token_of(encoded)[i] == m[i]);
        assert(m[i] == token_char(encoded[i]));
        assert(is_base64_symbol(encoded[i]));
    }
}

/// A base64 text whose padding sits at its end gives a token with no `+`,
/// `/` or `=`.
pub proof fn lemma_token_has_no_reserved(encoded: Seq<char>)
    requires
        padding_is_trailing(encoded),
    ensures
        forall|i: int| 0 <= i < token_of(encoded).len() ==> !is_reserved(#[trigger] token_of(encoded)[i]),
{
    let m = token_chars(encoded);
    assert(padding_is_trailing(m));
    lemma_trim_padding(m);
    let t = trim_padding(m);
    assert forall|i: int| 0 <= i < t.len() implies !is_reserved(#[trigger] t[i]) by {
        assert(t[i] == m[i]);
    }
}

} // verus!
