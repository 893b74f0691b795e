//! The descriptive tags written into each track's file.
use crate::disc_id::push_char;
use crate::metadata::{Album, AlbumTrack};
use vstd::prelude::*;
use vstd::string::StringExecFns;

verus! {

/// The decimal digits of `n`, without leading zeros (`0` for zero).
pub open spec fn decimal_of(n: nat) -> Seq<char>
    decreases n,
{
    if n < 10 {
        seq![digit_char(n)]
    } else {
        decimal_of(n / 10).push(digit_char(n % 10))
    }
}

pub open spec fn digit_char(d: nat) -> char {
    seq!['0', '1', '2', '3', '4', '5', '6', '7', '8', '9'][d as int]
}

fn push_digit(out: &mut String, d: u32)
    requires
        d < 10,
    ensures
        final(out)@ == old(out)@.push(digit_char(d as nat)),
{
    let c = match d {
        0 => '0',
        1 => '1',
        2 => '2',
        3 => '3',
        4 => '4',
        5 => '5',
        6 => '6',
        7 => '7',
        8 => '8',
        _ => '9',
    };
    push_char(out, c);
}

fn push_decimal(out: &mut String, n: u32)
    ensures
        final(out)@ == old(out)@ + decimal_of(n as nat),
    decreases n,
{
    let ghost before = out@;
    if n < 10 {
        push_digit(out, n);
    } else {
        push_decimal(out, n / 10);
        push_digit(out, n % 10);
    }
    assert(out@ =~= before + decimal_of(n as nat));
}

/// The decimal text of a number.
pub fn decimal_text(n: u32) -> (r: String)
    ensures
        r@ == decimal_of(n as nat),
{
    let mut s = String::new();
    push_decimal(&mut s, n);
    assert(s@ =~= decimal_of(n as nat));
    s
}

/// The tags of one track's file, name and value: its title, the album's
/// title and artist, its number, and the album's date and country.
pub open spec fn track_tags_of(track: AlbumTrack, album: Album) -> Seq<(Seq<char>, Seq<char>)> {
    seq![
        ("TITLE"@, track.title@),
        ("ALBUM"@, album.title@),
        ("ARTIST"@, album.artist@),
        ("TRACKNUMBER"@, decimal_of(track.num as nat)),
        ("DATE"@, album.date@),
        ("COUNTRY"@, album.country@),
    ]
}

fn tag(name: &str, value: String) -> (r: (String, String))
    ensures
        r.0@ == name@,
        r.1@ == value@,
{
    (String::from_str(name), value)
}

/// The tags to write into a track's file, in order.
pub fn track_tags(track: &AlbumTrack, album: &Album) -> (r: Vec<(String, String)>)
    ensures
        r@.map_values(|p: (String, String)| (p.0@, p.1@)) == track_tags_of(*track, *album),
{
    let mut tags: Vec<(String, String)> = Vec::new();
    tags.push(tag("TITLE", track.title.clone()));
    tags.push(tag("ALBUM", album.title.clone()));
    tags.push(tag("ARTIST", album.artist.clone()));
    tags.push(tag("TRACKNUMBER", decimal_text(track.num)));
    tags.push(tag("DATE", album.date.clone()));
    tags.push(tag("COUNTRY", album.country.clone()));
    assert(tags@.map_values(|p: (String, String)| (p.0@, p.1@)) =~= track_tags_of(*track, *album));
    tags
}

} // verus!
