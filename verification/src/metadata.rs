//! The tags that are written into the sound file of a cassette's track.

use crate::cassette::Cassette;
use crate::text::{
    append, decimal_of, from_chars, push_decimal, replace_char, slice, to_chars, with_replaced,
};
use vstd::prelude::*;

verus! {

/// The tags of one track, each in the form `key=value`.
#[derive(Clone, Debug, PartialEq)]
pub struct TrackTags {
    /// The album: the cassette's name and the month of its post.
    pub album: String,
    /// The number of the track among the tracks of the cassette.
    pub track: String,
    /// The day of the post, as the time at which the track was made.
    pub creation_time: String,
    /// The day of the post.
    pub date: String,
}

/// `TrackTags` as plain values.
pub struct TrackTagsView {
    pub album: Seq<char>,
    pub track: Seq<char>,
    pub creation_time: Seq<char>,
    pub date: Seq<char>,
}

impl View for TrackTags {
    type V = TrackTagsView;

    open spec fn view(&self) -> TrackTagsView {
        TrackTagsView {
            album: self.album@,
            track: self.track@,
            creation_time: self.creation_time@,
            date: self.date@,
        }
    }
}

/// The tags of track `number` of `total` of a cassette with the name `name`
/// that was posted at `created_at`. The day is made of the first ten
/// characters of `created_at`, the month of the first seven, with `/` in
/// place of `-`. There are no tags where `created_at` is shorter than a day.
pub open spec fn tags_of(name: Seq<char>, created_at: Seq<char>, number: u8, total: u8) -> Option<
    TrackTagsView,
> {
    if created_at.len() < 10 {
        None
    } else {
        let day = created_at.take(10);
        Some(
            TrackTagsView {
                album: "album="@ + name + " | "@ + with_replaced(day.take(7), '-', '/'),
                track: "track="@ + decimal_of(number as nat) + "/"@ + decimal_of(total as nat),
                creation_time: "creation_time="@ + day,
                date: "date="@ + day,
            },
        )
    }
}

/// The view of tags that may be missing.
pub open spec fn tags_view(tags: Option<TrackTags>) -> Option<TrackTagsView> {
    match tags {
        Some(tags) => Some(tags@),
        None => None,
    }
}

/// Writes the tags of track `number` of `total` of `cassette`.
pub fn track_tags(cassette: &Cassette, number: u8, total: u8) -> (tags: Option<TrackTags>)
    ensures
        tags_view(tags) == tags_of(cassette.name@, cassette.created_at@, number, total),
{
    let created = to_chars(cassette.created_at.as_str());
    if created.len() < 10 {
        return None;
    }
    let day = slice(&created, 0, 10);
    let month = replace_char(&slice(&day, 0, 7), '-', '/');
    assert(created@.subrange(0, 10) =~= created@.take(10));
    assert(day@.subrange(0, 7) =~= day@.take(7));

    let mut album = to_chars("album=");
    append(&mut album, &to_chars(cassette.name.as_str()));
    append(&mut album, &to_chars(" | "));
    append(&mut album, &month);

    let mut track = to_chars("track=");
    push_decimal(&mut track, number as u64);
    append(&mut track, &to_chars("/"));
    push_decimal(&mut track, total as u64);

    let mut creation_time = to_chars("creation_time=");
    append(&mut creation_time, &day);

    let mut date = to_chars("date=");
    append(&mut date, &day);

    Some(
        TrackTags {
            album: from_chars(&album),
            track: from_chars(&track),
            creation_time: from_chars(&creation_time),
            date: from_chars(&date),
        },
    )
}

} // verus!
