//! Songs, and what the downloader reports on a video or a playlist.

use crate::text::{text_view, to_chars};
use vstd::prelude::*;

verus! {

/// A song of a cassette's playlist.
#[derive(Clone, Debug, PartialEq)]
pub struct Song {
    /// The identifier of the video.
    pub id: String,
    /// The title of the video.
    pub title: String,
    /// The length in seconds, where it is known.
    pub duration: Option<u64>,
}

/// A `Song` as plain values.
pub struct SongView {
    pub id: Seq<char>,
    pub title: Seq<char>,
    pub duration: Option<u64>,
}

impl View for Song {
    type V = SongView;

    open spec fn view(&self) -> SongView {
        SongView { id: self.id@, title: self.title@, duration: self.duration }
    }
}

/// The views of a list of songs, in order.
pub open spec fn song_views(songs: Seq<Song>) -> Seq<SongView> {
    songs.map_values(|s: Song| s@)
}

/// One of the forms in which a video is offered.
#[derive(Clone, Debug, PartialEq)]
pub struct Format {
    /// The name of the audio codec, where the form has sound.
    pub acodec: Option<String>,
    /// The address of the stream.
    pub url: Option<String>,
}

/// What the downloader reports on an address.
#[derive(Clone, Debug, PartialEq)]
pub enum Listing {
    /// The address is a single video, offered in these forms.
    SingleVideo(Option<Vec<Format>>),
    /// The address is a playlist of these songs.
    Playlist(Option<Vec<Song>>),
}

/// The form `format` carries sound in the codec that is asked for.
pub open spec fn is_opus(format: Format) -> bool {
    format.acodec is Some && format.acodec->0@ == "opus"@
}

/// The position of the first of `formats` that carries the codec asked for,
/// or their number where none does.
pub open spec fn first_opus(formats: Seq<Format>) -> int
    decreases formats.len(),
{
    if formats.len() == 0 {
        0
    } else if is_opus(formats[0]) {
        0
    } else {
        1 + first_opus(formats.drop_first())
    }
}

/// A position that holds a form with the codec, and has none before it, is
/// `first_opus`; so is the number of the forms where none has the codec.
proof fn lemma_first_opus_is(formats: Seq<Format>, at: int)
    requires
        0 <= at <= formats.len(),
        at < formats.len() ==> is_opus(formats[at]),
        forall|j: int| 0 <= j < at ==> !is_opus(formats[j]),
    ensures
        first_opus(formats) == at,
    decreases formats.len(),
{
    if formats.len() > 0 && at > 0 {
        let rest = formats.drop_first();
        assert forall|j: int| 0 <= j < at - 1 implies !is_opus(rest[j]) by {
            assert(rest[j] == formats[j + 1]);
        }
        lemma_first_opus_is(rest, at - 1);
    }
}

/// The address of the sound of a video: that of the first form with the
/// codec asked for. There is none for a playlist, for a video without forms
/// or without such a form, and where that form has no address.
pub open spec fn audio_address(listing: Listing) -> Option<Seq<char>> {
    match listing {
        Listing::SingleVideo(Some(formats)) => if first_opus(formats@) < formats@.len() {
            text_view(formats@[first_opus(formats@)].url)
        } else {
            None
        },
        _ => None,
    }
}

impl Song {
    /// The address of the song's sound, taken from what the downloader
    /// reports on the song's video.
    pub fn audio_url(&self, listing: &Listing) -> (address: Option<String>)
        ensures
            text_view(address) == audio_address(*listing),
    {
        match listing {
            Listing::SingleVideo(Some(formats)) => {
                let wanted = "opus";
                let mut i: usize = 0;
                while i < formats.len()
                    invariant
                        i <= formats.len(),
                        wanted@ == "opus"@,
                        *listing == Listing::SingleVideo(Some(*formats)),
                        forall|j: int| 0 <= j < i ==> !is_opus(formats@[j]),
                    decreases formats.len() - i,
                {
                    let found = match &formats[i].acodec {
                        Some(codec) => same_text(codec.as_str(), wanted),
                        None => false,
                    };
                    if found {
                        proof {
                            lemma_first_opus_is(formats@, i as int);
                        }
                        return formats[i].url.clone();
                    }
                    i += 1;
                }
                proof {
                    lemma_first_opus_is(formats@, formats@.len() as int);
                }
                None
            },
            _ => None,
        }
    }
}

/// Tells whether two texts are the same.
pub fn same_text(left: &str, right: &str) -> (same: bool)
    ensures
        same == (left@ == right@),
{
    let a = to_chars(left);
    let b = to_chars(right);
    if a.len() != b.len() {
        return false;
    }
    let mut i: usize = 0;
    while i < a.len()
        invariant
            i <= a.len(),
            a.len() == b.len(),
            a@ == left@,
            b@ == right@,
            forall|j: int| 0 <= j < i ==> a@[j] == b@[j],
        decreases a.len() - i,
    {
        if a[i] != b[i] {
            assert(left@[i as int] != right@[i as int]);
            return false;
        }
        i += 1;
    }
    assert(a@ =~= b@);
    true
}

} // verus!
