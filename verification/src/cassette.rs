//! Cassettes: the records of the catalog, how one is made from a post of the
//! feed, and how it is filed under subcategories.

use crate::blogger::{Category, Entry};
use crate::html::{fragment_selection, select_in_fragment, selection_view, Selected, SelectedView};
use crate::identity::{url_uuid, uuid_of_url};
use crate::song::{song_views, Listing, Song, SongView};
use crate::subcategory::{
    subcategory_views, Subcategory, SubcategoryKind, SubcategoryKindView, SubcategoryView,
};
use crate::text::{
    append, contains, find_last, from_chars, has_substring, last_index_of, lemma_last_index_of,
    replace_char, slice, text_view, texts, to_chars, trim, trimmed, with_replaced,
};
use vstd::prelude::*;

verus! {

/// A playlist post of the site.
#[derive(Clone, Debug, PartialEq)]
pub struct Cassette {
    /// The identifier, derived from `url`.
    pub uuid: u128,
    /// The title of the post, trimmed.
    pub name: String,
    /// `name` with each `/` replaced by `-`, for use in a file path.
    pub safe_name: String,
    /// Where the cassette's files are kept.
    pub path: String,
    /// The address of the post.
    pub url: String,
    /// The address of the playlist.
    pub yt_url: String,
    /// The songs of the playlist.
    pub videos: Vec<Song>,
    /// The address of the post's first picture.
    pub image_url: Option<String>,
    /// The labels of the post, in the feed's order.
    pub labels: Vec<String>,
    /// The subcategories that the cassette is filed under.
    pub subcategories: Vec<Subcategory>,
    /// When the post was published, as the feed gives it.
    pub created_at: String,
}

/// A `Cassette` as plain values.
pub struct CassetteView {
    pub uuid: u128,
    pub name: Seq<char>,
    pub safe_name: Seq<char>,
    pub path: Seq<char>,
    pub url: Seq<char>,
    pub yt_url: Seq<char>,
    pub videos: Seq<SongView>,
    pub image_url: Option<Seq<char>>,
    pub labels: Seq<Seq<char>>,
    pub subcategories: Seq<SubcategoryView>,
    pub created_at: Seq<char>,
}

impl View for Cassette {
    type V = CassetteView;

    open spec fn view(&self) -> CassetteView {
        CassetteView {
            uuid: self.uuid,
            name: self.name@,
            safe_name: self.safe_name@,
            path: self.path@,
            url: self.url@,
            yt_url: self.yt_url@,
            videos: song_views(self.videos@),
            image_url: text_view(self.image_url),
            labels: texts(self.labels@),
            subcategories: subcategory_views(self.subcategories@),
            created_at: self.created_at@,
        }
    }
}

/// The view of a cassette that may be missing.
pub open spec fn cassette_view(cassette: Option<Cassette>) -> Option<CassetteView> {
    match cassette {
        Some(c) => Some(c@),
        None => None,
    }
}

/// The address `source` denotes a playlist of the video host.
pub open spec fn is_playlist_source(source: Seq<char>) -> bool {
    has_substring(source, "youtube.com"@) && has_substring(source, "list"@)
}

/// The file path of a cassette: `cassettes`, then the two segments of `url`
/// that stand before its last one (fewer where `url` has fewer), then
/// `safe_name`, joined by `/`.
pub open spec fn path_of(url: Seq<char>, safe_name: Seq<char>) -> Seq<char> {
    let end = last_index_of(url, '/');
    if end < 0 {
        "cassettes/"@ + safe_name
    } else {
        let middle = last_index_of(url.take(end), '/');
        let start = if middle < 0 {
            0
        } else {
            last_index_of(url.take(middle), '/') + 1
        };
        "cassettes/"@ + url.subrange(start, end) + "/"@ + safe_name
    }
}

/// The labels of a post, in order.
pub open spec fn terms_of(categories: Seq<Category>) -> Seq<Seq<char>> {
    categories.map_values(|c: Category| c.term@)
}

/// The cassette that the post `entry` stands for, where `frame` is the source
/// of the first frame in its content and `image` that of its first picture.
/// A post is a cassette if that frame shows a playlist and the post has a
/// third link, which is its address.
pub open spec fn extracted(entry: Entry, frame: Option<Seq<char>>, image: Option<Seq<char>>) -> Option<
    CassetteView,
> {
    if frame is Some && is_playlist_source(frame->0) && entry.link@.len() > 2 {
        let name = trimmed(entry.title.t@);
        let safe_name = with_replaced(name, '/', '-');
        let url = entry.link@[2].href@;
        Some(
            CassetteView {
                uuid: url_uuid(url),
                name,
                safe_name,
                path: path_of(url, safe_name),
                url,
                yt_url: frame->0,
                videos: Seq::empty(),
                image_url: image,
                labels: terms_of(entry.category@),
                subcategories: Seq::empty(),
                created_at: entry.published.t@,
            },
        )
    } else {
        None
    }
}

/// The cassette that the post `entry` stands for: `extracted`, with the
/// source of the first frame and of the first picture that its content
/// holds.
pub open spec fn cassette_of(entry: Entry) -> Option<CassetteView> {
    extracted(
        entry,
        first_attribute(fragment_selection(entry.content.t@, "iframe"@, "src"@)),
        first_attribute(fragment_selection(entry.content.t@, "img"@, "src"@)),
    )
}

/// The attribute of the first element of a selection, where there is one.
pub open spec fn first_attribute(found: Option<Seq<SelectedView>>) -> Option<Seq<char>> {
    match found {
        Some(elements) => if elements.len() > 0 {
            elements[0].attribute
        } else {
            None
        },
        None => None,
    }
}

/// The subcategory `sub` holds a cassette with the labels `labels` and the
/// address `url`: a label subcategory if its label is among `labels`, a
/// cassette subcategory if its address is `url`.
pub open spec fn files(sub: SubcategoryView, labels: Seq<Seq<char>>, url: Seq<char>) -> bool {
    match sub.kind {
        SubcategoryKindView::Label(label) => labels.contains(label),
        SubcategoryKindView::Cassette(address) => address == url,
    }
}

/// `files`, as a predicate on subcategories.
pub open spec fn filing(labels: Seq<Seq<char>>, url: Seq<char>) -> spec_fn(SubcategoryView) -> bool {
    |sub: SubcategoryView| files(sub, labels, url)
}

/// Those of `subcategories` that hold a cassette with the labels `labels` and
/// the address `url`, in their order.
pub open spec fn classification(
    subcategories: Seq<SubcategoryView>,
    labels: Seq<Seq<char>>,
    url: Seq<char>,
) -> Seq<SubcategoryView> {
    subcategories.filter(filing(labels, url))
}

/// Filtering a sequence that ends in `last`.
proof fn lemma_filter_push<A>(s: Seq<A>, last: A, keep: spec_fn(A) -> bool)
    ensures
        s.push(last).filter(keep) == if keep(last) {
            s.filter(keep).push(last)
        } else {
            s.filter(keep)
        },
{
    reveal(Seq::filter);
    assert(s.push(last).drop_last() =~= s);
}

/// Builds the path of a cassette's files.
pub fn cassette_path(url: &Vec<char>, safe_name: &Vec<char>) -> (path: Vec<char>)
    ensures
        path@ == path_of(url@, safe_name@),
{
    let mut path: Vec<char> = to_chars("cassettes/");
    assert(url@.take(url@.len() as int) =~= url@);
    match find_last(url, '/', url.len()) {
        None => {},
        Some(end) => {
            proof {
                lemma_last_index_of(url@, '/');
            }
            let start: usize = match find_last(url, '/', end) {
                None => 0,
                Some(middle) => {
                    proof {
                        lemma_last_index_of(url@.take(end as int), '/');
                        assert(url@.take(end as int).take(middle as int) =~= url@.take(
                            middle as int,
                        ));
                        lemma_last_index_of(url@.take(middle as int), '/');
                    }
                    match find_last(url, '/', middle) {
                        None => 0,
                        Some(before) => before + 1,
                    }
                },
            };
            proof {
                lemma_last_index_of(url@, '/');
                lemma_last_index_of(url@.take(end as int), '/');
                if last_index_of(url@.take(end as int), '/') >= 0 {
                    let middle = last_index_of(url@.take(end as int), '/');
                    lemma_last_index_of(url@.take(middle), '/');
                }
            }
            let directories = slice(url, start, end);
            append(&mut path, &directories);
            path.push('/');
            proof {
                reveal_strlit("/");
                assert("/"@ =~= seq!['/']);
            }
        },
    }
    append(&mut path, safe_name);
    path
}

/// Copies the labels of a post.
pub fn terms(categories: &Vec<Category>) -> (labels: Vec<String>)
    ensures
        texts(labels@) == terms_of(categories@),
{
    let mut labels: Vec<String> = Vec::new();
    let mut i: usize = 0;
    while i < categories.len()
        invariant
            i <= categories.len(),
            labels.len() == i,
            texts(labels@) == terms_of(categories@.take(i as int)),
        decreases categories.len() - i,
    {
        let ghost earlier = labels@;
        labels.push(categories[i].term.clone());
        proof {
            let wanted = terms_of(categories@.take(i + 1));
            assert(texts(labels@).len() == wanted.len());
            assert forall|j: int| 0 <= j < wanted.len() implies texts(labels@)[j] == wanted[j] by {
                if j < i {
                    assert(texts(earlier)[j] == terms_of(categories@.take(i as int))[j]);
                }
            }
            assert(texts(labels@) =~= wanted);
        }
        i += 1;
    }
    assert(categories@.take(categories@.len() as int) =~= categories@);
    labels
}

/// Tells whether `label` is among `labels`.
pub fn has_label(labels: &Vec<String>, label: &String) -> (found: bool)
    ensures
        found == texts(labels@).contains(label@),
{
    let mut i: usize = 0;
    while i < labels.len()
        invariant
            i <= labels.len(),
            forall|j: int| 0 <= j < i ==> texts(labels@)[j] != label@,
        decreases labels.len() - i,
    {
        if labels[i] == *label {
            assert(texts(labels@)[i as int] == label@);
            return true;
        }
        i += 1;
    }
    false
}

impl Cassette {
    /// The identifier is the one that the address gives.
    pub open spec fn identified(&self) -> bool {
        self.uuid == url_uuid(self.url@)
    }

    /// The cassette is filed under those of `subcategories` that hold it, and
    /// under no other.
    pub open spec fn classified_by(&self, subcategories: Seq<SubcategoryView>) -> bool {
        self@.subcategories == classification(subcategories, self@.labels, self@.url)
    }

    /// Builds the cassette of the post `entry` from what its content holds:
    /// `frame_source` is the source of the first frame in it, `image_source`
    /// that of the first picture. Returns `None` for a post that is no
    /// cassette.
    pub fn from_parts(
        entry: Entry,
        frame_source: Option<String>,
        image_source: Option<String>,
    ) -> (made: Option<Cassette>)
        ensures
            cassette_view(made) == extracted(
                entry,
                text_view(frame_source),
                text_view(image_source),
            ),
            made matches Some(cassette) ==> cassette.identified(),
    {
        let yt_url: String = match frame_source {
            Some(source) => source,
            None => {
                return None;
            },
        };
        let source = to_chars(yt_url.as_str());
        let host = to_chars("youtube.com");
        let marker = to_chars("list");
        if !(contains(&source, &host) && contains(&source, &marker)) {
            return None;
        }
        if entry.link.len() < 3 {
            return None;
        }
        let title = to_chars(entry.title.t.as_str());
        let name = trim(&title);
        let safe_name = replace_char(&name, '/', '-');
        let url: String = entry.link[2].href.clone();
        let uuid: u128 = uuid_of_url(url.as_str());
        let address = to_chars(url.as_str());
        let path = cassette_path(&address, &safe_name);
        let labels = terms(&entry.category);
        let cassette = Cassette {
            uuid,
            name: from_chars(&name),
            safe_name: from_chars(&safe_name),
            path: from_chars(&path),
            url,
            yt_url,
            videos: Vec::new(),
            image_url: image_source,
            labels,
            subcategories: Vec::new(),
            created_at: entry.published.t,
        };
        proof {
            assert(cassette@.videos =~= Seq::<SongView>::empty());
            assert(cassette@.subcategories =~= Seq::<SubcategoryView>::empty());
        }
        Some(cassette)
    }

    /// Builds the cassette of the post `entry`: reads the first frame and the
    /// first picture of its content, and goes on as `from_parts`.
    pub fn try_from_entry(entry: Entry) -> (made: Option<Cassette>)
        ensures
            cassette_view(made) == cassette_of(entry),
            made matches Some(cassette) ==> cassette.identified(),
    {
        let frames = select_in_fragment(entry.content.t.as_str(), "iframe", "src");
        let images = select_in_fragment(entry.content.t.as_str(), "img", "src");
        let frame_source = first_source(frames);
        let image_source = first_source(images);
        Cassette::from_parts(entry, frame_source, image_source)
    }

    /// Takes the songs of the cassette from what the downloader reports on
    /// its playlist. A report on a playlist replaces the songs, by none
    /// where it lists none; a report on a single video changes nothing.
    pub fn fill_songs(&mut self, listing: Listing)
        ensures
            *final(self) == (Cassette { videos: final(self).videos, ..*old(self) }),
            final(self).videos@ == match listing {
                Listing::Playlist(Some(songs)) => songs@,
                Listing::Playlist(None) => Seq::empty(),
                Listing::SingleVideo(_) => old(self).videos@,
            },
    {
        match listing {
            Listing::Playlist(Some(songs)) => {
                self.videos = songs;
            },
            Listing::Playlist(None) => {
                self.videos = Vec::new();
            },
            Listing::SingleVideo(_) => {},
        }
    }

    /// Files the cassette under those of `subcategories` that hold it: a
    /// label subcategory holds it if its label is among the cassette's
    /// labels, a cassette subcategory if its address is the cassette's.
    pub fn fill_subcategories(&mut self, subcategories: &Vec<Subcategory>)
        ensures
            final(self).classified_by(subcategory_views(subcategories@)),
            *final(self) == (Cassette { subcategories: final(self).subcategories, ..*old(self) }),
    {
        let mut kept: Vec<Subcategory> = Vec::new();
        let ghost keep = filing(self@.labels, self@.url);
        let mut i: usize = 0;
        proof {
            reveal(Seq::filter);
            assert(subcategory_views(subcategories@.take(0)) =~= Seq::empty());
            assert(subcategory_views(kept@) =~= Seq::empty());
        }
        while i < subcategories.len()
            invariant
                i <= subcategories.len(),
                keep == filing(self@.labels, self@.url),
                subcategory_views(kept@) == subcategory_views(subcategories@.take(i as int)).filter(
                    keep,
                ),
            decreases subcategories.len() - i,
        {
            let sub = &subcategories[i];
            let holds = match &sub.kind {
                SubcategoryKind::Label(label) => has_label(&self.labels, label),
                SubcategoryKind::Cassette(address) => self.url == *address,
            };
            proof {
                let before = subcategory_views(subcategories@.take(i as int));
                assert(subcategory_views(subcategories@.take(i + 1)) =~= before.push(sub@));
                lemma_filter_push(before, sub@, keep);
                assert(holds == keep(sub@));
            }
            if holds {
                let ghost earlier = kept@;
                kept.push(sub.duplicate());
                assert(subcategory_views(kept@) =~= subcategory_views(earlier).push(sub@));
            }
            i += 1;
        }
        assert(subcategories@.take(subcategories@.len() as int) =~= subcategories@);
        self.subcategories = kept;
    }
}

/// The attribute of the first element that was selected, where there is one.
pub fn first_source(found: Option<Vec<Selected>>) -> (source: Option<String>)
    ensures
        text_view(source) == first_attribute(selection_view(found)),
{
    match found {
        Some(elements) => {
            if elements.len() > 0 {
                elements[0].attribute.clone()
            } else {
                None
            }
        },
        None => None,
    }
}

impl CassetteView {
    /// The identifier is the one that the address gives.
    pub open spec fn identified(self) -> bool {
        self.uuid == url_uuid(self.url)
    }

    /// The cassette is filed under those of `subcategories` that hold it, and
    /// under no other.
    pub open spec fn classified_by(self, subcategories: Seq<SubcategoryView>) -> bool {
        self.subcategories == classification(subcategories, self.labels, self.url)
    }
}

/// The identifier, the safe name and the path of a cassette are functions of
/// its address and its name: the identifier is the hash of the address, the
/// safe name is the name without slashes, the path is made of both.
pub proof fn lemma_identity_is_derived(entry: Entry)
    ensures
        cassette_of(entry) matches Some(cassette) ==> {
            &&& cassette.identified()
            &&& cassette.safe_name == with_replaced(cassette.name, '/', '-')
            &&& cassette.path == path_of(cassette.url, cassette.safe_name)
            &&& !cassette.safe_name.contains('/')
        },
{
    if let Some(cassette) = cassette_of(entry) {
        assert forall|i: int| 0 <= i < cassette.safe_name.len() implies cassette.safe_name[i]
            != '/' by {}
    }
}

/// Reading a post twice gives the same cassette twice: whatever
/// `try_from_entry` returns for one post has one view, and with it one
/// identifier, one path and one safe name.
pub proof fn lemma_extraction_repeats(entry: Entry, first: Option<Cassette>, second: Option<Cassette>)
    requires
        cassette_view(first) == cassette_of(entry),
        cassette_view(second) == cassette_of(entry),
    ensures
        first is Some <==> second is Some,
        first is Some ==> {
            &&& first->0@ == second->0@
            &&& first->0.uuid == second->0.uuid
            &&& first->0.path@ == second->0.path@
            &&& first->0.safe_name@ == second->0.safe_name@
        },
{
}

/// A post is no cassette unless the first frame of its content shows a
/// playlist, and none unless it has a third link.
pub proof fn lemma_not_a_cassette(entry: Entry)
    ensures
        first_attribute(fragment_selection(entry.content.t@, "iframe"@, "src"@)) is None
            ==> cassette_of(entry) is None,
        first_attribute(fragment_selection(entry.content.t@, "iframe"@, "src"@)) matches Some(
            source,
        ) && !is_playlist_source(source) ==> cassette_of(entry) is None,
        entry.link@.len() < 3 ==> cassette_of(entry) is None,
{
}

/// The classification is exact: it holds nothing but subcategories of the
/// list that hold the cassette, and it holds every one of them.
pub proof fn lemma_classification_exact(
    subcategories: Seq<SubcategoryView>,
    labels: Seq<Seq<char>>,
    url: Seq<char>,
)
    ensures
        forall|sub: SubcategoryView| #[trigger]
            classification(subcategories, labels, url).contains(sub) <==> subcategories.contains(
                sub,
            ) && files(sub, labels, url),
    decreases subcategories.len(),
{
    reveal(Seq::filter);
    let keep = filing(labels, url);
    let kept = classification(subcategories, labels, url);
    if subcategories.len() > 0 {
        let front = subcategories.drop_last();
        let last = subcategories.last();
        lemma_classification_exact(front, labels, url);
        let front_kept = classification(front, labels, url);
        assert forall|sub: SubcategoryView| #[trigger]
            kept.contains(sub) <==> subcategories.contains(sub) && files(sub, labels, url) by {
            if kept.contains(sub) {
                let i = choose|i: int| 0 <= i < kept.len() && kept[i] == sub;
                if keep(last) && i == kept.len() - 1 {
                    assert(subcategories[subcategories.len() - 1] == sub);
                } else {
                    assert(front_kept[i] == sub);
                    assert(front_kept.contains(sub));
                    let j = choose|j: int| 0 <= j < front.len() && front[j] == sub;
                    assert(subcategories[j] == sub);
                }
            }
            if subcategories.contains(sub) && files(sub, labels, url) {
                let j = choose|j: int| 0 <= j < subcategories.len() && subcategories[j] == sub;
                if j == subcategories.len() - 1 {
                    assert(kept[kept.len() - 1] == sub);
                } else {
                    assert(front[j] == sub);
                    assert(front_kept.contains(sub));
                    let i = choose|i: int| 0 <= i < front_kept.len() && front_kept[i] == sub;
                    assert(kept[i] == sub);
                }
            }
        }
    }
}

} // verus!
