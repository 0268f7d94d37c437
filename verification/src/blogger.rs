//! The feed of posts as the site serves it: one page of it is a `Document`.
//!
//! The types follow the feed's own layout field by field. They carry no rule
//! of their own; the extraction in `cassette` reads an `Entry`.

use vstd::prelude::*;

verus! {

/// One page of the feed.
#[derive(Default, Debug, Clone, PartialEq)]
pub struct Document {
    /// The version of the feed format.
    pub version: String,
    /// The character encoding that the feed declares.
    pub encoding: String,
    /// The page itself.
    pub feed: Feed,
}

/// The body of a page of the feed: what describes the blog, and the page's entries.
#[derive(Default, Debug, Clone, PartialEq)]
pub struct Feed {
    /// The default namespace.
    pub xmlns: String,
    /// The namespace of the paging fields.
    pub xmlns_open_search: String,
    /// The namespace of the blog host.
    pub xmlns_blogger: String,
    /// The namespace of the location fields.
    pub xmlns_georss: String,
    /// The namespace of the data fields.
    pub xmlns_gd: String,
    /// The namespace of the threading fields.
    pub xmlns_thr: String,
    /// The identifier of the feed.
    pub id: Id,
    /// When the feed was last changed.
    pub updated: Updated,
    /// Every label in use on the blog.
    pub category: Vec<Category>,
    /// The title of the blog.
    pub title: Title,
    /// The subtitle of the blog.
    pub subtitle: Subtitle,
    /// The links of the feed.
    pub link: Vec<Link>,
    /// The authors of the blog.
    pub author: Vec<Author>,
    /// The program that wrote the feed.
    pub generator: Generator,
    /// How many entries the whole feed holds.
    pub open_search_total_results: OpenSearchTotalResults,
    /// The position of this page's first entry.
    pub open_search_start_index: OpenSearchStartIndex,
    /// How many entries a page holds at most.
    pub open_search_items_per_page: OpenSearchItemsPerPage,
    /// The entries of this page; none at the end of the feed.
    pub entry: Vec<Entry>,
}

/// The identifier of a feed or of an entry.
#[derive(Default, Debug, Clone, PartialEq)]
pub struct Id {
    /// The text.
    pub t: String,
}

/// When a feed or an entry was last changed.
#[derive(Default, Debug, Clone, PartialEq)]
pub struct Updated {
    /// The text.
    pub t: String,
}

/// A title with the kind of its text.
#[derive(Default, Debug, Clone, PartialEq)]
pub struct Title {
    /// The kind of text.
    pub type_field: String,
    /// The text.
    pub t: String,
}

/// A subtitle with the kind of its text.
#[derive(Default, Debug, Clone, PartialEq)]
pub struct Subtitle {
    /// The kind of text.
    pub type_field: String,
    /// The text.
    pub t: String,
}

/// A link of a feed or of an entry.
#[derive(Default, Debug, Clone, PartialEq)]
pub struct Link {
    /// What the link stands for.
    pub rel: String,
    /// The media type of what it points to.
    pub type_field: Option<String>,
    /// The address.
    pub href: String,
    /// The title of what it points to.
    pub title: Option<String>,
}

/// An author of the blog.
#[derive(Default, Debug, Clone, PartialEq)]
pub struct Author {
    /// The author's name.
    pub name: Name,
    /// The address of the author's profile.
    pub uri: Option<Uri>,
    /// The author's mail address.
    pub email: Email,
    /// The author's picture.
    pub gd_image: GdImage,
}

/// The name of an author.
#[derive(Default, Debug, Clone, PartialEq)]
pub struct Name {
    /// The text.
    pub t: String,
}

/// The mail address of an author.
#[derive(Default, Debug, Clone, PartialEq)]
pub struct Email {
    /// The text.
    pub t: String,
}

/// The picture of an author.
#[derive(Default, Debug, Clone, PartialEq)]
pub struct GdImage {
    /// What the picture stands for.
    pub rel: String,
    /// The width in pixels, as text.
    pub width: String,
    /// The height in pixels, as text.
    pub height: String,
    /// The address of the picture.
    pub src: String,
}

/// The program that wrote the feed.
#[derive(Default, Debug, Clone, PartialEq)]
pub struct Generator {
    /// Its version.
    pub version: String,
    /// Its home page.
    pub uri: String,
    /// Its name.
    pub t: String,
}

/// How many entries the whole feed holds.
#[derive(Default, Debug, Clone, PartialEq)]
pub struct OpenSearchTotalResults {
    /// The text.
    pub t: String,
}

/// The position, counted from one, of a page's first entry.
#[derive(Default, Debug, Clone, PartialEq)]
pub struct OpenSearchStartIndex {
    /// The text.
    pub t: String,
}

/// How many entries a page holds at most.
#[derive(Default, Debug, Clone, PartialEq)]
pub struct OpenSearchItemsPerPage {
    /// The text.
    pub t: String,
}

/// One post of the blog.
#[derive(Default, Debug, Clone, PartialEq)]
pub struct Entry {
    /// The identifier of the post.
    pub id: Id,
    /// When the post was published.
    pub published: Published,
    /// When the post was last changed.
    pub updated: Updated,
    /// The labels of the post, in the feed's order.
    pub category: Vec<Category>,
    /// The title of the post.
    pub title: Title,
    /// The body of the post, as markup.
    pub content: Content,
    /// The links of the post, in the feed's order.
    pub link: Vec<Link>,
    /// The authors of the post.
    pub author: Vec<Author>,
    /// The preview picture of the post.
    pub media_thumbnail: Option<MediaThumbnail>,
}

/// When an entry was published.
#[derive(Default, Debug, Clone, PartialEq)]
pub struct Published {
    /// The text.
    pub t: String,
}

/// A label of the blog or of a post.
#[derive(Default, Debug, Clone, PartialEq)]
pub struct Category {
    /// The scheme that the label belongs to.
    pub scheme: Option<String>,
    /// The label.
    pub term: String,
}

/// The body of a post.
#[derive(Default, Debug, Clone, PartialEq)]
pub struct Content {
    /// The kind of text.
    pub type_field: String,
    /// The markup.
    pub t: String,
}

/// The address of an author's profile.
#[derive(Default, Debug, Clone, PartialEq)]
pub struct Uri {
    /// The text.
    pub t: String,
}

/// The preview picture of a post.
#[derive(Default, Debug, Clone, PartialEq)]
pub struct MediaThumbnail {
    /// The namespace of the media fields.
    pub xmlns_media: String,
    /// The address of the picture.
    pub url: String,
    /// The height in pixels, as text.
    pub height: String,
    /// The width in pixels, as text.
    pub width: String,
}

} // verus!
