//! The Atom feed: its head and its entries.
use vstd::prelude::*;
use crate::config::{AuthorConfig, Config};
use crate::post::{Post, PostDate, PostView};
use crate::text::concat_str;

verus! {

/// The head of the Atom feed.
#[derive(Debug)]
pub struct Feed {
    pub title: String,
    pub subtitle: Option<String>,
    /// The feed's own URL.
    pub xml: String,
    /// The site's URL.
    pub link: String,
    pub id: String,
    /// When the feed was made, as an RFC 3339 timestamp.
    pub updated: String,
}

/// One post in the Atom feed.
#[derive(Debug)]
pub struct Entry {
    pub title: String,
    pub link: String,
    pub alternate: Option<String>,
    pub edit: Option<String>,
    pub id: String,
    pub published: Option<PostDate>,
    pub updated: Option<PostDate>,
    pub summary: String,
    /// The post rendered to HTML.
    pub content: String,
    pub author: Author,
}

/// The author of a feed entry.
#[derive(Debug)]
pub struct Author {
    pub name: String,
    pub email: String,
}

/// `/feed.atom`
pub open spec fn feed_path() -> Seq<char> {
    seq!['/', 'f', 'e', 'e', 'd', '.', 'a', 't', 'o', 'm']
}

/// `/post/`
pub open spec fn post_path() -> Seq<char> {
    seq!['/', 'p', 'o', 's', 't', '/']
}

/// The URL of the post with `slug` on the site at `host`.
pub open spec fn post_url(host: Seq<char>, slug: Seq<char>) -> Seq<char> {
    host + post_path() + slug
}

/// The suffix of every RFC 3339 timestamp written in UTC by `chrono`.
pub open spec fn utc_offset_suffix() -> Seq<char> {
    seq!['+', '0', '0', ':', '0', '0']
}

pub open spec fn is_digit(c: char) -> bool {
    '0' <= c && c <= '9'
}

/// Every character of `s` from `from` up to `to` is a decimal digit.
pub open spec fn digits_between(s: Seq<char>, from: int, to: int) -> bool {
    forall|i: int| from <= i < to ==> is_digit(#[trigger] s[i])
}

/// `s` has the shape of a UTC timestamp as `chrono` writes it in RFC 3339
/// with a numeric offset, its year taking `y` characters and its fraction of
/// a second `f`: a year of four digits (or, outside 0 to 9999, a sign and at
/// least four digits), `-MM-DDTHH:MM:SS`, a fraction of 3, 6 or 9 digits
/// behind a dot or none, and `+00:00`.
pub open spec fn rfc3339_utc_shape(s: Seq<char>, y: int, f: int) -> bool {
    &&& (y == 4 && digits_between(s, 0, 4)) || (y >= 5 && (s[0] == '+' || s[0] == '-')
        && digits_between(s, 1, y))
    &&& (f == 0 || f == 4 || f == 7 || f == 10)
    &&& s.len() == y + 15 + f + 6
    &&& s[y] == '-' && digits_between(s, y + 1, y + 3)
    &&& s[y + 3] == '-' && digits_between(s, y + 4, y + 6)
    &&& s[y + 6] == 'T' && digits_between(s, y + 7, y + 9)
    &&& s[y + 9] == ':' && digits_between(s, y + 10, y + 12)
    &&& s[y + 12] == ':' && digits_between(s, y + 13, y + 15)
    &&& f > 0 ==> s[y + 15] == '.' && digits_between(s, y + 16, y + 15 + f)
    &&& s.skip(y + 15 + f) == utc_offset_suffix()
}

/// `s` is an RFC 3339 timestamp in UTC as `chrono` writes one.
pub open spec fn is_rfc3339_utc(s: Seq<char>) -> bool {
    exists|y: int, f: int| #[trigger] rfc3339_utc_shape(s, y, f)
}

/// The head of the feed for `config`, made at the time `updated`.
pub open spec fn is_feed_for(feed: Feed, config: Config, updated: Seq<char>) -> bool {
    &&& feed.title == config.feed.title
    &&& feed.subtitle == config.feed.subtitle
    &&& feed.xml@ == config.host@ + feed_path()
    &&& feed.link == config.host
    &&& feed.id == config.feed.id
    &&& feed.updated@ == updated
}

impl Feed {
    /// The head of the feed for `config`, made at the time `updated`.
    pub fn from_config_at(config: Config, updated: String) -> (r: Feed)
        ensures
            is_feed_for(r, config, updated@),
    {
        let feed_atom = "/feed.atom";
        proof {
            reveal_strlit("/feed.atom");
        }
        assert(feed_atom@ =~= feed_path());
        let xml = concat_str(config.host.as_str(), feed_atom);
        Feed {
            title: config.feed.title,
            subtitle: config.feed.subtitle,
            xml,
            link: config.host,
            id: config.feed.id,
            updated,
        }
    }
}

impl vstd::std_specs::convert::FromSpecImpl<Config> for Feed {
    /// Not a function of the configuration alone: the head carries the time
    /// at which it was made.
    open spec fn obeys_from_spec() -> bool {
        false
    }

    open spec fn from_spec(v: Config) -> Feed {
        arbitrary()
    }
}

impl From<Config> for Feed {
    /// The head of the feed for `config`, made now.
    fn from(config: Config) -> (r: Feed)
        ensures
            exists|now: Seq<char>|
                is_rfc3339_utc(now) && #[trigger] is_feed_for(r, config, now),
    {
        let ghost c = config;
        let updated = utc_now_rfc3339();
        let r = Feed::from_config_at(config, updated);
        assert(is_feed_for(r, c, updated@));
        r
    }
}

impl Default for Feed {
    fn default() -> (r: Self)
        ensures
            r.title@ == Seq::<char>::empty(),
            r.subtitle is None,
            r.xml@ == Seq::<char>::empty(),
            r.link@ == Seq::<char>::empty(),
            r.id@ == Seq::<char>::empty(),
            r.updated@ == Seq::<char>::empty(),
    {
        Feed {
            title: String::new(),
            subtitle: None,
            xml: String::new(),
            link: String::new(),
            id: String::new(),
            updated: String::new(),
        }
    }
}

impl Default for Author {
    fn default() -> (r: Self)
        ensures
            r.name@ == Seq::<char>::empty(),
            r.email@ == Seq::<char>::empty(),
    {
        Author { name: String::new(), email: String::new() }
    }
}

impl Default for Entry {
    fn default() -> (r: Self)
        ensures
            r.title@ == Seq::<char>::empty(),
            r.link@ == Seq::<char>::empty(),
            r.alternate is None,
            r.edit is None,
            r.id@ == Seq::<char>::empty(),
            r.published is None,
            r.updated is None,
            r.summary@ == Seq::<char>::empty(),
            r.content@ == Seq::<char>::empty(),
            r.author.name@ == Seq::<char>::empty(),
            r.author.email@ == Seq::<char>::empty(),
    {
        Entry {
            title: String::new(),
            link: String::new(),
            alternate: None,
            edit: None,
            id: String::new(),
            published: None,
            updated: None,
            summary: String::new(),
            content: String::new(),
            author: Author::default(),
        }
    }
}

/// `entry` is the feed entry of the post `post` with slug `slug` on the site
/// at `host`, written by `author`, with the HTML `html`.
pub open spec fn is_entry_for(
    entry: Entry,
    host: Seq<char>,
    author: AuthorConfig,
    slug: Seq<char>,
    post: PostView,
    html: Seq<char>,
) -> bool {
    &&& entry.title@ == post.meta.title
    &&& entry.link@ == post_url(host, slug)
    &&& entry.alternate is None
    &&& entry.edit is None
    &&& entry.id@ == post_url(host, slug)
    &&& entry.published == Some(post.meta.date)
    &&& entry.updated == Some(post.meta.date)
    &&& entry.summary@ == post.meta.description
    &&& entry.content@ == html
    &&& entry.author.name@ == author.name@
    &&& entry.author.email@ == author.email@
}

/// An entry built for a post carries the post's date as both its published
/// and its updated date, its link and id are both the post's URL
/// `{host}/post/{slug}`, and its content is the HTML it was built with.
pub proof fn lemma_entry_for_post(
    entry: Entry,
    host: Seq<char>,
    author: AuthorConfig,
    slug: Seq<char>,
    post: PostView,
    html: Seq<char>,
)
    requires
        is_entry_for(entry, host, author, slug, post, html),
    ensures
        entry.published == Some(post.meta.date),
        entry.updated == Some(post.meta.date),
        entry.link@ == host + seq!['/', 'p', 'o', 's', 't', '/'] + slug,
        entry.id@ == entry.link@,
        entry.content@ == html,
        entry.title@ == post.meta.title,
        entry.summary@ == post.meta.description,
        entry.author.name@ == author.name@,
        entry.author.email@ == author.email@,
        entry.alternate is None,
        entry.edit is None,
{
}

/// The head of the feed carries the site's title, subtitle and id from the
/// configuration, links to the site at `host`, gives its own URL as
/// `{host}/feed.atom`, and is stamped with the time it was made at.
pub proof fn lemma_feed_head(feed: Feed, config: Config, updated: Seq<char>)
    requires
        is_feed_for(feed, config, updated),
    ensures
        feed.xml@ == config.host@ + seq!['/', 'f', 'e', 'e', 'd', '.', 'a', 't', 'o', 'm'],
        feed.link@ == config.host@,
        feed.xml@ == feed.link@ + seq!['/', 'f', 'e', 'e', 'd', '.', 'a', 't', 'o', 'm'],
        feed.title@ == config.feed.title@,
        feed.subtitle == config.feed.subtitle,
        feed.id@ == config.feed.id@,
        feed.updated@ == updated,
{
}

/// The feed entry of `post`, published under `slug` on the site at `host`.
pub fn feed_entry(host: &str, author: &AuthorConfig, slug: &str, post: &Post, html: String) -> (r:
    Entry)
    ensures
        is_entry_for(r, host@, *author, slug@, post@, html@),
        r.published == Some(post.meta.date),
        r.updated == Some(post.meta.date),
        r.link@ == r.id@,
        r.content == html,
{
    let post_prefix = "/post/";
    proof {
        reveal_strlit("/post/");
    }
    let base = concat_str(host, post_prefix);
    let link = concat_str(base.as_str(), slug);
    let id = concat_str(base.as_str(), slug);
    assert(post_prefix@ =~= post_path());
    assert(link@ =~= post_url(host@, slug@));
    Entry {
        title: post.meta.title.clone(),
        link,
        alternate: None,
        edit: None,
        id,
        published: Some(post.meta.date),
        updated: Some(post.meta.date),
        summary: post.meta.description.clone(),
        content: html,
        author: Author { name: author.name.clone(), email: author.email.clone() },
    }
}

/// `chrono::Utc::now().to_rfc3339()`: the current time in UTC. What time it
/// is, is not stated; the shape of the timestamp is, as `write_rfc3339`
/// writes it: the year, two-digit month, day, hour, minute and second, the
/// fraction of a second in 3, 6 or 9 digits where it is not zero, and the
/// zero offset as `+00:00`, since it is not asked for `Z`.
#[verifier::external_body]
fn utc_now_rfc3339() -> (r: String)
    ensures
        is_rfc3339_utc(r@),
{
    chrono::Utc::now().to_rfc3339()
}

} // verus!
