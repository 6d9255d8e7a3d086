//! What each route of the server decides: which posts the home page lists,
//! which page a post's route serves and how the cache changes, which entries
//! the feed holds, and which file a static route serves.
use vstd::prelude::*;
use crate::config::Config;
use crate::feed::{Entry, feed_entry, is_entry_for};
use crate::html::{HTMLOptions, render_markdown, rendered_markdown};
use crate::post::{Post, PostView};
use crate::slug_map::SlugMap;
use crate::states::{CachedPost, CacheState, PostsState};
use crate::text::concat_str;

verus! {

/// The body served for the certificate authority's domain validation file.
pub fn pki_validation() -> (r: &'static str)
    ensures
        r@ == seq!['O', 'k'],
{
    let r = "Ok";
    proof {
        reveal_strlit("Ok");
    }
    r
}

/// `public/`
pub open spec fn public_dir() -> Seq<char> {
    seq!['p', 'u', 'b', 'l', 'i', 'c', '/']
}

/// The path of the file served for `/public/{filename}`: the file name under
/// `public/`, unless it is an absolute path, which replaces it (as
/// `Path::join` does).
pub open spec fn static_file_path_of(filename: Seq<char>) -> Seq<char> {
    if filename.len() > 0 && filename[0] == '/' {
        filename
    } else {
        public_dir() + filename
    }
}

/// The path of the file served for `/public/{filename}`.
pub fn static_file_path(filename: &str) -> (r: String)
    ensures
        r@ == static_file_path_of(filename@),
{
    let n = filename.unicode_len();
    if n > 0 && filename.get_char(0) == '/' {
        filename.to_owned()
    } else {
        let public = "public/";
        proof {
            reveal_strlit("public/");
            assert(public@ =~= public_dir());
        }
        concat_str(public, filename)
    }
}

/// The places among the first `n` of a slug map whose posts are not hidden,
/// in order.
pub open spec fn visible_places(values: Seq<Post>, n: nat) -> Seq<int>
    decreases n,
{
    if n == 0 {
        Seq::empty()
    } else {
        let rest = visible_places(values, (n - 1) as nat);
        if !values[n - 1].meta.hidden {
            rest.push(n - 1)
        } else {
            rest
        }
    }
}

/// The posts among the first `n` places of a slug map that are not hidden,
/// with their slugs, in order.
pub open spec fn visible_prefix(keys: Seq<Seq<char>>, values: Seq<Post>, n: nat) -> Seq<
    (Seq<char>, PostView),
> {
    visible_places(values, n).map_values(|i: int| (keys[i], values[i]@))
}

/// The posts that are listed, with their slugs, in the order of the map.
pub open spec fn visible_posts_of(posts: SlugMap<Post>) -> Seq<(Seq<char>, PostView)> {
    visible_prefix(posts.key_seq(), posts.value_seq(), posts.key_seq().len())
}

/// The listed places lie below `n`, rise strictly, hold posts that are not
/// hidden, and take in every place below `n` whose post is not hidden.
proof fn lemma_visible_places(values: Seq<Post>, n: nat)
    requires
        n <= values.len(),
    ensures
        forall|j: int|
            0 <= j < visible_places(values, n).len() ==> 0 <= #[trigger] visible_places(
                values,
                n,
            )[j] < n && !values[visible_places(values, n)[j]].meta.hidden,
        forall|a: int, b: int|
            0 <= a < b < visible_places(values, n).len() ==> #[trigger] visible_places(values, n)[a]
                < #[trigger] visible_places(values, n)[b],
        forall|i: int|
            0 <= i < n && !values[i].meta.hidden ==> #[trigger] visible_places(values, n).contains(
                i,
            ),
    decreases n,
{
    if n > 0 {
        let m = (n - 1) as nat;
        lemma_visible_places(values, m);
        let rest = visible_places(values, m);
        let all = visible_places(values, n);
        assert forall|i: int| 0 <= i < n && !values[i].meta.hidden implies #[trigger] all.contains(
            i,
        ) by {
            if i < m {
                assert(rest.contains(i));
                let j = choose|j: int| 0 <= j < rest.len() && rest[j] == i;
                assert(all[j] == i);
            } else {
                assert(all[rest.len() as int] == i);
            }
        }
    }
}

/// The posts the home page lists: every post that is not hidden, with its
/// slug, in the order of the map.
pub fn home_posts(state: &PostsState) -> (r: Vec<(String, Post)>)
    ensures
        r@.map_values(|e: (String, Post)| (e.0@, e.1@)) == visible_posts_of(state.posts),
{
    let posts = &state.posts;
    let n = posts.len();
    let ghost keys = posts.key_seq();
    let ghost values = posts.value_seq();
    let mut r: Vec<(String, Post)> = Vec::new();
    let mut i: usize = 0;
    while i < n
        invariant
            n == keys.len(),
            n == values.len(),
            keys == posts.key_seq(),
            values == posts.value_seq(),
            i <= n,
            r@.map_values(|e: (String, Post)| (e.0@, e.1@)) == visible_prefix(keys, values, i as nat),
        decreases n - i,
    {
        let post = posts.value_at(i);
        let ghost before = r@;
        if !post.meta.hidden {
            let slug = posts.key_at(i).clone();
            let copy = post.clone();
            assert(slug@ == keys[i as int]);
            assert(copy@ == values[i as int]@);
            r.push((slug, copy));
            proof {
                let f = |e: (String, Post)| (e.0@, e.1@);
                assert(r@.map_values(f) =~= before.map_values(f).push((keys[i as int], values[i as int]@)));
                assert(visible_places(values, (i + 1) as nat) == visible_places(values, i as nat).push(
                    i as int,
                ));
                assert(r@.map_values(|e: (String, Post)| (e.0@, e.1@)) =~= visible_prefix(
                    keys,
                    values,
                    (i + 1) as nat,
                ));
            }
        } else {
            proof {
                assert(visible_places(values, (i + 1) as nat) == visible_places(values, i as nat));
            }
        }
        i = i + 1;
    }
    r
}

/// Every post the home page lists is in the map under its slug and is not
/// hidden; every post of the map that is not hidden is listed, and no slug
/// twice.
pub proof fn lemma_home_lists_visible_posts(posts: SlugMap<Post>)
    requires
        posts.wf(),
    ensures
        ({
            let vis = visible_posts_of(posts);
            &&& forall|j: int|
                0 <= j < vis.len() ==> #[trigger] posts@.contains_key(vis[j].0)
                    && posts@[vis[j].0]@ == vis[j].1 && !vis[j].1.meta.hidden
            &&& forall|k: Seq<char>|
                #![trigger posts@[k]]
                posts@.contains_key(k) && !posts@[k].meta.hidden ==> exists|j: int|
                    0 <= j < vis.len() && vis[j].0 == k
            &&& forall|a: int, b: int|
                0 <= a < b < vis.len() ==> #[trigger] vis[a].0 != #[trigger] vis[b].0
        }),
{
    posts.lemma_shape();
    let keys = posts.key_seq();
    let values = posts.value_seq();
    let n = keys.len();
    lemma_visible_places(values, n);
    let places = visible_places(values, n);
    let vis = visible_posts_of(posts);
    assert forall|j: int| 0 <= j < vis.len() implies #[trigger] posts@.contains_key(vis[j].0)
        && posts@[vis[j].0]@ == vis[j].1 && !vis[j].1.meta.hidden by {
        let i = places[j];
        assert(0 <= i < n);
        assert(posts@[keys[i]] == values[i]);
        assert(keys.contains(keys[i]));
    }
    assert forall|k: Seq<char>|
        #![trigger posts@[k]]
        posts@.contains_key(k) && !posts@[k].meta.hidden implies exists|j: int|
            0 <= j < vis.len() && vis[j].0 == k by {
        assert(keys.contains(k));
        let i = choose|i: int| 0 <= i < keys.len() && keys[i] == k;
        assert(posts@[keys[i]] == values[i]);
        assert(places.contains(i));
        let j = choose|j: int| 0 <= j < places.len() && places[j] == i;
        assert(vis[j].0 == k);
    }
    assert forall|a: int, b: int| 0 <= a < b < vis.len() implies #[trigger] vis[a].0
        != #[trigger] vis[b].0 by {
        assert(places[a] < places[b]);
        assert(keys[places[a]] != keys[places[b]]);
    }
}

/// What a post's route serves.
pub enum PostPage {
    /// The page was in the cache.
    Cached(CachedPost),
    /// The page was rendered now, and is in the cache from now on.
    Rendered(CachedPost),
    /// There is no post with the slug.
    NotFound,
}

/// The two pages hold the same HTML and metadata.
pub open spec fn same_page(a: CachedPost, b: CachedPost) -> bool {
    a.html@ == b.html@ && a.meta@ == b.meta@
}

/// The route of the post `slug` served `page`, with the cache `before` the
/// request and `after` it: a cached page is served from the cache, which
/// stays as it is; a post that is not cached is rendered and cached under its
/// slug, the rest of the cache staying as it is; a slug that is neither cached
/// nor a post is not found, and the cache stays as it is.
pub open spec fn lookup_outcome(
    posts: Map<Seq<char>, Post>,
    options: HTMLOptions,
    before: Map<Seq<char>, CachedPost>,
    slug: Seq<char>,
    page: PostPage,
    after: Map<Seq<char>, CachedPost>,
) -> bool {
    if before.contains_key(slug) {
        &&& page matches PostPage::Cached(c) && same_page(c, before[slug])
        &&& after == before
    } else if posts.contains_key(slug) {
        &&& page matches PostPage::Rendered(c) && c.meta@ == posts[slug].meta@ && c.html@
            == rendered_markdown(posts[slug].content@, options) && after.contains_key(
            slug,
        ) && same_page(after[slug], c)
        &&& after == before.insert(slug, after[slug])
    } else {
        &&& page is NotFound
        &&& after == before
    }
}

/// The page the route of the post `slug` serves, from the cache when it is
/// there, else rendered with `options` and cached.
pub fn lookup_post(posts: &PostsState, cache: &mut CacheState, slug: &str, options: &HTMLOptions) -> (r:
    PostPage)
    ensures
        lookup_outcome(
            posts.posts@,
            *options,
            old(cache).cache@,
            slug@,
            r,
            final(cache).cache@,
        ),
{
    match cache.cache.get(slug) {
        Some(c) => {
            return PostPage::Cached(CachedPost { html: c.html.clone(), meta: c.meta.clone() });
        },
        None => {},
    }
    match posts.posts.get(slug) {
        Some(post) => {
            let html = render_markdown(post.content.as_str(), options);
            let stored = CachedPost { html: html.clone(), meta: post.meta.clone() };
            cache.cache.insert(slug.to_owned(), stored);
            PostPage::Rendered(CachedPost { html, meta: post.meta.clone() })
        },
        None => PostPage::NotFound,
    }
}

/// A post that is served once is served from the cache the next time, with
/// the same HTML and metadata, and the cache stays as it is; a slug that is
/// not found stays not found.
pub proof fn lemma_lookup_twice(
    posts: Map<Seq<char>, Post>,
    options: HTMLOptions,
    cache0: Map<Seq<char>, CachedPost>,
    slug: Seq<char>,
    page1: PostPage,
    cache1: Map<Seq<char>, CachedPost>,
    page2: PostPage,
    cache2: Map<Seq<char>, CachedPost>,
)
    requires
        lookup_outcome(posts, options, cache0, slug, page1, cache1),
        lookup_outcome(posts, options, cache1, slug, page2, cache2),
    ensures
        page1 is NotFound ==> page2 is NotFound,
        page1 matches PostPage::Cached(c1) ==> page2 matches PostPage::Cached(c2) && same_page(
            c2,
            c1,
        ),
        page1 matches PostPage::Rendered(c1) ==> page2 matches PostPage::Cached(c2) && same_page(
            c2,
            c1,
        ),
        cache2 == cache1,
{
    if cache0.contains_key(slug) {
    } else if posts.contains_key(slug) {
        assert(cache1.contains_key(slug));
    } else {
    }
}

/// The feed for `config` holds `entries` for the posts among the first `n`
/// places of the map, built with the cache `before` and leaving it `after`:
/// one entry per listed post, in order; the HTML of a post comes from the
/// cache where it is there, else it is rendered and cached under the post's
/// slug with its metadata; nothing already cached changes, and nothing but a
/// listed post is added.
#[verifier::opaque]
pub open spec fn feed_prefix_outcome(
    config: Config,
    options: HTMLOptions,
    keys: Seq<Seq<char>>,
    values: Seq<Post>,
    n: nat,
    before: Map<Seq<char>, CachedPost>,
    entries: Seq<Entry>,
    after: Map<Seq<char>, CachedPost>,
) -> bool {
    let vis = visible_prefix(keys, values, n);
    &&& entries.len() == vis.len()
    &&& forall|j: int|
        0 <= j < vis.len() ==> is_entry_for(
            #[trigger] entries[j],
            config.host@,
            config.feed.author,
            vis[j].0,
            vis[j].1,
            entries[j].content@,
        )
    &&& forall|j: int|
        0 <= j < vis.len() && before.contains_key(vis[j].0) ==> (#[trigger] entries[j]).content@
            == before[vis[j].0].html@
    &&& forall|j: int|
        0 <= j < vis.len() && !before.contains_key(vis[j].0) ==> (#[trigger] entries[j]).content@
            == rendered_markdown(vis[j].1.content, options)
    &&& forall|j: int|
        0 <= j < vis.len() ==> after.contains_key(vis[j].0) && after[vis[j].0].html@ == (
        #[trigger] entries[j]).content@
    &&& forall|j: int|
        0 <= j < vis.len() && !before.contains_key(vis[j].0) ==> after[vis[j].0].meta@
            == (#[trigger] vis[j]).1.meta
    &&& forall|k: Seq<char>|
        #[trigger] before.contains_key(k) ==> after.contains_key(k) && after[k] == before[k]
    &&& forall|k: Seq<char>|
        #[trigger] after.contains_key(k) ==> before.contains_key(k) || exists|j: int|
            0 <= j < vis.len() && vis[j].0 == k
}

/// The feed for `config` holds `entries`, built with the cache `before` and
/// leaving it `after` (`feed_prefix_outcome` over every place of the map).
pub open spec fn feed_outcome(
    config: Config,
    options: HTMLOptions,
    posts: SlugMap<Post>,
    before: Map<Seq<char>, CachedPost>,
    entries: Seq<Entry>,
    after: Map<Seq<char>, CachedPost>,
) -> bool {
    feed_prefix_outcome(
        config,
        options,
        posts.key_seq(),
        posts.value_seq(),
        posts.key_seq().len(),
        before,
        entries,
        after,
    )
}

/// The entries of the Atom feed for `config`, one per listed post, with each
/// post's HTML taken from the cache or rendered with `options` and cached.
pub fn feed_entries(
    config: &Config,
    state: &PostsState,
    cache: &mut CacheState,
    options: &HTMLOptions,
) -> (r: Vec<Entry>)
    ensures
        feed_outcome(*config, *options, state.posts, old(cache).cache@, r@, final(cache).cache@),
{
    let posts = &state.posts;
    let n = posts.len();
    let ghost keys = posts.key_seq();
    let ghost values = posts.value_seq();
    let ghost before = cache.cache@;
    let mut r: Vec<Entry> = Vec::new();
    let mut i: usize = 0;
    proof {
        reveal(feed_prefix_outcome);
        assert(visible_prefix(keys, values, 0) =~= Seq::empty());
    }
    while i < n
        invariant
            n == keys.len(),
            n == values.len(),
            keys == posts.key_seq(),
            values == posts.value_seq(),
            keys.no_duplicates(),
            i <= n,
            feed_prefix_outcome(*config, *options, keys, values, i as nat, before, r@, cache.cache@),
        decreases n - i,
    {
        let post = posts.value_at(i);
        let slug = posts.key_at(i);
        let ghost mid = cache.cache@;
        let ghost r_before = r@;
        if !post.meta.hidden {
            let html = match cache.cache.get(slug.as_str()) {
                Some(c) => c.html.clone(),
                None => {
                    let h = render_markdown(post.content.as_str(), options);
                    let stored = CachedPost { html: h.clone(), meta: post.meta.clone() };
                    cache.cache.insert(slug.clone(), stored);
                    h
                },
            };
            let entry = feed_entry(
                config.host.as_str(),
                &config.feed.author,
                slug.as_str(),
                post,
                html,
            );
            r.push(entry);
            proof {
                lemma_feed_step(
                    *config,
                    *options,
                    keys,
                    values,
                    i as nat,
                    before,
                    r_before,
                    mid,
                    entry,
                    cache.cache@,
                );
            }
        } else {
            proof {
                lemma_feed_skip(*config, *options, keys, values, i as nat, before, r@, mid);
            }
        }
        i = i + 1;
    }
    r
}

proof fn lemma_feed_skip(
    config: Config,
    options: HTMLOptions,
    keys: Seq<Seq<char>>,
    values: Seq<Post>,
    i: nat,
    before: Map<Seq<char>, CachedPost>,
    entries: Seq<Entry>,
    after: Map<Seq<char>, CachedPost>,
)
    requires
        i < keys.len(),
        keys.len() == values.len(),
        values[i as int].meta.hidden,
        feed_prefix_outcome(config, options, keys, values, i, before, entries, after),
    ensures
        feed_prefix_outcome(config, options, keys, values, i + 1, before, entries, after),
{
    reveal(feed_prefix_outcome);
    assert(visible_places(values, i + 1) == visible_places(values, i));
    assert(visible_prefix(keys, values, i + 1) == visible_prefix(keys, values, i));
}

proof fn lemma_feed_step(
    config: Config,
    options: HTMLOptions,
    keys: Seq<Seq<char>>,
    values: Seq<Post>,
    i: nat,
    before: Map<Seq<char>, CachedPost>,
    entries: Seq<Entry>,
    mid: Map<Seq<char>, CachedPost>,
    entry: Entry,
    after: Map<Seq<char>, CachedPost>,
)
    requires
        i < keys.len(),
        keys.len() == values.len(),
        keys.no_duplicates(),
        !values[i as int].meta.hidden,
        feed_prefix_outcome(config, options, keys, values, i, before, entries, mid),
        is_entry_for(
            entry,
            config.host@,
            config.feed.author,
            keys[i as int],
            values[i as int]@,
            entry.content@,
        ),
        mid.contains_key(keys[i as int]) ==> entry.content@ == mid[keys[i as int]].html@ && after
            == mid,
        !mid.contains_key(keys[i as int]) ==> after == mid.insert(
            keys[i as int],
            after[keys[i as int]],
        ) && after[keys[i as int]].html@ == entry.content@ && after[keys[i as int]].meta@
            == values[i as int].meta@ && entry.content@ == rendered_markdown(
            values[i as int].content@,
            options,
        ),
    ensures
        feed_prefix_outcome(config, options, keys, values, i + 1, before, entries.push(entry), after),
{
    reveal(feed_prefix_outcome);
    lemma_visible_places(values, i);
    let places = visible_places(values, i);
    let vis = visible_prefix(keys, values, i);
    let vis1 = visible_prefix(keys, values, i + 1);
    let k = keys[i as int];
    let es = entries.push(entry);
    assert(visible_places(values, i + 1) == places.push(i as int));
    assert(vis1 =~= vis.push((k, values[i as int]@)));
    assert forall|j: int| 0 <= j < vis.len() implies #[trigger] vis[j].0 != k by {
        assert(places[j] < i);
        assert(keys[places[j]] != keys[i as int]);
    }
    assert(!before.contains_key(k) ==> !mid.contains_key(k)) by {
        if !before.contains_key(k) && mid.contains_key(k) {
            let j = choose|j: int| 0 <= j < vis.len() && vis[j].0 == k;
            assert(vis[j].0 != k);
        }
    }
    assert forall|j: int| 0 <= j < vis1.len() implies is_entry_for(
        #[trigger] es[j],
        config.host@,
        config.feed.author,
        vis1[j].0,
        vis1[j].1,
        es[j].content@,
    ) by {
        if j < vis.len() {
            assert(es[j] == entries[j]);
            assert(vis1[j] == vis[j]);
        }
    }
    assert forall|j: int| 0 <= j < vis1.len() && before.contains_key(vis1[j].0) implies (
    #[trigger] es[j]).content@ == before[vis1[j].0].html@ by {
        if j < vis.len() {
            assert(es[j] == entries[j]);
            assert(vis1[j] == vis[j]);
        } else {
            assert(mid[k] == before[k]);
        }
    }
    assert forall|j: int| 0 <= j < vis1.len() implies after.contains_key(vis1[j].0)
        && after[vis1[j].0].html@ == (#[trigger] es[j]).content@ by {
        if j < vis.len() {
            assert(es[j] == entries[j]);
            assert(vis1[j] == vis[j]);
            assert(vis[j].0 != k);
            assert(mid.contains_key(vis[j].0));
        }
    }
    assert forall|j: int| 0 <= j < vis1.len() && !before.contains_key(vis1[j].0) implies after[vis1[j].0].meta@
        == (#[trigger] vis1[j]).1.meta by {
        if j < vis.len() {
            assert(vis1[j] == vis[j]);
            assert(vis[j].0 != k);
        }
    }
    assert forall|q: Seq<char>| #[trigger] before.contains_key(q) implies after.contains_key(q)
        && after[q] == before[q] by {
        assert(mid.contains_key(q));
    }
    assert forall|q: Seq<char>| #[trigger] after.contains_key(q) implies before.contains_key(q)
        || exists|j: int| 0 <= j < vis1.len() && vis1[j].0 == q by {
        if q == k {
            assert(vis1[vis.len() as int].0 == q);
        } else {
            assert(mid.contains_key(q));
            if !before.contains_key(q) {
                let j = choose|j: int| 0 <= j < vis.len() && vis[j].0 == q;
                assert(vis1[j] == vis[j]);
            }
        }
    }
}

} // verus!

verus! {

/// Serving a post never changes or drops a page already in the cache.
pub proof fn lemma_lookup_keeps_cache(
    posts: Map<Seq<char>, Post>,
    options: HTMLOptions,
    before: Map<Seq<char>, CachedPost>,
    slug: Seq<char>,
    page: PostPage,
    after: Map<Seq<char>, CachedPost>,
)
    requires
        lookup_outcome(posts, options, before, slug, page, after),
    ensures
        forall|k: Seq<char>| #[trigger]
            before.contains_key(k) ==> after.contains_key(k) && after[k] == before[k],
        page is Rendered <==> !before.contains_key(slug) && posts.contains_key(slug),
{
}

/// Once the feed is built, serving any post it lists comes from the cache,
/// with the HTML of the post's feed entry, and leaves the cache as it is.
pub proof fn lemma_feed_then_lookup(
    config: Config,
    options: HTMLOptions,
    posts: SlugMap<Post>,
    before: Map<Seq<char>, CachedPost>,
    entries: Seq<Entry>,
    after: Map<Seq<char>, CachedPost>,
    j: int,
    page: PostPage,
    after2: Map<Seq<char>, CachedPost>,
)
    requires
        feed_outcome(config, options, posts, before, entries, after),
        0 <= j < visible_posts_of(posts).len(),
        lookup_outcome(posts@, options, after, visible_posts_of(posts)[j].0, page, after2),
    ensures
        page matches PostPage::Cached(c) && c.html@ == entries[j].content@,
        after2 == after,
{
    reveal(feed_prefix_outcome);
    let vis = visible_posts_of(posts);
    assert(after.contains_key(vis[j].0) && after[vis[j].0].html@ == entries[j].content@);
}

} // verus!

verus! {

/// Every entry of the feed is dated with its post's date, as published and
/// as updated, and links to the post at `{host}/post/{slug}`.
pub proof fn lemma_feed_entries_dated(
    config: Config,
    options: HTMLOptions,
    posts: SlugMap<Post>,
    before: Map<Seq<char>, CachedPost>,
    entries: Seq<Entry>,
    after: Map<Seq<char>, CachedPost>,
)
    requires
        feed_outcome(config, options, posts, before, entries, after),
    ensures
        entries.len() == visible_posts_of(posts).len(),
        forall|j: int|
            0 <= j < entries.len() ==> {
                &&& (#[trigger] entries[j]).published == Some(visible_posts_of(posts)[j].1.meta.date)
                &&& entries[j].updated == Some(visible_posts_of(posts)[j].1.meta.date)
                &&& entries[j].link@ == config.host@ + seq!['/', 'p', 'o', 's', 't', '/']
                    + visible_posts_of(posts)[j].0
                &&& entries[j].id@ == entries[j].link@
                &&& entries[j].title@ == visible_posts_of(posts)[j].1.meta.title
                &&& entries[j].summary@ == visible_posts_of(posts)[j].1.meta.description
                &&& entries[j].author.name@ == config.feed.author.name@
                &&& entries[j].author.email@ == config.feed.author.email@
            },
{
    reveal(feed_prefix_outcome);
    let vis = visible_posts_of(posts);
    assert forall|j: int| 0 <= j < entries.len() implies {
        &&& (#[trigger] entries[j]).published == Some(vis[j].1.meta.date)
        &&& entries[j].updated == Some(vis[j].1.meta.date)
        &&& entries[j].link@ == config.host@ + seq!['/', 'p', 'o', 's', 't', '/'] + vis[j].0
        &&& entries[j].id@ == entries[j].link@
        &&& entries[j].title@ == vis[j].1.meta.title
        &&& entries[j].summary@ == vis[j].1.meta.description
        &&& entries[j].author.name@ == config.feed.author.name@
        &&& entries[j].author.email@ == config.feed.author.email@
    } by {
        crate::feed::lemma_entry_for_post(
            entries[j],
            config.host@,
            config.feed.author,
            vis[j].0,
            vis[j].1,
            entries[j].content@,
        );
    }
}

/// A post that is not cached is served with exactly the HTML that
/// `render_markdown` gives for its Markdown under the options passed in, and
/// that HTML and the post's metadata are what the cache holds for its slug
/// from then on.
pub proof fn lemma_rendered_page_is_the_post(
    posts: Map<Seq<char>, Post>,
    options: HTMLOptions,
    before: Map<Seq<char>, CachedPost>,
    slug: Seq<char>,
    page: PostPage,
    after: Map<Seq<char>, CachedPost>,
)
    requires
        lookup_outcome(posts, options, before, slug, page, after),
        !before.contains_key(slug),
        posts.contains_key(slug),
    ensures
        page matches PostPage::Rendered(c) && c.html@ == rendered_markdown(
            posts[slug].content@,
            options,
        ) && c.meta@ == posts[slug].meta@,
        after.contains_key(slug),
        after[slug].html@ == rendered_markdown(posts[slug].content@, options),
        after[slug].meta@ == posts[slug].meta@,
{
}

/// A file name that is not an absolute path is served from under `public/`
/// with every character of it kept, in order; an absolute path is served as
/// it is.
pub proof fn lemma_static_file_under_public(filename: Seq<char>)
    ensures
        !(filename.len() > 0 && filename[0] == '/') ==> {
            &&& static_file_path_of(filename).len() == filename.len() + 7
            &&& static_file_path_of(filename).take(7) == seq!['p', 'u', 'b', 'l', 'i', 'c', '/']
            &&& static_file_path_of(filename).skip(7) == filename
        },
        filename.len() > 0 && filename[0] == '/' ==> static_file_path_of(filename) == filename,
{
    if !(filename.len() > 0 && filename[0] == '/') {
        let r = static_file_path_of(filename);
        assert(r.take(7) =~= seq!['p', 'u', 'b', 'l', 'i', 'c', '/']);
        assert(r.skip(7) =~= filename);
    }
}

} // verus!
