use blog_server::config::{AuthorConfig, Config, FeedConfig};
use blog_server::feed::{feed_entry, Author, Entry, Feed};
use blog_server::html::HTMLOptions;
use blog_server::post::{copy_strings, Post, PostDate, PostMeta};
use blog_server::routes::{feed_entries, home_posts, lookup_post, PostPage};
use blog_server::slug_map::SlugMap;
use blog_server::states::{CacheState, PostsState};

fn post(slug: &str, title: &str, hidden: bool, content: &str) -> Post {
    Post {
        meta: PostMeta {
            title: title.to_string(),
            date: PostDate::new(2024, 5, 17).unwrap(),
            tags: vec!["rust".to_string()],
            slug: slug.to_string(),
            description: format!("about {}", title),
            hidden,
        },
        content: content.to_string(),
    }
}

fn config() -> Config {
    Config {
        host: "https://blog.example".to_string(),
        port: Some(8000),
        address: None,
        templates: None,
        content: None,
        feed: FeedConfig {
            title: "My blog".to_string(),
            subtitle: Some("thoughts".to_string()),
            id: "urn:blog".to_string(),
            author: AuthorConfig { name: "Ana".to_string(), email: "ana@example.org".to_string() },
        },
    }
}

fn state(posts: Vec<Post>) -> PostsState {
    PostsState { posts: Post::all(posts) }
}

#[test]
fn all_indexes_posts_by_slug() {
    let index = Post::all(vec![post("a", "A", false, "x"), post("b", "B", true, "y")]);
    assert_eq!(index.len(), 2);
    assert_eq!(index.get("a").unwrap().meta.title, "A");
    assert_eq!(index.get("b").unwrap().content, "y");
    assert!(index.get("c").is_none());
    assert_eq!(index.key_at(0), "a");
    assert_eq!(index.key_at(1), "b");
}

#[test]
fn later_post_with_same_slug_wins() {
    let index = Post::all(vec![post("a", "First", false, "1"), post("b", "B", false, ""), post("a", "Second", false, "2")]);
    assert_eq!(index.len(), 2);
    assert_eq!(index.get("a").unwrap().meta.title, "Second");
    assert_eq!(index.key_at(0), "a");
}

#[test]
fn slug_map_insert_and_lookup() {
    let mut m: SlugMap<u32> = SlugMap::new();
    assert_eq!(m.len(), 0);
    m.insert("x".to_string(), 1);
    m.insert("y".to_string(), 2);
    m.insert("x".to_string(), 3);
    assert_eq!(m.len(), 2);
    assert_eq!(m.get("x"), Some(&3));
    assert_eq!(m.position("y"), Some(1));
    assert!(m.contains_key("y"));
    assert!(!m.contains_key("z"));
    assert_eq!(*m.value_at(0), 3);
}

#[test]
fn home_lists_only_visible_posts() {
    let s = state(vec![post("a", "A", false, ""), post("h", "H", true, ""), post("c", "C", false, "")]);
    let listed = home_posts(&s);
    let slugs: Vec<&str> = listed.iter().map(|(s, _)| s.as_str()).collect();
    assert_eq!(slugs, vec!["a", "c"]);
    assert_eq!(listed[1].1.meta.title, "C");
}

#[test]
fn unknown_post_is_not_found() {
    let s = state(vec![post("a", "A", false, "# A")]);
    let mut cache = CacheState::default();
    assert!(matches!(lookup_post(&s, &mut cache, "nope", &HTMLOptions::default()), PostPage::NotFound));
    assert_eq!(cache.cache.len(), 0);
}

#[test]
fn second_lookup_is_served_from_cache() {
    let s = state(vec![post("a", "A", false, "# A")]);
    let mut cache = CacheState::default();
    let first = lookup_post(&s, &mut cache, "a", &HTMLOptions::default());
    let html = match first {
        PostPage::Rendered(c) => {
            assert_eq!(c.meta.title, "A");
            c.html
        }
        _ => panic!("first lookup should render"),
    };
    assert_eq!(html, "<h1>A</h1>\n");
    match lookup_post(&s, &mut cache, "a", &HTMLOptions::default()) {
        PostPage::Cached(c) => {
            assert_eq!(c.html, html);
            assert_eq!(c.meta.slug, "a");
        }
        _ => panic!("second lookup should hit the cache"),
    }
    assert_eq!(cache.cache.len(), 1);
}

#[test]
fn hidden_posts_are_still_served_by_slug() {
    let s = state(vec![post("secret", "S", true, "text")]);
    let mut cache = CacheState::default();
    assert!(matches!(lookup_post(&s, &mut cache, "secret", &HTMLOptions::default()), PostPage::Rendered(_)));
}

#[test]
fn feed_has_one_entry_per_visible_post() {
    let s = state(vec![post("a", "A", false, "*a*"), post("h", "H", true, "h"), post("b", "B", false, "b")]);
    let mut cache = CacheState::default();
    let entries = feed_entries(&config(), &s, &mut cache, &HTMLOptions::default());
    assert_eq!(entries.len(), 2);
    let e = &entries[0];
    assert_eq!(e.title, "A");
    assert_eq!(e.link, "https://blog.example/post/a");
    assert_eq!(e.id, e.link);
    assert_eq!(e.summary, "about A");
    assert_eq!(e.content, "<p><em>a</em></p>\n");
    assert_eq!(e.author.name, "Ana");
    assert_eq!(e.author.email, "ana@example.org");
    assert!(e.alternate.is_none() && e.edit.is_none());
    let d = e.published.unwrap();
    assert_eq!((d.year(), d.month(), d.day()), (2024, 5, 17));
    assert_eq!(entries[1].link, "https://blog.example/post/b");
    assert_eq!(cache.cache.len(), 2);
    assert!(!cache.cache.contains_key("h"));
}

#[test]
fn feed_uses_and_warms_the_cache() {
    let s = state(vec![post("a", "A", false, "# A"), post("b", "B", false, "# B")]);
    let mut cache = CacheState::default();
    // A page already in the cache is taken as it is.
    let _ = lookup_post(&s, &mut cache, "a", &HTMLOptions::default());
    let entries = feed_entries(&config(), &s, &mut cache, &HTMLOptions::default());
    assert_eq!(entries[0].content, "<h1>A</h1>\n");
    // After the feed, every listed post is a cache hit with the entry's HTML.
    match lookup_post(&s, &mut cache, "b", &HTMLOptions::default()) {
        PostPage::Cached(c) => assert_eq!(c.html, entries[1].content),
        _ => panic!("feed should have cached b"),
    }
}

#[test]
fn feed_head_comes_from_config() {
    let f = Feed::from_config_at(config(), "2024-01-01T00:00:00+00:00".to_string());
    assert_eq!(f.title, "My blog");
    assert_eq!(f.subtitle.as_deref(), Some("thoughts"));
    assert_eq!(f.xml, "https://blog.example/feed.atom");
    assert_eq!(f.link, "https://blog.example");
    assert_eq!(f.id, "urn:blog");
    assert_eq!(f.updated, "2024-01-01T00:00:00+00:00");
}

#[test]
fn feed_from_config_is_stamped_now_in_utc() {
    let f = Feed::from(config());
    assert_eq!(f.xml, "https://blog.example/feed.atom");
    assert!(f.updated.ends_with("+00:00"));
    let u: Vec<char> = f.updated.chars().collect();
    assert_eq!((u[4], u[7], u[10], u[13], u[16]), ('-', '-', 'T', ':', ':'));
    assert!([25, 29, 32, 35].contains(&u.len()));
    assert!(chrono::DateTime::parse_from_rfc3339(&f.updated).is_ok());
}

#[test]
fn feed_entry_links_to_post() {
    let p = post("x", "X", false, "");
    let a = AuthorConfig { name: "N".to_string(), email: "e".to_string() };
    let e: Entry = feed_entry("h", &a, "x", &p, "<p></p>".to_string());
    assert_eq!(e.link, "h/post/x");
    assert_eq!(e.content, "<p></p>");
}

#[test]
fn defaults_are_empty() {
    let c = Config::default();
    assert_eq!(c.host, "");
    assert!(c.port.is_none() && c.address.is_none() && c.templates.is_none() && c.content.is_none());
    assert_eq!(c.feed.title, "");
    let f = Feed::default();
    assert_eq!(f.xml, "");
    let e = Entry::default();
    assert!(e.published.is_none());
    let a = Author::default();
    assert_eq!(a.name, "");
    assert_eq!(CacheState::default().cache.len(), 0);
}

#[test]
fn copies_are_equal() {
    let c = config();
    let d = c.clone();
    assert_eq!(d.feed.author.email, c.feed.author.email);
    assert_eq!(d.feed.subtitle, c.feed.subtitle);
    let p = post("a", "A", true, "c");
    let q = p.clone();
    assert_eq!(q.meta.tags, p.meta.tags);
    assert_eq!(q.meta.hidden, p.meta.hidden);
    assert_eq!(copy_strings(&vec!["a".to_string(), "b".to_string()]), vec!["a", "b"]);
}

#[test]
fn post_dates_are_the_dates_chrono_holds() {
    for year in [-262144, -262143, -100, -4, 0, 1900, 2000, 2023, 2024, 262142, 262143] {
        for month in 0..=13u32 {
            for day in 0..=32u32 {
                let ours = PostDate::new(year, month, day).is_some();
                let chrono = chrono::NaiveDate::from_ymd_opt(year, month, day).is_some();
                assert_eq!(ours, chrono, "{}-{}-{}", year, month, day);
            }
        }
    }
}

#[test]
fn invalid_post_dates_are_refused() {
    assert!(PostDate::new(2023, 2, 29).is_none());
    assert!(PostDate::new(2024, 2, 29).is_some());
    assert!(PostDate::new(1900, 2, 29).is_none());
    assert!(PostDate::new(2000, 2, 29).is_some());
    assert!(PostDate::new(2024, 4, 31).is_none());
    assert!(PostDate::new(2024, 13, 1).is_none());
    assert!(PostDate::new(2024, 1, 0).is_none());
}
