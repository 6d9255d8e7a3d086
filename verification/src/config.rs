//! The server's configuration.
use vstd::prelude::*;

verus! {

/// The server's configuration, as its configuration file gives it.
#[derive(Debug)]
pub struct Config {
    /// The public base URL of the site, with no trailing slash.
    pub host: String,
    pub port: Option<u16>,
    pub address: Option<String>,
    pub templates: Option<String>,
    pub content: Option<String>,
    pub feed: FeedConfig,
}

/// How the Atom feed describes the site.
#[derive(Debug)]
pub struct FeedConfig {
    pub title: String,
    pub subtitle: Option<String>,
    pub id: String,
    pub author: AuthorConfig,
}

/// The author named in every feed entry.
#[derive(Debug)]
pub struct AuthorConfig {
    pub name: String,
    pub email: String,
}

/// A copy of an optional string.
pub fn copy_opt_string(s: &Option<String>) -> (r: Option<String>)
    ensures
        r == *s,
{
    match s {
        Some(v) => Some(v.clone()),
        None => None,
    }
}

impl Clone for AuthorConfig {
    fn clone(&self) -> (r: Self)
        ensures
            r == *self,
    {
        AuthorConfig { name: self.name.clone(), email: self.email.clone() }
    }
}

impl Clone for FeedConfig {
    fn clone(&self) -> (r: Self)
        ensures
            r == *self,
    {
        FeedConfig {
            title: self.title.clone(),
            subtitle: copy_opt_string(&self.subtitle),
            id: self.id.clone(),
            author: self.author.clone(),
        }
    }
}

impl Clone for Config {
    fn clone(&self) -> (r: Self)
        ensures
            r == *self,
    {
        Config {
            host: self.host.clone(),
            port: self.port,
            address: copy_opt_string(&self.address),
            templates: copy_opt_string(&self.templates),
            content: copy_opt_string(&self.content),
            feed: self.feed.clone(),
        }
    }
}

impl Default for AuthorConfig {
    fn default() -> (r: Self)
        ensures
            r.name@ == Seq::<char>::empty(),
            r.email@ == Seq::<char>::empty(),
    {
        AuthorConfig { name: String::new(), email: String::new() }
    }
}

impl Default for FeedConfig {
    fn default() -> (r: Self)
        ensures
            r.title@ == Seq::<char>::empty(),
            r.subtitle is None,
            r.id@ == Seq::<char>::empty(),
            r.author.name@ == Seq::<char>::empty(),
            r.author.email@ == Seq::<char>::empty(),
    {
        FeedConfig {
            title: String::new(),
            subtitle: None,
            id: String::new(),
            author: AuthorConfig::default(),
        }
    }
}

impl Default for Config {
    fn default() -> (r: Self)
        ensures
            r.host@ == Seq::<char>::empty(),
            r.port is None,
            r.address is None,
            r.templates is None,
            r.content is None,
            r.feed.title@ == Seq::<char>::empty(),
            r.feed.subtitle is None,
            r.feed.id@ == Seq::<char>::empty(),
            r.feed.author.name@ == Seq::<char>::empty(),
            r.feed.author.email@ == Seq::<char>::empty(),
    {
        Config {
            host: String::new(),
            port: None,
            address: None,
            templates: None,
            content: None,
            feed: FeedConfig::default(),
        }
    }
}

} // verus!
