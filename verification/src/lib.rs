//! A small blog server library: posts written in Markdown, rendered to HTML,
//! cached per slug and published as an Atom feed.

pub mod config;
pub mod feed;
pub mod html;
pub mod post;
pub mod routes;
pub mod slug_map;
pub mod states;
pub mod text;
