# blog_server

A blog server whose logic is verified with Verus.

- `src/` is the library: finding posts among files and indexing them by slug
  (`post`, `slug_map`), rewriting image destinations in Markdown and rendering
  it with `pulldown-cmark` (`html`), the Atom feed (`feed`), template names
  (`states`), and what each route serves, including the page cache that the
  post route and the feed share (`routes`). `text` holds the string operations
  the rest is written with.
- `app/` is the actix-web program around it: it reads the configuration, the
  posts and the templates from disk, keeps the cache behind a lock, and renders
  pages with `tera`.
- `tests/` runs the library on concrete values.
