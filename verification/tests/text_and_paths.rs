use blog_server::post::{file_extension_str, is_markdown_file, meta_file_path};
use blog_server::routes::{pki_validation, static_file_path};
use blog_server::states::{is_template_file, template_name};
use blog_server::text::{chars_of, concat_str, replace_all_str, starts_with, trim_start_char_str};

#[test]
fn pki_validation_body_is_ok() {
    assert_eq!(pki_validation(), "Ok");
}

#[test]
fn static_files_are_served_from_public() {
    assert_eq!(static_file_path("main.css"), "public/main.css");
    assert_eq!(static_file_path("images/cat.webp"), "public/images/cat.webp");
    assert_eq!(static_file_path(""), "public/");
}

#[test]
fn absolute_static_path_replaces_public() {
    assert_eq!(static_file_path("/etc/passwd"), "/etc/passwd");
}

#[test]
fn replace_removes_every_occurrence() {
    assert_eq!(replace_all_str("a.html.html", ".html", ""), "a");
    assert_eq!(replace_all_str("aaaa", "aa", "b"), "bb");
    assert_eq!(replace_all_str("abc", "x", "y"), "abc");
    assert_eq!(replace_all_str("", "x", "y"), "");
}

#[test]
fn replace_with_empty_pattern_matches_everywhere() {
    assert_eq!(replace_all_str("ab", "", "x"), "ab".replace("", "x"));
    assert_eq!(replace_all_str("", "", "x"), "x");
}

#[test]
fn replace_agrees_with_std() {
    for (s, p, r) in [("héllo wörld", "ö", "o"), ("a/b/c", "/", "::"), ("xyzxyz", "zx", "-")] {
        assert_eq!(replace_all_str(s, p, r), s.replace(p, r));
    }
}

#[test]
fn trim_start_drops_leading_slashes_only() {
    assert_eq!(trim_start_char_str("///a/b", '/'), "a/b");
    assert_eq!(trim_start_char_str("a/", '/'), "a/");
    assert_eq!(trim_start_char_str("//", '/'), "");
}

#[test]
fn prefixes_and_concatenation() {
    assert!(starts_with("https://x", "http"));
    assert!(!starts_with("htt", "http"));
    assert!(starts_with("anything", ""));
    assert_eq!(concat_str("ab", "cd"), "abcd");
    assert_eq!(chars_of("añb"), vec!['a', 'ñ', 'b']);
}

#[test]
fn extensions_follow_std_path() {
    for p in ["content/a.md", "a.tar.gz", ".hidden", "dir.d/file", "x.", "content/2026/post.md"] {
        let std_ext = std::path::Path::new(p).extension().map(|e| e.to_string_lossy().to_string());
        assert_eq!(file_extension_str(p), std_ext, "{}", p);
    }
}

#[test]
fn markdown_files_are_posts() {
    assert!(is_markdown_file("content/fish-fest-2024/fish-fest-2024.md"));
    assert!(!is_markdown_file("content/fish-fest-2024/fish-fest-2024.toml"));
    assert!(!is_markdown_file("content/.md"));
    assert!(!is_markdown_file("content/readme.markdown"));
}

#[test]
fn meta_file_is_beside_the_post() {
    assert_eq!(meta_file_path("content/a/post.md"), "content/a/post.toml");
    assert_eq!(meta_file_path("content/a/post"), "content/a/post.toml");
    for p in ["content/a/post.md", "x.y.md", "noext", "dir.d/file"] {
        let std_path = std::path::Path::new(p).with_extension("toml");
        assert_eq!(meta_file_path(p), std_path.to_string_lossy(), "{}", p);
    }
}

#[test]
fn template_files_by_extension() {
    assert!(is_template_file("frontend/templates/index.html"));
    assert!(is_template_file("frontend/templates/base.tera"));
    assert!(is_template_file("frontend/templates/atom/feed.xml"));
    assert!(!is_template_file("frontend/templates/style.css"));
    assert!(!is_template_file("frontend/templates/README"));
}

#[test]
fn template_names_drop_root_and_suffixes() {
    let root = "frontend/templates";
    assert_eq!(template_name(root, "frontend/templates/index.html.tera"), "index");
    assert_eq!(template_name(root, "frontend/templates/post.html"), "post");
    assert_eq!(template_name(root, "frontend/templates/atom/feed.xml"), "atom/feed");
    assert_eq!(template_name(root, "frontend/templates/a/b/page.tera"), "a/b/page");
}
