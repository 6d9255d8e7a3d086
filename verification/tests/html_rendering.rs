use blog_server::html::{
    add_class, add_classes, enabled_extensions, get_parser_options, render_markdown,
    rewrite_image_url, HTMLOptions, ImageStart, MarkdownEvent, MarkdownExtension,
};
use pulldown_cmark::{Event, LinkType, Options};

fn opts(base: &str, lazy: bool) -> HTMLOptions {
    HTMLOptions { base_url: base.to_string(), lazy_images: lazy }
}

#[test]
fn http_images_are_kept() {
    assert_eq!(rewrite_image_url("https://img.example/a.png", &opts("https://blog", false)), "https://img.example/a.png");
    assert_eq!(rewrite_image_url("http://x/y", &opts("", false)), "http://x/y");
}

#[test]
fn relative_images_resolve_against_base_url() {
    assert_eq!(rewrite_image_url("images/a.png", &opts("https://blog", false)), "https://blog/images/a.png");
    assert_eq!(rewrite_image_url("//images/a.png", &opts("https://blog", false)), "https://blog/images/a.png");
    assert_eq!(rewrite_image_url("a.png", &HTMLOptions::default()), "/a.png");
}

#[test]
fn lazy_images_get_lazy_scheme() {
    assert_eq!(rewrite_image_url("/a.png", &opts("https://blog", true)), "lazy://https://blog/a.png");
    assert_eq!(rewrite_image_url("https://x/a.png", &opts("b", true)), "lazy://https://x/a.png");
}

#[test]
fn default_options_are_empty() {
    let o = HTMLOptions::default();
    assert_eq!(o.base_url, "");
    assert!(!o.lazy_images);
}

#[test]
fn add_class_rewrites_only_images() {
    let o = opts("https://blog", false);
    let img = MarkdownEvent::Image(ImageStart {
        link_type: LinkType::Inline,
        dest_url: "cat.png".to_string(),
        title: "A cat".to_string(),
        id: String::new(),
    });
    match add_class(img, &o) {
        MarkdownEvent::Image(i) => {
            assert_eq!(i.dest_url, "https://blog/cat.png");
            assert_eq!(i.title, "A cat");
            assert_eq!(i.link_type, LinkType::Inline);
        }
        MarkdownEvent::Other(_) => panic!("image became another event"),
    }
    match add_class(MarkdownEvent::Other(Event::Text("cat.png".into())), &o) {
        MarkdownEvent::Other(e) => assert_eq!(e, Event::Text("cat.png".into())),
        MarkdownEvent::Image(_) => panic!("text became an image"),
    }
}

#[test]
fn add_classes_keeps_order_and_length() {
    let o = opts("", true);
    let events = vec![
        MarkdownEvent::Other(Event::SoftBreak),
        MarkdownEvent::Image(ImageStart {
            link_type: LinkType::Inline,
            dest_url: "x.png".to_string(),
            title: String::new(),
            id: String::new(),
        }),
        MarkdownEvent::Other(Event::Rule),
    ];
    let out = add_classes(events, &o);
    assert_eq!(out.len(), 3);
    assert!(matches!(&out[0], MarkdownEvent::Other(Event::SoftBreak)));
    match &out[1] {
        MarkdownEvent::Image(i) => assert_eq!(i.dest_url, "lazy:///x.png"),
        _ => panic!("expected an image"),
    }
    assert!(matches!(&out[2], MarkdownEvent::Other(Event::Rule)));
}

#[test]
fn parser_options_enable_three_extensions() {
    assert_eq!(
        enabled_extensions(),
        vec![MarkdownExtension::Strikethrough, MarkdownExtension::Tasklists, MarkdownExtension::Tables]
    );
    assert_eq!(
        get_parser_options(),
        Options::ENABLE_STRIKETHROUGH | Options::ENABLE_TASKLISTS | Options::ENABLE_TABLES
    );
}

#[test]
fn markdown_renders_to_html() {
    assert_eq!(render_markdown("# Hi", &HTMLOptions::default()), "<h1>Hi</h1>\n");
    assert_eq!(render_markdown("~~gone~~", &HTMLOptions::default()), "<p><del>gone</del></p>\n");
}

#[test]
fn rendered_images_use_rewritten_destination() {
    let html = render_markdown("![cat](cat.png)", &opts("https://blog", false));
    assert_eq!(html, "<p><img src=\"https://blog/cat.png\" alt=\"cat\" /></p>\n");
    let lazy = render_markdown("![cat](/cat.png)", &opts("https://blog", true));
    assert_eq!(lazy, "<p><img src=\"lazy://https://blog/cat.png\" alt=\"cat\" /></p>\n");
}

#[test]
fn tables_and_tasklists_render() {
    let html = render_markdown("| a |\n|---|\n| b |\n", &HTMLOptions::default());
    assert!(html.contains("<table>"));
    let tasks = render_markdown("- [x] done\n", &HTMLOptions::default());
    assert!(tasks.contains("checkbox"));
}

fn pulldown_html(md: &str) -> String {
    let mut out = String::new();
    pulldown_cmark::html::push_html(&mut out, pulldown_cmark::Parser::new_ext(md, get_parser_options()));
    out
}

#[test]
fn rendering_equals_rendering_of_rewritten_destinations() {
    let o = opts("https://blog", false);
    let md = "Text ![one](a.png \"First\") and ![two](https://cdn/b.png)\n\n| x |\n|---|\n| ![c](/c.png) |\n";
    let rewritten = "Text ![one](https://blog/a.png \"First\") and ![two](https://cdn/b.png)\n\n| x |\n|---|\n| ![c](https://blog/c.png) |\n";
    assert_eq!(render_markdown(md, &o), pulldown_html(rewritten));
    assert!(render_markdown(md, &o).contains("title=\"First\""));
}
