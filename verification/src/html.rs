//! Markdown to HTML: the parser's events are read by the library, image
//! destinations are rewritten against a base URL, and the events are rendered.
use vstd::prelude::*;
use pulldown_cmark::{Event, LinkType, Options, Parser, Tag};
use crate::text::{
    trim_start_char, trim_start_char_str, starts_with, concat_str, lemma_trim_start_char_shape,
};

verus! {

#[verifier::external_type_specification]
#[verifier::external_body]
pub struct ExEvent<'a>(Event<'a>);

#[verifier::external_type_specification]
#[verifier::external_body]
pub struct ExLinkType(LinkType);

#[verifier::external_type_specification]
#[verifier::external_body]
pub struct ExOptions(Options);

/// How images are written into the HTML.
pub struct HTMLOptions {
    /// Prefix for image destinations that are not already `http...` URLs.
    pub base_url: String,
    /// Whether image destinations are turned into `lazy://` URLs.
    pub lazy_images: bool,
}

impl Default for HTMLOptions {
    fn default() -> (r: Self)
        ensures
            r.base_url@ == Seq::<char>::empty(),
            !r.lazy_images,
    {
        HTMLOptions { base_url: String::new(), lazy_images: false }
    }
}

/// The start of an image, with its destination as plain text.
pub struct ImageStart {
    pub link_type: LinkType,
    pub dest_url: String,
    pub title: String,
    pub id: String,
}

/// A Markdown event as the library reads it: the start of an image, whose
/// destination it may rewrite, or any other event, which it passes on as is.
pub enum MarkdownEvent<'a> {
    Image(ImageStart),
    Other(Event<'a>),
}

/// The Markdown extensions beyond CommonMark that posts are written with.
#[derive(Clone, Copy, PartialEq, Eq, Debug)]
pub enum MarkdownExtension {
    Strikethrough,
    Tasklists,
    Tables,
}

/// The extensions posts are parsed with, in the order they are enabled.
pub open spec fn parser_extensions() -> Seq<MarkdownExtension> {
    seq![MarkdownExtension::Strikethrough, MarkdownExtension::Tasklists, MarkdownExtension::Tables]
}

/// The position of the bit of the `pulldown_cmark::Options` flag that
/// enables `ext` (`ENABLE_STRIKETHROUGH = 1 << 3`, `ENABLE_TASKLISTS = 1 << 4`,
/// `ENABLE_TABLES = 1 << 1`).
pub open spec fn extension_bit(ext: MarkdownExtension) -> u32 {
    match ext {
        MarkdownExtension::Strikethrough => 3,
        MarkdownExtension::Tasklists => 4,
        MarkdownExtension::Tables => 1,
    }
}

/// The bit positions of the flags that enable `exts`.
pub open spec fn extension_bits(exts: Seq<MarkdownExtension>) -> Set<u32>
    decreases exts.len(),
{
    if exts.len() == 0 {
        Set::empty()
    } else {
        extension_bits(exts.drop_last()).insert(extension_bit(exts.last()))
    }
}

pub open spec fn http_prefix() -> Seq<char> {
    seq!['h', 't', 't', 'p']
}

pub open spec fn lazy_prefix() -> Seq<char> {
    seq!['l', 'a', 'z', 'y', ':', '/', '/']
}

/// An image destination made absolute: `http...` destinations stay as they
/// are, others become `{base_url}/{dest}` with the leading slashes of `dest`
/// dropped.
pub open spec fn absolute_image_url(dest: Seq<char>, base_url: Seq<char>) -> Seq<char> {
    if http_prefix().is_prefix_of(dest) {
        dest
    } else {
        base_url + seq!['/'] + trim_start_char(dest, '/')
    }
}

/// The destination an image gets in the HTML under `options`.
pub open spec fn rewritten_image_url(dest: Seq<char>, options: HTMLOptions) -> Seq<char> {
    let url = absolute_image_url(dest, options.base_url@);
    if options.lazy_images {
        lazy_prefix() + url
    } else {
        url
    }
}

/// `after` is `before` with the image destination rewritten under `options`;
/// every other event is left alone.
pub open spec fn is_added_class<'a>(
    before: MarkdownEvent<'a>,
    after: MarkdownEvent<'a>,
    options: HTMLOptions,
) -> bool {
    match before {
        MarkdownEvent::Image(a) => match after {
            MarkdownEvent::Image(b) => {
                &&& b.dest_url@ == rewritten_image_url(a.dest_url@, options)
                &&& b.title == a.title
                &&& b.id == a.id
                &&& b.link_type == a.link_type
            },
            MarkdownEvent::Other(_) => false,
        },
        MarkdownEvent::Other(x) => after == MarkdownEvent::Other(x),
    }
}

/// The destination an image gets in the HTML under `options`.
pub fn rewrite_image_url(dest_url: &str, options: &HTMLOptions) -> (r: String)
    ensures
        r@ == rewritten_image_url(dest_url@, *options),
{
    let http = "http";
    proof {
        reveal_strlit("http");
    }
    let url = if starts_with(dest_url, http) {
        dest_url.to_owned()
    } else {
        let slash = "/";
        proof {
            reveal_strlit("/");
        }
        let mut s = concat_str(options.base_url.as_str(), slash);
        s.append(trim_start_char_str(dest_url, '/'));
        s
    };
    if options.lazy_images {
        let lazy = "lazy://";
        proof {
            reveal_strlit("lazy://");
        }
        concat_str(lazy, url.as_str())
    } else {
        url
    }
}

/// One event with its image destination rewritten under `options`.
pub fn add_class<'a>(event: MarkdownEvent<'a>, options: &HTMLOptions) -> (r: MarkdownEvent<'a>)
    ensures
        is_added_class(event, r, *options),
{
    match event {
        MarkdownEvent::Image(img) => {
            let dest_url = rewrite_image_url(img.dest_url.as_str(), options);
            MarkdownEvent::Image(
                ImageStart { link_type: img.link_type, dest_url, title: img.title, id: img.id },
            )
        },
        MarkdownEvent::Other(e) => MarkdownEvent::Other(e),
    }
}

/// Every event with its image destination rewritten under `options`, in order.
pub fn add_classes<'a>(events: Vec<MarkdownEvent<'a>>, options: &HTMLOptions) -> (r: Vec<
    MarkdownEvent<'a>,
>)
    ensures
        r.len() == events.len(),
        forall|i: int| 0 <= i < r.len() ==> is_added_class(#[trigger] events@[i], r@[i], *options),
{
    let ghost input = events@;
    let mut r: Vec<MarkdownEvent<'a>> = Vec::new();
    for e in it: events.into_iter()
        invariant
            it.seq() == input,
            r.len() == it.index(),
            forall|i: int| 0 <= i < r.len() ==> is_added_class(#[trigger] input[i], r@[i], *options),
    {
        r.push(add_class(e, options));
    }
    r
}

/// The extensions that posts are parsed with, in the order they are enabled.
pub fn enabled_extensions() -> (r: Vec<MarkdownExtension>)
    ensures
        r@ == parser_extensions(),
{
    let mut r = Vec::new();
    r.push(MarkdownExtension::Strikethrough);
    r.push(MarkdownExtension::Tasklists);
    r.push(MarkdownExtension::Tables);
    r
}

/// The parser options with every extension of `enabled_extensions` on, and
/// no other.
pub fn get_parser_options() -> (r: Options)
    ensures
        option_bits(r) == extension_bits(parser_extensions()),
{
    let mut options = options_empty();
    let extensions = enabled_extensions();
    let ghost exts = parser_extensions();
    proof {
        assert(exts.take(0) =~= Seq::<MarkdownExtension>::empty());
    }
    for ext in it: extensions.into_iter()
        invariant
            it.seq() == exts,
            option_bits(options) == extension_bits(exts.take(it.index() as int)),
    {
        let ghost i = it.index();
        options_insert(&mut options, ext);
        proof {
            assert(exts.take(i + 1).drop_last() =~= exts.take(i as int));
            assert(exts.take(i + 1).last() == ext);
        }
    }
    proof {
        assert(exts.take(exts.len() as int) =~= exts);
    }
    options
}

/// The HTML of the Markdown text `content`, parsed with the extensions of
/// `parser_extensions` and with every image destination rewritten under
/// `options`.
pub open spec fn rendered_markdown(content: Seq<char>, options: HTMLOptions) -> Seq<char> {
    let bits = extension_bits(parser_extensions());
    markdown_html(
        content,
        bits,
        markdown_image_dests(content, bits).map_values(
            |d: Seq<char>| rewritten_image_url(d, options),
        ),
    )
}

/// Markdown text rendered to HTML, with the image destinations rewritten
/// under `options`.
pub fn render_markdown(content: &str, options: &HTMLOptions) -> (r: String)
    ensures
        r@ == rendered_markdown(content@, *options),
{
    render_with_images_rewritten(content, get_parser_options(), options)
}

/// The destinations of the images that `pulldown_cmark::Parser::new_ext`
/// finds in `content` with the option bits `bits`, in the order of the events.
pub uninterp spec fn markdown_image_dests(content: Seq<char>, bits: Set<u32>) -> Seq<Seq<char>>;

/// The HTML that `pulldown_cmark::html::push_html` writes for the events
/// `pulldown_cmark::Parser::new_ext` yields on `content` with the option bits
/// `bits`, where the destination of the `i`-th image is replaced by `dests[i]`
/// and every other event is as parsed.
pub uninterp spec fn markdown_html(content: Seq<char>, bits: Set<u32>, dests: Seq<Seq<char>>) -> Seq<
    char,
>;

/// The positions of the bits that are set in a `pulldown_cmark::Options`
/// (a set of flags, one bit each).
pub uninterp spec fn option_bits(options: Options) -> Set<u32>;

/// `pulldown_cmark::Options::empty`: no bit set.
#[verifier::external_body]
fn options_empty() -> (r: Options)
    ensures
        option_bits(r) == Set::<u32>::empty(),
{
    Options::empty()
}

/// `pulldown_cmark::Options::insert` with the flag that stands for `ext`:
/// `insert` ors the flag's bit into the options, so exactly that bit is
/// added to the set ones.
#[verifier::external_body]
fn options_insert(options: &mut Options, ext: MarkdownExtension)
    ensures
        option_bits(*final(options)) == option_bits(*old(options)).insert(extension_bit(ext)),
{
    options.insert(
        match ext {
            MarkdownExtension::Strikethrough => Options::ENABLE_STRIKETHROUGH,
            MarkdownExtension::Tasklists => Options::ENABLE_TASKLISTS,
            MarkdownExtension::Tables => Options::ENABLE_TABLES,
        },
    );
}

/// `pulldown_cmark::Parser::new_ext` on `content` with `options`, each event
/// passed through `add_class` under `html_options` (which rewrites the
/// destination of an image and leaves every other event, and every other
/// field of an image, as it is), and `pulldown_cmark::html::push_html` into an
/// empty string. Both calls depend on their arguments alone, so the HTML is
/// named: that of the parsed events with each image destination `d` replaced
/// by `rewritten_image_url(d, html_options)`.
#[verifier::external_body]
fn render_with_images_rewritten(content: &str, options: Options, html_options: &HTMLOptions) -> (r:
    String)
    ensures
        r@ == markdown_html(
            content@,
            option_bits(options),
            markdown_image_dests(content@, option_bits(options)).map_values(
                |d: Seq<char>| rewritten_image_url(d, *html_options),
            ),
        ),
{
    let mut html = String::new();
    let events = Parser::new_ext(content, options).map(
        |e| into_event(add_class(classify_event(e), html_options)),
    );
    pulldown_cmark::html::push_html(&mut html, events);
    html
}

/// The conversion of a `pulldown_cmark` event into the library's, used by
/// `render_with_images_rewritten` ahead of `add_class`: the start of an image
/// is told apart from every other event and its fields are moved into an
/// `ImageStart`. Nothing is stated of which variant comes out, as the event
/// is opaque.
#[verifier::external_body]
fn classify_event<'a>(event: Event<'a>) -> MarkdownEvent<'a> {
    match event {
        Event::Start(Tag::Image { link_type, dest_url, title, id }) => MarkdownEvent::Image(
            ImageStart {
                link_type,
                dest_url: dest_url.to_string(),
                title: title.to_string(),
                id: id.to_string(),
            },
        ),
        other => MarkdownEvent::Other(other),
    }
}

/// The conversion back, used by `render_with_images_rewritten` after
/// `add_class`: a library event becomes the `pulldown_cmark` event it stands
/// for. Nothing is stated of the event, which Verus cannot look into.
#[verifier::external_body]
fn into_event<'a>(event: MarkdownEvent<'a>) -> Event<'a> {
    match event {
        MarkdownEvent::Image(img) => Event::Start(
            Tag::Image {
                link_type: img.link_type,
                dest_url: img.dest_url.into(),
                title: img.title.into(),
                id: img.id.into(),
            },
        ),
        MarkdownEvent::Other(e) => e,
    }
}

} // verus!

verus! {

/// Where an image's destination does not start with `http`, it becomes the
/// base URL, one `/`, and the destination with all of its leading slashes
/// dropped and nothing else changed, so no `/` follows the one behind the
/// base URL, whatever the base URL (empty included). A destination that
/// starts with `http` is kept. Lazy images get `lazy://` in front, and only
/// they do.
pub proof fn lemma_image_url_shape(dest: Seq<char>, options: HTMLOptions)
    ensures
        ({
            let r = rewritten_image_url(dest, options);
            let front = if options.lazy_images {
                seq!['l', 'a', 'z', 'y', ':', '/', '/']
            } else {
                Seq::<char>::empty()
            };
            &&& seq!['h', 't', 't', 'p'].is_prefix_of(dest) ==> r == front + dest
            &&& !seq!['h', 't', 't', 'p'].is_prefix_of(dest) ==> exists|k: int|
                #![trigger dest.skip(k)]
                0 <= k <= dest.len() && (forall|i: int| 0 <= i < k ==> dest[i] == '/') && (k
                    < dest.len() ==> dest[k] != '/') && r == front + options.base_url@ + seq!['/']
                    + dest.skip(k)
        }),
{
    lemma_trim_start_char_shape(dest, '/');
    let r = rewritten_image_url(dest, options);
    let front = if options.lazy_images {
        seq!['l', 'a', 'z', 'y', ':', '/', '/']
    } else {
        Seq::<char>::empty()
    };
    assert(http_prefix() == seq!['h', 't', 't', 'p']);
    assert(lazy_prefix() == seq!['l', 'a', 'z', 'y', ':', '/', '/']);
    if seq!['h', 't', 't', 'p'].is_prefix_of(dest) {
        assert(r =~= front + dest);
    } else {
        let k = choose|k: int|
            #![trigger dest.skip(k)]
            0 <= k <= dest.len() && (forall|i: int| 0 <= i < k ==> dest[i] == '/') && (k < dest.len()
                ==> dest[k] != '/') && trim_start_char(dest, '/') == dest.skip(k);
        assert(r =~= front + options.base_url@ + seq!['/'] + dest.skip(k));
    }
}

} // verus!

verus! {

/// `add_class` changes the destination of an image and nothing else: the
/// image keeps its title, id and link type, and every other event comes out
/// as it went in.
pub proof fn lemma_add_class_changes_only_image_dest<'a>(
    before: MarkdownEvent<'a>,
    after: MarkdownEvent<'a>,
    options: HTMLOptions,
)
    requires
        is_added_class(before, after, options),
    ensures
        before matches MarkdownEvent::Other(e) ==> after == MarkdownEvent::<'a>::Other(e),
        before matches MarkdownEvent::Image(a) ==> after matches MarkdownEvent::Image(b) && b.title
            == a.title && b.id == a.id && b.link_type == a.link_type && b.dest_url@
            == rewritten_image_url(a.dest_url@, options),
{
}

/// Posts are parsed with strikethrough (bit 3), task lists (bit 4) and tables
/// (bit 1) enabled and no other extension, and a post renders to the HTML of
/// its parsed events with each image destination `d` replaced by the
/// destination `rewrite_image_url` gives for `d`.
pub proof fn lemma_rendering_uses_parser_options(content: Seq<char>, options: HTMLOptions)
    ensures
        extension_bits(parser_extensions()) == set![3u32, 4u32, 1u32],
        rendered_markdown(content, options) == markdown_html(
            content,
            set![3u32, 4u32, 1u32],
            markdown_image_dests(content, set![3u32, 4u32, 1u32]).map_values(
                |d: Seq<char>| rewritten_image_url(d, options),
            ),
        ),
{
    let exts = parser_extensions();
    assert(exts.drop_last().drop_last().drop_last() =~= Seq::<MarkdownExtension>::empty());
    assert(exts.drop_last().drop_last() =~= seq![MarkdownExtension::Strikethrough]);
    assert(exts.drop_last() =~= seq![MarkdownExtension::Strikethrough, MarkdownExtension::Tasklists]);
    reveal_with_fuel(extension_bits, 4);
    assert(extension_bits(exts) =~= set![3u32, 4u32, 1u32]);
}

} // verus!
