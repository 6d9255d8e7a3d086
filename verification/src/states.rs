//! The server's state: the posts, the rendered pages, and the names under
//! which template files are registered.
use vstd::prelude::*;
use crate::post::{file_name, file_extension, file_extension_str, Post, PostMeta};
use crate::slug_map::SlugMap;
use crate::text::{
    last_index_of, last_index_of_char, lemma_last_index_of_bounds, lemma_replace_absent,
    lemma_replace_empty_by_empty, lemma_replace_leading, replace_all, replace_all_str,
    trim_start_char, trim_start_char_str, concat_str, chars_of,
};

verus! {

/// Every post, by slug.
pub struct PostsState {
    pub posts: SlugMap<Post>,
}

/// A post rendered to HTML, with its metadata.
pub struct CachedPost {
    pub html: String,
    pub meta: PostMeta,
}

/// The posts rendered so far, by slug.
pub struct CacheState {
    pub cache: SlugMap<CachedPost>,
}

impl Default for CacheState {
    fn default() -> (r: Self)
        ensures
            r.cache@ == Map::<Seq<char>, CachedPost>::empty(),
    {
        CacheState { cache: SlugMap::new() }
    }
}

/// The file name suffixes of templates, in the order they are stripped.
pub open spec fn template_suffixes() -> Seq<Seq<char>> {
    seq![
        seq!['.', 'h', 't', 'm', 'l', '.', 't', 'e', 'r', 'a'],
        seq!['.', 'h', 't', 'm', 'l'],
        seq!['.', 't', 'e', 'r', 'a'],
        seq!['.', 'x', 'm', 'l'],
    ]
}

/// Whether a file is a template: its extension is one of the template
/// suffixes without their leading dot.
pub open spec fn is_template_path(path: Seq<char>) -> bool {
    match file_extension(path) {
        Some(ext) => exists|k: int|
            0 <= k < template_suffixes().len() && #[trigger] template_suffixes()[k].skip(1) == ext,
        None => false,
    }
}

/// `name` with every template suffix removed, the suffixes taken in order.
pub open spec fn strip_template_suffixes(name: Seq<char>) -> Seq<char> {
    let e = Seq::<char>::empty();
    replace_all(
        replace_all(
            replace_all(replace_all(name, template_suffixes()[0], e), template_suffixes()[1], e),
            template_suffixes()[2],
            e,
        ),
        template_suffixes()[3],
        e,
    )
}

/// The directory part of a file's path: what comes before its last `/`.
pub open spec fn parent_dir(path: Seq<char>) -> Seq<char> {
    match last_index_of(path, '/') {
        Some(k) => path.take(k),
        None => Seq::empty(),
    }
}

/// The name a template file is registered under: its file name without the
/// template suffixes, behind the directories between the template root and
/// the file, if there are any.
pub open spec fn template_name_of(root: Seq<char>, path: Seq<char>) -> Seq<char> {
    let name = strip_template_suffixes(file_name(path));
    let relative = trim_start_char(replace_all(parent_dir(path), root, Seq::empty()), '/');
    if relative.len() == 0 {
        name
    } else {
        relative + seq!['/'] + name
    }
}

/// Whether the file at `path` is a template.
pub fn is_template_file(path: &str) -> (r: bool)
    ensures
        r == is_template_path(path@),
{
    match file_extension_str(path) {
        Some(ext) => {
            let candidates = [".html.tera", ".html", ".tera", ".xml"];
            proof {
                reveal_strlit(".html.tera");
                reveal_strlit(".html");
                reveal_strlit(".tera");
                reveal_strlit(".xml");
                assert(candidates[0]@ =~= template_suffixes()[0]);
                assert(candidates[1]@ =~= template_suffixes()[1]);
                assert(candidates[2]@ =~= template_suffixes()[2]);
                assert(candidates[3]@ =~= template_suffixes()[3]);
            }
            let mut k: usize = 0;
            while k < 4
                invariant
                    k <= 4,
                    file_extension(path@) == Some(ext@),
                    forall|i: int| 0 <= i < 4 ==> #[trigger] candidates[i]@ == template_suffixes()[i],
                    forall|i: int| 0 <= i < k ==> #[trigger] template_suffixes()[i].skip(1) != ext@,
                decreases 4 - k,
            {
                let c = candidates[k];
                let n = c.unicode_len();
                let tail = c.substring_char(1, n).to_owned();
                assert(tail@ =~= template_suffixes()[k as int].skip(1));
                if tail == ext {
                    assert(template_suffixes()[k as int].skip(1) == ext@);
                    return true;
                }
                k = k + 1;
            }
            false
        },
        None => false,
    }
}

/// The name the template file at `path`, under the template root `root`, is
/// registered under.
pub fn template_name(root: &str, path: &str) -> (r: String)
    ensures
        r@ == template_name_of(root@, path@),
{
    let cs = chars_of(path);
    let n = cs.len();
    proof {
        lemma_last_index_of_bounds(path@, '/');
    }
    let (parent, name) = match last_index_of_char(&cs, '/') {
        Some(k) => (path.substring_char(0, k), path.substring_char(k + 1, n)),
        None => ("", path),
    };
    proof {
        reveal_strlit("");
        assert(parent@ =~= parent_dir(path@));
        assert(name@ =~= file_name(path@));
    }
    let s0 = replace_all_str(name, ".html.tera", "");
    let s1 = replace_all_str(s0.as_str(), ".html", "");
    let s2 = replace_all_str(s1.as_str(), ".tera", "");
    let stripped = replace_all_str(s2.as_str(), ".xml", "");
    proof {
        reveal_strlit(".html.tera");
        reveal_strlit(".html");
        reveal_strlit(".tera");
        reveal_strlit(".xml");
        assert(".html.tera"@ =~= template_suffixes()[0]);
        assert(".html"@ =~= template_suffixes()[1]);
        assert(".tera"@ =~= template_suffixes()[2]);
        assert(".xml"@ =~= template_suffixes()[3]);
        assert(""@ =~= Seq::<char>::empty());
    }
    let without_root = replace_all_str(parent, root, "");
    let relative = trim_start_char_str(without_root.as_str(), '/');
    if relative.is_empty() {
        stripped
    } else {
        let slash = "/";
        proof {
            reveal_strlit("/");
        }
        let mut r = concat_str(relative, slash);
        r.append(stripped.as_str());
        r
    }
}

} // verus!

verus! {

/// With no `/` in `f`, the last `/` of `a + "/" + f` is the one behind `a`.
proof fn lemma_last_slash_before_name(a: Seq<char>, f: Seq<char>)
    requires
        !f.contains('/'),
    ensures
        last_index_of(a + seq!['/'] + f, '/') == Some(a.len() as int),
    decreases f.len(),
{
    let s = a + seq!['/'] + f;
    if f.len() > 0 {
        let g = f.drop_last();
        assert(!g.contains('/')) by {
            if g.contains('/') {
                let i = choose|i: int| 0 <= i < g.len() && g[i] == '/';
                assert(f[i] == '/');
            }
        }
        assert(s.last() == f.last());
        assert(f.contains(f.last()) ==> f.last() != '/');
        assert(f[f.len() - 1] == f.last());
        lemma_last_slash_before_name(a, g);
        assert(s.drop_last() =~= a + seq!['/'] + g);
    } else {
        assert(s.last() == '/');
    }
}

/// A template in a subdirectory `d` of the root is registered under `d`, a
/// `/`, and the very name the same file would get at the top of the root: the
/// template suffixes are stripped from the file name alike at every depth.
/// (Left out: a root that occurs again inside `/{d}`, whose every occurrence
/// the name drops, and a `d` that starts with `/`.)
pub proof fn lemma_template_name_in_subdirectory(root: Seq<char>, d: Seq<char>, f: Seq<char>)
    requires
        !f.contains('/'),
        d.len() > 0,
        d[0] != '/',
        root.len() > 0 ==> forall|i: int|
            0 <= i <= d.len() + 1 ==> !root.is_prefix_of(#[trigger] (seq!['/'] + d).skip(i)),
    ensures
        template_name_of(root, root + seq!['/'] + d + seq!['/'] + f) == d + seq!['/']
            + template_name_of(root, root + seq!['/'] + f),
{
    let a = root + seq!['/'] + d;
    let p1 = a + seq!['/'] + f;
    let p2 = root + seq!['/'] + f;
    let e = Seq::<char>::empty();
    let sd = seq!['/'] + d;
    lemma_last_slash_before_name(a, f);
    lemma_last_slash_before_name(root, f);
    assert(file_name(p1) =~= f);
    assert(file_name(p2) =~= f);
    assert(parent_dir(p1) =~= a);
    assert(parent_dir(p2) =~= root);
    assert(a =~= root + sd);
    if root.len() > 0 {
        lemma_replace_leading(root, sd, Seq::empty());
        lemma_replace_absent(sd, root, e);
        lemma_replace_leading(root, e, Seq::empty());
        assert(root + e =~= root);
        assert(replace_all(e, root, e) == e);
    } else {
        lemma_replace_empty_by_empty(a);
        lemma_replace_empty_by_empty(root);
        assert(a =~= sd);
    }
    assert(replace_all(a, root, e) == sd);
    assert(replace_all(root, root, e) =~= e);
    assert(sd.drop_first() =~= d);
    assert(sd[0] == '/');
    assert(trim_start_char(d, '/') == d);
    assert(trim_start_char(sd, '/') == d);
    assert(trim_start_char(e, '/') == e);
}

} // verus!

verus! {

/// Files named `{stem}.html`, `{stem}.tera` and `{stem}.xml` are templates;
/// a file named `{stem}.css` is not.
pub proof fn lemma_template_file_kinds(stem: Seq<char>)
    requires
        stem.len() > 0,
        stem.last() != '/',
    ensures
        is_template_path(stem + seq!['.', 'h', 't', 'm', 'l']),
        is_template_path(stem + seq!['.', 't', 'e', 'r', 'a']),
        is_template_path(stem + seq!['.', 'x', 'm', 'l']),
        !is_template_path(stem + seq!['.', 'c', 's', 's']),
{
    let html = seq!['h', 't', 'm', 'l'];
    let tera = seq!['t', 'e', 'r', 'a'];
    let xml = seq!['x', 'm', 'l'];
    let css = seq!['c', 's', 's'];
    assert forall|e: Seq<char>| e == html || e == tera || e == xml || e == css implies !e.contains(
        '.',
    ) && !e.contains('/') by {
        if e.contains('.') || e.contains('/') {
            let i = choose|i: int| 0 <= i < e.len() && (e[i] == '.' || e[i] == '/');
        }
    }
    crate::post::lemma_extension_of_dotted_name(stem, html);
    crate::post::lemma_extension_of_dotted_name(stem, tera);
    crate::post::lemma_extension_of_dotted_name(stem, xml);
    crate::post::lemma_extension_of_dotted_name(stem, css);
    assert(stem + seq!['.', 'h', 't', 'm', 'l'] =~= stem + seq!['.'] + html);
    assert(stem + seq!['.', 't', 'e', 'r', 'a'] =~= stem + seq!['.'] + tera);
    assert(stem + seq!['.', 'x', 'm', 'l'] =~= stem + seq!['.'] + xml);
    assert(stem + seq!['.', 'c', 's', 's'] =~= stem + seq!['.'] + css);
    assert(template_suffixes()[1].skip(1) =~= html);
    assert(template_suffixes()[2].skip(1) =~= tera);
    assert(template_suffixes()[3].skip(1) =~= xml);
    assert forall|k: int| 0 <= k < template_suffixes().len() implies #[trigger] template_suffixes()[k].skip(
        1,
    ) != css by {
        let t = template_suffixes()[k].skip(1);
        if k == 0 {
            assert(t.len() != css.len());
        } else if k == 1 {
            assert(t[0] != css[0]);
        } else if k == 2 {
            assert(t[0] != css[0]);
        } else {
            assert(t[0] != css[0]);
        }
    }
}

} // verus!

verus! {

/// A pattern that starts with `.` never starts inside a stretch with no `.`.
proof fn lemma_replace_after_dotless(a: Seq<char>, y: Seq<char>, pat: Seq<char>)
    requires
        pat.len() > 0,
        pat[0] == '.',
        !a.contains('.'),
    ensures
        replace_all(a + y, pat, Seq::empty()) == a + replace_all(y, pat, Seq::empty()),
    decreases a.len(),
{
    let e = Seq::<char>::empty();
    if a.len() > 0 {
        let s = a + y;
        assert(s[0] == a[0]);
        assert(a[0] != '.') by {
            if a[0] == '.' {
                assert(a.contains('.'));
            }
        }
        assert(!pat.is_prefix_of(s)) by {
            if pat.is_prefix_of(s) {
                assert(s.subrange(0, pat.len() as int)[0] == s[0]);
            }
        }
        let t = a.drop_first();
        assert(!t.contains('.')) by {
            if t.contains('.') {
                let i = choose|i: int| 0 <= i < t.len() && t[i] == '.';
                assert(a[i + 1] == '.');
            }
        }
        assert(s.drop_first() =~= t + y);
        lemma_replace_after_dotless(t, y, pat);
        assert(seq![s[0]] + (t + replace_all(y, pat, e)) =~= a + replace_all(y, pat, e));
    } else {
        assert(a + y =~= y);
        assert(a + replace_all(y, pat, e) =~= replace_all(y, pat, e));
    }
}

/// A pattern that starts with `.` and does not start a text whose only `.`
/// comes first is nowhere in it.
proof fn lemma_replace_absent_in_dotted(y: Seq<char>, pat: Seq<char>)
    requires
        pat.len() > 0,
        pat[0] == '.',
        y.len() > 0,
        !y.drop_first().contains('.'),
        !pat.is_prefix_of(y),
    ensures
        replace_all(y, pat, Seq::empty()) == y,
{
    assert forall|i: int| 0 <= i <= y.len() implies !pat.is_prefix_of(#[trigger] y.skip(i)) by {
        if i == 0 {
            assert(y.skip(0) =~= y);
        } else if i < y.len() {
            if pat.is_prefix_of(y.skip(i)) {
                assert(y.skip(i).subrange(0, pat.len() as int)[0] == y[i]);
                assert(y.drop_first()[i - 1] == y[i]);
            }
        }
    }
    lemma_replace_absent(y, pat, Seq::empty());
}

/// Removing a pattern from itself leaves nothing.
proof fn lemma_replace_whole(pat: Seq<char>)
    requires
        pat.len() > 0,
    ensures
        replace_all(pat, pat, Seq::empty()) == Seq::<char>::empty(),
{
    lemma_replace_leading(pat, Seq::empty(), Seq::empty());
    assert(pat + Seq::<char>::empty() =~= pat);
}

/// A template at the top of the root, named `{stem}` and one template suffix,
/// where the stem holds neither `.` nor `/`, is registered under the stem.
pub proof fn lemma_top_level_template_name(root: Seq<char>, stem: Seq<char>)
    requires
        !stem.contains('.'),
        !stem.contains('/'),
    ensures
        template_name_of(root, root + seq!['/'] + stem + seq!['.', 'h', 't', 'm', 'l', '.', 't', 'e', 'r', 'a'])
            == stem,
        template_name_of(root, root + seq!['/'] + stem + seq!['.', 'h', 't', 'm', 'l']) == stem,
        template_name_of(root, root + seq!['/'] + stem + seq!['.', 't', 'e', 'r', 'a']) == stem,
        template_name_of(root, root + seq!['/'] + stem + seq!['.', 'x', 'm', 'l']) == stem,
{
    let e = Seq::<char>::empty();
    let s0 = template_suffixes()[0];
    let s1 = template_suffixes()[1];
    let s2 = template_suffixes()[2];
    let s3 = template_suffixes()[3];
    // The relative directory of a file at the top of the root is empty.
    if root.len() > 0 {
        lemma_replace_leading(root, e, Seq::empty());
        assert(root + e =~= root);
    } else {
        lemma_replace_empty_by_empty(root);
    }
    assert(replace_all(root, root, e) =~= e);
    // Stripping the suffixes from `{stem}{sfx}` strips them from `sfx`.
    assert forall|y: Seq<char>|
        #![trigger strip_template_suffixes(stem + y)]
        true implies strip_template_suffixes(stem + y) == stem + strip_template_suffixes(y) by {
        lemma_replace_after_dotless(stem, y, s0);
        let y1 = replace_all(y, s0, e);
        lemma_replace_after_dotless(stem, y1, s1);
        let y2 = replace_all(y1, s1, e);
        lemma_replace_after_dotless(stem, y2, s2);
        let y3 = replace_all(y2, s2, e);
        lemma_replace_after_dotless(stem, y3, s3);
    }
    assert(replace_all(e, s0, e) == e && replace_all(e, s1, e) == e && replace_all(e, s2, e) == e
        && replace_all(e, s3, e) == e);
    // `.html.tera`
    lemma_replace_whole(s0);
    assert(strip_template_suffixes(s0) == e);
    // `.html`
    assert(!s0.is_prefix_of(s1));
    assert(!s1.drop_first().contains('.')) by {
        if s1.drop_first().contains('.') {
            let i = choose|i: int| 0 <= i < s1.drop_first().len() && s1.drop_first()[i] == '.';
        }
    }
    lemma_replace_absent_in_dotted(s1, s0);
    lemma_replace_whole(s1);
    assert(strip_template_suffixes(s1) == e);
    // `.tera`
    assert(!s2.drop_first().contains('.')) by {
        if s2.drop_first().contains('.') {
            let i = choose|i: int| 0 <= i < s2.drop_first().len() && s2.drop_first()[i] == '.';
        }
    }
    assert(!s0.is_prefix_of(s2));
    assert(!s1.is_prefix_of(s2)) by {
        if s1.is_prefix_of(s2) {
            assert(s2.subrange(0, 5)[1] == s2[1]);
        }
    }
    lemma_replace_absent_in_dotted(s2, s0);
    lemma_replace_absent_in_dotted(s2, s1);
    lemma_replace_whole(s2);
    assert(strip_template_suffixes(s2) == e);
    // `.xml`
    assert(!s3.drop_first().contains('.')) by {
        if s3.drop_first().contains('.') {
            let i = choose|i: int| 0 <= i < s3.drop_first().len() && s3.drop_first()[i] == '.';
        }
    }
    assert(!s0.is_prefix_of(s3));
    assert(!s1.is_prefix_of(s3));
    assert(!s2.is_prefix_of(s3));
    lemma_replace_absent_in_dotted(s3, s0);
    lemma_replace_absent_in_dotted(s3, s1);
    lemma_replace_absent_in_dotted(s3, s2);
    lemma_replace_whole(s3);
    assert(strip_template_suffixes(s3) == e);
    // Each file.
    let sfxs = seq![s0, s1, s2, s3];
    assert forall|k: int| 0 <= k < 4 implies template_name_of(root, root + seq!['/'] + (stem + #[trigger] sfxs[k]))
        == stem by {
        let f = stem + sfxs[k];
        assert(!sfxs[k].contains('/')) by {
            if sfxs[k].contains('/') {
                let i = choose|i: int| 0 <= i < sfxs[k].len() && sfxs[k][i] == '/';
            }
        }
        assert(!f.contains('/')) by {
            if f.contains('/') {
                let i = choose|i: int| 0 <= i < f.len() && f[i] == '/';
                if i < stem.len() {
                    assert(stem[i] == '/');
                } else {
                    assert(sfxs[k][i - stem.len()] == '/');
                }
            }
        }
        lemma_last_slash_before_name(root, f);
        let p = root + seq!['/'] + f;
        assert(file_name(p) =~= f);
        assert(parent_dir(p) =~= root);
        assert(strip_template_suffixes(f) == stem + strip_template_suffixes(sfxs[k]));
        assert(stem + e =~= stem);
    }
    assert(root + seq!['/'] + stem + s0 =~= root + seq!['/'] + (stem + sfxs[0]));
    assert(root + seq!['/'] + stem + s1 =~= root + seq!['/'] + (stem + sfxs[1]));
    assert(root + seq!['/'] + stem + s2 =~= root + seq!['/'] + (stem + sfxs[2]));
    assert(root + seq!['/'] + stem + s3 =~= root + seq!['/'] + (stem + sfxs[3]));
}

} // verus!
