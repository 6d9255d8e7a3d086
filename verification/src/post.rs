//! Posts: their metadata, how they are found among files, and how they are
//! indexed by slug.
use vstd::prelude::*;
use crate::slug_map::SlugMap;
use crate::text::{last_index_of, last_index_of_char, lemma_last_index_of_bounds, concat_str};

verus! {

/// A date of the proleptic Gregorian calendar in the range of
/// `chrono::NaiveDate`, as the metadata file of a post gives it.
#[derive(Clone, Copy, Debug)]
pub struct PostDate {
    year: i32,
    month: u32,
    day: u32,
}

/// The smallest and largest years `chrono::NaiveDate` holds.
pub open spec fn min_date_year() -> int {
    -262143
}

pub open spec fn max_date_year() -> int {
    262142
}

/// Leap years of the proleptic Gregorian calendar.
pub open spec fn is_leap_year(year: int) -> bool {
    year % 4 == 0 && (year % 100 != 0 || year % 400 == 0)
}

/// The number of days of `month` in `year`.
pub open spec fn days_in_month(year: int, month: int) -> int {
    if month == 2 {
        if is_leap_year(year) {
            29
        } else {
            28
        }
    } else if month == 4 || month == 6 || month == 9 || month == 11 {
        30
    } else {
        31
    }
}

/// `year`, `month` and `day` name a date that `chrono::NaiveDate` holds.
pub open spec fn is_calendar_date(year: int, month: int, day: int) -> bool {
    &&& min_date_year() <= year <= max_date_year()
    &&& 1 <= month <= 12
    &&& 1 <= day <= days_in_month(year, month)
}

impl PostDate {
    #[verifier::type_invariant]
    spec fn is_valid(&self) -> bool {
        is_calendar_date(self.year as int, self.month as int, self.day as int)
    }

    pub closed spec fn spec_year(&self) -> i32 {
        self.year
    }

    pub closed spec fn spec_month(&self) -> u32 {
        self.month
    }

    pub closed spec fn spec_day(&self) -> u32 {
        self.day
    }

    /// The date `year`-`month`-`day`, where it is one that
    /// `chrono::NaiveDate` holds.
    pub fn new(year: i32, month: u32, day: u32) -> (r: Option<PostDate>)
        ensures
            r is Some <==> is_calendar_date(year as int, month as int, day as int),
            r matches Some(d) ==> d.spec_year() == year && d.spec_month() == month && d.spec_day()
                == day,
    {
        if naive_date_exists(year, month, day) {
            Some(PostDate { year, month, day })
        } else {
            None
        }
    }

    pub fn year(&self) -> (r: i32)
        ensures
            r == self.spec_year(),
    {
        self.year
    }

    pub fn month(&self) -> (r: u32)
        ensures
            r == self.spec_month(),
            1 <= r <= 12,
    {
        proof {
            use_type_invariant(self);
        }
        self.month
    }

    pub fn day(&self) -> (r: u32)
        ensures
            r == self.spec_day(),
            1 <= r <= days_in_month(self.spec_year() as int, self.spec_month() as int),
    {
        proof {
            use_type_invariant(self);
        }
        self.day
    }
}

/// `chrono::NaiveDate::from_ymd_opt(year, month, day).is_some()`: the date
/// exists in the proleptic Gregorian calendar and its year lies in
/// `NaiveDate`'s range (`MIN_YEAR` to `MAX_YEAR`).
#[verifier::external_body]
fn naive_date_exists(year: i32, month: u32, day: u32) -> (r: bool)
    ensures
        r == is_calendar_date(year as int, month as int, day as int),
{
    chrono::NaiveDate::from_ymd_opt(year, month, day).is_some()
}

/// What a post's metadata file says of it.
#[derive(Debug)]
pub struct PostMeta {
    pub title: String,
    pub date: PostDate,
    pub tags: Vec<String>,
    pub slug: String,
    pub description: String,
    /// Hidden posts are served by slug but listed nowhere.
    pub hidden: bool,
}

/// A post: its metadata and its Markdown text.
#[derive(Debug)]
pub struct Post {
    pub meta: PostMeta,
    pub content: String,
}

/// The metadata of a post as plain values.
pub struct PostMetaView {
    pub title: Seq<char>,
    pub date: PostDate,
    pub tags: Seq<Seq<char>>,
    pub slug: Seq<char>,
    pub description: Seq<char>,
    pub hidden: bool,
}

/// A post as plain values.
pub struct PostView {
    pub meta: PostMetaView,
    pub content: Seq<char>,
}

impl View for PostMeta {
    type V = PostMetaView;

    open spec fn view(&self) -> PostMetaView {
        PostMetaView {
            title: self.title@,
            date: self.date,
            tags: self.tags@.map_values(|t: String| t@),
            slug: self.slug@,
            description: self.description@,
            hidden: self.hidden,
        }
    }
}

impl View for Post {
    type V = PostView;

    open spec fn view(&self) -> PostView {
        PostView { meta: self.meta@, content: self.content@ }
    }
}

/// A copy of every string of `v`, in order.
pub fn copy_strings(v: &Vec<String>) -> (r: Vec<String>)
    ensures
        r@ == v@,
{
    let mut r: Vec<String> = Vec::new();
    let n = v.len();
    let mut i: usize = 0;
    while i < n
        invariant
            n == v.len(),
            i <= n,
            r@ == v@.take(i as int),
        decreases n - i,
    {
        r.push(v[i].clone());
        assert(r@ =~= v@.take(i + 1));
        i = i + 1;
    }
    assert(v@.take(n as int) =~= v@);
    r
}

impl Clone for PostMeta {
    fn clone(&self) -> (r: Self)
        ensures
            r@ == self@,
    {
        let r = PostMeta {
            title: self.title.clone(),
            date: self.date,
            tags: copy_strings(&self.tags),
            slug: self.slug.clone(),
            description: self.description.clone(),
            hidden: self.hidden,
        };
        assert(r.tags@.map_values(|t: String| t@) =~= self.tags@.map_values(|t: String| t@));
        r
    }
}

impl Clone for Post {
    fn clone(&self) -> (r: Self)
        ensures
            r@ == self@,
    {
        Post { meta: self.meta.clone(), content: self.content.clone() }
    }
}

/// Posts indexed by slug, one after another: a later post replaces an
/// earlier one with the same slug.
pub open spec fn posts_by_slug(posts: Seq<Post>) -> Map<Seq<char>, Post>
    decreases posts.len(),
{
    if posts.len() == 0 {
        Map::empty()
    } else {
        posts_by_slug(posts.drop_last()).insert(posts.last().meta.slug@, posts.last())
    }
}

impl Post {
    /// The loaded posts indexed by slug: a later post replaces an earlier one
    /// with the same slug.
    pub fn all(posts: Vec<Post>) -> (r: SlugMap<Post>)
        ensures
            r@ == posts_by_slug(posts@),
    {
        let ghost input = posts@;
        let mut r: SlugMap<Post> = SlugMap::new();
        for post in it: posts.into_iter()
            invariant
                it.seq() == input,
                r@ == posts_by_slug(input.take(it.index() as int)),
        {
            proof {
                assert(input.take(it.index() + 1).drop_last() =~= input.take(it.index() as int));
            }
            let slug = post.meta.slug.clone();
            r.insert(slug, post);
        }
        proof {
            assert(input.take(input.len() as int) =~= input);
        }
        r
    }
}

/// Where a later post with the same slug is absent, the index holds the post
/// itself under its slug.
pub proof fn lemma_all_finds_last_post(posts: Seq<Post>, i: int)
    requires
        0 <= i < posts.len(),
        forall|j: int| i < j < posts.len() ==> #[trigger] posts[j].meta.slug@ != posts[i].meta.slug@,
    ensures
        posts_by_slug(posts).contains_key(posts[i].meta.slug@),
        posts_by_slug(posts)[posts[i].meta.slug@] == posts[i],
    decreases posts.len(),
{
    if i < posts.len() - 1 {
        let t = posts.drop_last();
        assert forall|j: int| i < j < t.len() implies #[trigger] t[j].meta.slug@ != t[i].meta.slug@ by {
            assert(t[j] == posts[j]);
        }
        lemma_all_finds_last_post(t, i);
        assert(posts.last() == posts[posts.len() - 1]);
    }
}

/// The index holds exactly the slugs of the posts.
pub proof fn lemma_all_slugs(posts: Seq<Post>)
    ensures
        forall|k: Seq<char>| #[trigger]
            posts_by_slug(posts).contains_key(k) <==> exists|j: int|
                0 <= j < posts.len() && posts[j].meta.slug@ == k,
    decreases posts.len(),
{
    if posts.len() > 0 {
        let t = posts.drop_last();
        lemma_all_slugs(t);
        assert forall|k: Seq<char>| #[trigger]
            posts_by_slug(posts).contains_key(k) <==> exists|j: int|
                0 <= j < posts.len() && posts[j].meta.slug@ == k by {
            assert(posts_by_slug(posts) == posts_by_slug(t).insert(posts.last().meta.slug@, posts.last()));
            assert(posts.last() == posts[posts.len() - 1]);
            if exists|j: int| 0 <= j < t.len() && t[j].meta.slug@ == k {
                let j = choose|j: int| 0 <= j < t.len() && t[j].meta.slug@ == k;
                assert(posts[j] == t[j]);
            }
            if exists|j: int| 0 <= j < posts.len() && posts[j].meta.slug@ == k {
                let j = choose|j: int| 0 <= j < posts.len() && posts[j].meta.slug@ == k;
                if j < t.len() {
                    assert(t[j] == posts[j]);
                }
            }
        }
    }
}

/// The last component of a file's path: what follows its last `/`.
pub open spec fn file_name(path: Seq<char>) -> Seq<char> {
    match last_index_of(path, '/') {
        Some(k) => path.skip(k + 1),
        None => path,
    }
}

/// The extension of a file name: what follows its last `.`, where that dot is
/// not the name's first character.
pub open spec fn name_extension(name: Seq<char>) -> Option<Seq<char>> {
    match last_index_of(name, '.') {
        Some(k) => if k == 0 {
            None
        } else {
            Some(name.skip(k + 1))
        },
        None => None,
    }
}

/// The extension of the file at `path` (`Path::extension` of a file's path).
pub open spec fn file_extension(path: Seq<char>) -> Option<Seq<char>> {
    name_extension(file_name(path))
}

/// The path of the file beside `path` with the same stem and the extension
/// `toml` (`Path::with_extension("toml")` of a file's path). A path with no
/// file name is left as it is.
pub open spec fn meta_file_path_of(path: Seq<char>) -> Seq<char> {
    let toml = seq!['.', 't', 'o', 'm', 'l'];
    if file_name(path).len() == 0 {
        path
    } else {
        match file_extension(path) {
            Some(ext) => path.take(path.len() - ext.len() - 1) + toml,
            None => path + toml,
        }
    }
}

/// The extension of the file at `path`, if it has one.
pub fn file_extension_str(path: &str) -> (r: Option<String>)
    ensures
        match r {
            Some(e) => file_extension(path@) == Some(e@),
            None => file_extension(path@) is None,
        },
{
    let cs = crate::text::chars_of(path);
    let n = cs.len();
    proof {
        lemma_last_index_of_bounds(path@, '/');
    }
    let start: usize = match last_index_of_char(&cs, '/') {
        Some(k) => k + 1,
        None => 0,
    };
    let name = path.substring_char(start, n);
    assert(name@ =~= file_name(path@));
    let ns = crate::text::chars_of(name);
    proof {
        lemma_last_index_of_bounds(name@, '.');
    }
    match last_index_of_char(&ns, '.') {
        Some(k) => if k == 0 {
            None
        } else {
            let ext = name.substring_char(k + 1, ns.len());
            assert(ext@ =~= name@.skip(k + 1));
            Some(ext.to_owned())
        },
        None => None,
    }
}

/// Whether the file at `path` holds a post: its extension is `md`.
pub fn is_markdown_file(path: &str) -> (r: bool)
    ensures
        r == (file_extension(path@) == Some(seq!['m', 'd'])),
{
    match file_extension_str(path) {
        Some(ext) => {
            let md = "md";
            proof {
                reveal_strlit("md");
            }
            let m = md.to_owned();
            assert(m@ =~= seq!['m', 'd']);
            ext == m
        },
        None => false,
    }
}

/// The path of the metadata file of the post at `path`: the same path with
/// the extension `toml`.
pub fn meta_file_path(path: &str) -> (r: String)
    ensures
        r@ == meta_file_path_of(path@),
{
    let toml = ".toml";
    proof {
        reveal_strlit(".toml");
    }
    let cs = crate::text::chars_of(path);
    let n = cs.len();
    proof {
        lemma_last_index_of_bounds(path@, '/');
    }
    let start: usize = match last_index_of_char(&cs, '/') {
        Some(k) => k + 1,
        None => 0,
    };
    if start == n {
        assert(file_name(path@).len() == 0);
        return path.to_owned();
    }
    match file_extension_str(path) {
        Some(ext) => {
            let ext_len = ext.unicode_len();
            proof {
                assert(file_name(path@) =~= path@.skip(start as int));
                lemma_last_index_of_bounds(file_name(path@), '.');
            }
            let stem = path.substring_char(0, n - ext_len - 1);
            concat_str(stem, toml)
        },
        None => concat_str(path, toml),
    }
}

} // verus!

verus! {

/// The metadata of a post in `{stem}.md` is read from `{stem}.toml`.
pub proof fn lemma_meta_path_of_markdown(path: Seq<char>)
    requires
        file_extension(path) == Some(seq!['m', 'd']),
    ensures
        meta_file_path_of(path) == path.take(path.len() - 2) + seq!['t', 'o', 'm', 'l'],
        path.len() >= 3,
        path[path.len() - 3] == '.',
{
    let name = file_name(path);
    lemma_last_index_of_bounds(path, '/');
    lemma_last_index_of_bounds(name, '.');
    let k = last_index_of(name, '.')->0;
    assert(name.skip(k + 1) == seq!['m', 'd']);
    assert(name.len() == k + 3);
    assert(name.len() > 0);
    assert(path.len() >= name.len());
    match last_index_of(path, '/') {
        Some(s) => {
            assert(name =~= path.skip(s + 1));
            assert(path[path.len() - 3] == name[k]);
        },
        None => {},
    }
    assert(path.take(path.len() - 3) + seq!['.', 't', 'o', 'm', 'l'] =~= path.take(path.len() - 2)
        + seq!['t', 'o', 'm', 'l']);
}

} // verus!

verus! {

/// A file named `{stem}.{ext}`, where `ext` holds no `.` or `/` and the stem
/// ends in neither `/` (so the file has a name before the dot), has the
/// extension `ext`.
pub proof fn lemma_extension_of_dotted_name(stem: Seq<char>, ext: Seq<char>)
    requires
        stem.len() > 0,
        stem.last() != '/',
        !ext.contains('.'),
        !ext.contains('/'),
    ensures
        file_extension(stem + seq!['.'] + ext) == Some(ext),
{
    let path = stem + seq!['.'] + ext;
    let tail = seq!['.'] + ext;
    assert(path =~= stem + tail);
    assert(!tail.contains('/')) by {
        if tail.contains('/') {
            let i = choose|i: int| 0 <= i < tail.len() && tail[i] == '/';
            assert(i > 0);
            assert(ext[i - 1] == '/');
        }
    }
    crate::text::lemma_last_index_of_tail(stem, tail, '/');
    lemma_last_index_of_bounds(stem, '/');
    let n0 = file_name(stem);
    match last_index_of(stem, '/') {
        Some(k) => {
            assert(k < stem.len() - 1) by {
                assert(stem[stem.len() - 1] == stem.last());
            }
            assert(file_name(path) =~= n0 + seq!['.'] + ext);
        },
        None => {
            assert(file_name(path) =~= n0 + seq!['.'] + ext);
        },
    }
    assert(n0.len() > 0);
    crate::text::lemma_last_index_of_tail(n0 + seq!['.'], ext, '.');
    assert((n0 + seq!['.']).last() == '.');
    assert(last_index_of(n0 + seq!['.'], '.') == Some(n0.len() as int));
    assert(n0 + seq!['.'] + ext =~= (n0 + seq!['.']) + ext);
    assert(file_name(path).skip(n0.len() as int + 1) =~= ext);
}

/// Every file `{stem}.md` is a post, and its metadata file is `{stem}.toml`.
pub proof fn lemma_md_files_are_posts(stem: Seq<char>)
    requires
        stem.len() > 0,
        stem.last() != '/',
    ensures
        file_extension(stem + seq!['.', 'm', 'd']) == Some(seq!['m', 'd']),
        meta_file_path_of(stem + seq!['.', 'm', 'd']) == stem + seq!['.', 't', 'o', 'm', 'l'],
{
    let md = seq!['m', 'd'];
    assert(!md.contains('.') && !md.contains('/')) by {
        if md.contains('.') || md.contains('/') {
            let i = choose|i: int| 0 <= i < md.len() && (md[i] == '.' || md[i] == '/');
        }
    }
    assert(stem + seq!['.', 'm', 'd'] =~= stem + seq!['.'] + md);
    lemma_extension_of_dotted_name(stem, md);
    let p = stem + seq!['.', 'm', 'd'];
    lemma_meta_path_of_markdown(p);
    assert(p.take(p.len() - 2) + seq!['t', 'o', 'm', 'l'] =~= stem + seq!['.', 't', 'o', 'm', 'l']);
}

} // verus!
