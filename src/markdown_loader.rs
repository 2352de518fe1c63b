//! Markdown blog posts: file naming, front matter, reading time and rendering.
use vstd::prelude::*;

use crate::text::{
    chars_end_with, chars_of, chars_slice, clone_strings, count_words, lemma_lex_total,
    lemma_lex_trans, lex_le, opt_view, str_eq, str_le, string_from_chars, string_views, word_count,
};

verus! {

// ---------------------------------------------------------------------------
// Outside calls
// ---------------------------------------------------------------------------

/// What CommonMark rendering makes of a Markdown text.
pub uninterp spec fn commonmark_html(markdown: Seq<char>) -> Seq<char>;

/// Relies on `pulldown_cmark::Parser::new` and `pulldown_cmark::html::push_html`:
/// the HTML rendering of a CommonMark text, which depends on the text alone.
#[verifier::external_body]
fn render_commonmark(markdown: &str) -> (r: String)
    ensures
        r@ == commonmark_html(markdown@),
{
    let mut out = String::new();
    pulldown_cmark::html::push_html(&mut out, pulldown_cmark::Parser::new(markdown));
    out
}

/// The raw front matter and the body that a `---`-delimited front-matter block
/// splits a text into.
pub uninterp spec fn front_matter_split(text: Seq<char>) -> (Seq<char>, Seq<char>);

/// Relies on `gray_matter::Matter::<YAML>::parse`: its `matter` (the trimmed
/// text between the `---` lines, empty when there is none) and its `content`
/// (the rest), which depend on the text alone.
#[verifier::external_body]
fn gray_matter_parse(text: &str) -> (r: (String, String))
    ensures
        (r.0@, r.1@) == front_matter_split(text@),
{
    let entity = gray_matter::Matter::<gray_matter::engine::YAML>::new().parse(text);
    (entity.matter, entity.content)
}

/// Markdown rendered to HTML.
pub fn markdown_to_html(markdown: &str) -> (r: String)
    ensures
        r@ == commonmark_html(markdown@),
{
    render_commonmark(markdown)
}

// ---------------------------------------------------------------------------
// Records
// ---------------------------------------------------------------------------

/// The metadata block at the top of a post.
#[derive(Debug)]
pub struct Frontmatter {
    pub slug: String,
    pub title: String,
    /// `YYYY-MM-DD`.
    pub date: String,
    pub excerpt: String,
    pub tags: Vec<String>,
    pub featured: bool,
    /// Minutes to read, when the author gives it.
    pub read_time: Option<u8>,
}

/// The mathematical value of a [`Frontmatter`].
pub struct FrontmatterView {
    pub slug: Seq<char>,
    pub title: Seq<char>,
    pub date: Seq<char>,
    pub excerpt: Seq<char>,
    pub tags: Seq<Seq<char>>,
    pub featured: bool,
    pub read_time: Option<u8>,
}

impl View for Frontmatter {
    type V = FrontmatterView;

    open spec fn view(&self) -> FrontmatterView {
        FrontmatterView {
            slug: self.slug@,
            title: self.title@,
            date: self.date@,
            excerpt: self.excerpt@,
            tags: string_views(self.tags@),
            featured: self.featured,
            read_time: self.read_time,
        }
    }
}

impl Clone for Frontmatter {
    fn clone(&self) -> (r: Self)
        ensures
            r@ == self@,
    {
        Frontmatter {
            slug: self.slug.clone(),
            title: self.title.clone(),
            date: self.date.clone(),
            excerpt: self.excerpt.clone(),
            tags: clone_strings(&self.tags),
            featured: self.featured,
            read_time: self.read_time,
        }
    }
}

/// The language a post file is written in.
#[derive(Debug, Clone, Copy, PartialEq, Eq, Structural)]
pub enum PostLanguage {
    EN,
    ES,
}

/// One post file, parsed.
#[derive(Debug)]
pub struct MarkdownPost {
    pub frontmatter: Frontmatter,
    pub content_html: String,
    pub read_time_minutes: u8,
    pub language: PostLanguage,
    /// The file name without its language and `.md` suffixes: the key that
    /// groups the language variants of one post.
    pub file_slug: String,
}

/// One post file, parsed, with the slug its front matter declares.
#[derive(Debug)]
pub struct ProcessedMarkdownPost {
    /// The front matter's slug.
    pub canonical_slug: String,
    pub file_slug: String,
    pub frontmatter: Frontmatter,
    pub content_html: String,
    pub read_time_minutes: u8,
    pub language: PostLanguage,
}

/// The mathematical value of a parsed post file.
pub struct PostView {
    pub canonical_slug: Seq<char>,
    pub file_slug: Seq<char>,
    pub frontmatter: FrontmatterView,
    pub content_html: Seq<char>,
    pub read_time_minutes: u8,
    pub language: PostLanguage,
}

impl View for MarkdownPost {
    type V = PostView;

    /// A post's canonical slug is its front matter's.
    open spec fn view(&self) -> PostView {
        PostView {
            canonical_slug: self.frontmatter.slug@,
            file_slug: self.file_slug@,
            frontmatter: self.frontmatter@,
            content_html: self.content_html@,
            read_time_minutes: self.read_time_minutes,
            language: self.language,
        }
    }
}

impl View for ProcessedMarkdownPost {
    type V = PostView;

    open spec fn view(&self) -> PostView {
        PostView {
            canonical_slug: self.canonical_slug@,
            file_slug: self.file_slug@,
            frontmatter: self.frontmatter@,
            content_html: self.content_html@,
            read_time_minutes: self.read_time_minutes,
            language: self.language,
        }
    }
}

impl Clone for MarkdownPost {
    fn clone(&self) -> (r: Self)
        ensures
            r@ == self@,
    {
        MarkdownPost {
            frontmatter: self.frontmatter.clone(),
            content_html: self.content_html.clone(),
            read_time_minutes: self.read_time_minutes,
            language: self.language,
            file_slug: self.file_slug.clone(),
        }
    }
}

impl Clone for ProcessedMarkdownPost {
    fn clone(&self) -> (r: Self)
        ensures
            r@ == self@,
    {
        ProcessedMarkdownPost {
            canonical_slug: self.canonical_slug.clone(),
            file_slug: self.file_slug.clone(),
            frontmatter: self.frontmatter.clone(),
            content_html: self.content_html.clone(),
            read_time_minutes: self.read_time_minutes,
            language: self.language,
        }
    }
}

/// A post file as read: its name, its front matter if it parsed, and its body.
#[derive(Debug)]
pub struct MarkdownSource {
    pub filename: String,
    pub frontmatter: Option<Frontmatter>,
    pub body: String,
}

/// The raw front matter of a text, if it has a non-empty one, and its body.
#[derive(Debug)]
pub struct FrontMatterSplit {
    pub matter: Option<String>,
    pub body: String,
}

/// Splits a post file's text into its raw front matter and its Markdown body.
pub fn split_front_matter(text: &str) -> (r: FrontMatterSplit)
    ensures
        r.body@ == front_matter_split(text@).1,
        opt_view(r.matter) == if front_matter_split(text@).0.len() > 0 {
            Some(front_matter_split(text@).0)
        } else {
            None
        },
{
    let (matter, body) = gray_matter_parse(text);
    if matter.unicode_len() > 0 {
        FrontMatterSplit { matter: Some(matter), body }
    } else {
        FrontMatterSplit { matter: None, body }
    }
}

// ---------------------------------------------------------------------------
// File names
// ---------------------------------------------------------------------------

/// The grouping key and language of a file name: `<slug>.es.md` is Spanish,
/// `<slug>.en.md` English, any other `<slug>.md` English; other names are not posts.
pub open spec fn file_slug_and_language(name: Seq<char>) -> Option<(Seq<char>, PostLanguage)> {
    if ".es.md"@.is_suffix_of(name) {
        Some((name.subrange(0, name.len() - 6), PostLanguage::ES))
    } else if ".en.md"@.is_suffix_of(name) {
        Some((name.subrange(0, name.len() - 6), PostLanguage::EN))
    } else if ".md"@.is_suffix_of(name) {
        Some((name.subrange(0, name.len() - 3), PostLanguage::EN))
    } else {
        None
    }
}

/// The grouping key and language of a post file's name, or `None` for a file
/// that is not Markdown.
pub fn parse_post_filename(filename: &str) -> (r: Option<(String, PostLanguage)>)
    ensures
        match r {
            Some(p) => file_slug_and_language(filename@) == Some((p.0@, p.1)),
            None => file_slug_and_language(filename@) is None,
        },
{
    let name = chars_of(filename);
    let es = chars_of(".es.md");
    let en = chars_of(".en.md");
    let md = chars_of(".md");
    proof {
        reveal_strlit(".es.md");
        reveal_strlit(".en.md");
        reveal_strlit(".md");
    }
    if chars_end_with(&name, &es) {
        let slug = chars_slice(&name, 0, name.len() - 6);
        Some((string_from_chars(slug.as_slice()), PostLanguage::ES))
    } else if chars_end_with(&name, &en) {
        let slug = chars_slice(&name, 0, name.len() - 6);
        Some((string_from_chars(slug.as_slice()), PostLanguage::EN))
    } else if chars_end_with(&name, &md) {
        let slug = chars_slice(&name, 0, name.len() - 3);
        Some((string_from_chars(slug.as_slice()), PostLanguage::EN))
    } else {
        None
    }
}

// ---------------------------------------------------------------------------
// Reading time
// ---------------------------------------------------------------------------

/// Minutes to read `words` words at 200 words a minute, rounded up, at least
/// one and at most 255.
pub open spec fn read_minutes(words: nat) -> u8 {
    let m = (words + 199) / 200;
    if m < 1 {
        1
    } else if m > 255 {
        255
    } else {
        m as u8
    }
}

/// Minutes to read `content`: its words at 200 a minute, rounded up, at least one.
pub fn calculate_read_time(content: &str) -> (r: u8)
    ensures
        r == read_minutes(word_count(content@)),
{
    let words = count_words(content);
    let m = words / 200 + if words % 200 > 0 {
        1usize
    } else {
        0usize
    };
    assert(m == (words + 199) / 200) by (nonlinear_arith)
        requires
            m == words / 200 + if words % 200 > 0 {
                1int
            } else {
                0int
            },
            words >= 0,
    ;
    if m < 1 {
        1
    } else if m > 255 {
        255
    } else {
        m as u8
    }
}

// ---------------------------------------------------------------------------
// Loading
// ---------------------------------------------------------------------------

/// The post a file makes: its front matter, its body rendered, the front
/// matter's reading time or else one computed from the body, and the
/// language and grouping key of its name.
pub open spec fn post_of(file_slug: Seq<char>, language: PostLanguage, fm: FrontmatterView, body: Seq<char>) -> PostView {
    PostView {
        canonical_slug: fm.slug,
        file_slug,
        frontmatter: fm,
        content_html: commonmark_html(body),
        read_time_minutes: match fm.read_time {
            Some(t) => t,
            None => read_minutes(word_count(body)),
        },
        language,
    }
}

/// The posts that a sequence of files makes, in order: Markdown files whose
/// front matter parsed.
pub open spec fn posts_of(sources: Seq<MarkdownSource>) -> Seq<PostView>
    decreases sources.len(),
{
    if sources.len() == 0 {
        Seq::empty()
    } else {
        let before = posts_of(sources.drop_last());
        let s = sources.last();
        match (file_slug_and_language(s.filename@), s.frontmatter) {
            (Some(parts), Some(fm)) => before.push(post_of(parts.0, parts.1, fm@, s.body@)),
            _ => before,
        }
    }
}

/// The views of a sequence of posts.
pub open spec fn markdown_views(s: Seq<MarkdownPost>) -> Seq<PostView> {
    s.map_values(|p: MarkdownPost| p@)
}

/// The views of a sequence of processed posts.
pub open spec fn processed_views(s: Seq<ProcessedMarkdownPost>) -> Seq<PostView> {
    s.map_values(|p: ProcessedMarkdownPost| p@)
}

/// The post that a Markdown file with parsed front matter makes, or `None` if
/// its name is not that of a Markdown file.
pub fn markdown_post_from(filename: &str, frontmatter: Frontmatter, body: &str) -> (r: Option<MarkdownPost>)
    ensures
        match file_slug_and_language(filename@) {
            Some(parts) => r is Some && r->0@ == post_of(parts.0, parts.1, frontmatter@, body@),
            None => r is None,
        },
{
    match parse_post_filename(filename) {
        Some((file_slug, language)) => {
            let read_time_minutes = match frontmatter.read_time {
                Some(t) => t,
                None => calculate_read_time(body),
            };
            let content_html = render_commonmark(body);
            Some(MarkdownPost { frontmatter, content_html, read_time_minutes, language, file_slug })
        },
        None => None,
    }
}

/// The posts of the given files, in order, skipping files that are not
/// Markdown or whose front matter did not parse.
pub fn load_markdown_posts(sources: Vec<MarkdownSource>) -> (r: Vec<MarkdownPost>)
    ensures
        markdown_views(r@) == posts_of(sources@),
{
    let ghost all = sources@;
    let mut rest = sources;
    let mut tail: Vec<MarkdownPost> = Vec::new();
    let mut r: Vec<MarkdownPost> = Vec::new();
    let mut i: usize = 0;
    while i < rest.len()
        invariant
            rest@ == all,
            i <= all.len(),
            markdown_views(r@) == posts_of(all.subrange(0, i as int)),
        decreases all.len() - i,
    {
        let ghost next = all.subrange(0, i as int + 1);
        assert(next.drop_last() =~= all.subrange(0, i as int));
        let src = &rest[i];
        match &src.frontmatter {
            Some(fm) => {
                match markdown_post_from(src.filename.as_str(), fm.clone(), src.body.as_str()) {
                    Some(post) => {
                        r.push(post);
                        assert(markdown_views(r@) =~= posts_of(next));
                    },
                    None => {},
                }
            },
            None => {},
        }
        i = i + 1;
    }
    assert(all.subrange(0, all.len() as int) =~= all);
    r
}

/// The posts of the given files with their canonical slugs, in order,
/// skipping files that are not Markdown or whose front matter did not parse.
pub fn load_processed_markdown_posts(sources: Vec<MarkdownSource>) -> (r: Vec<ProcessedMarkdownPost>)
    ensures
        processed_views(r@) == posts_of(sources@),
{
    let posts = load_markdown_posts(sources);
    let mut r: Vec<ProcessedMarkdownPost> = Vec::new();
    let mut i: usize = 0;
    while i < posts.len()
        invariant
            i <= posts@.len(),
            processed_views(r@) == markdown_views(posts@).subrange(0, i as int),
        decreases posts@.len() - i,
    {
        let p = &posts[i];
        let processed = ProcessedMarkdownPost {
            canonical_slug: p.frontmatter.slug.clone(),
            file_slug: p.file_slug.clone(),
            frontmatter: p.frontmatter.clone(),
            content_html: p.content_html.clone(),
            read_time_minutes: p.read_time_minutes,
            language: p.language,
        };
        assert(processed@ == posts@[i as int]@);
        let ghost before = r@;
        r.push(processed);
        assert(processed_views(r@) =~= processed_views(before).push(posts@[i as int]@));
        i = i + 1;
        assert(processed_views(r@) =~= markdown_views(posts@).subrange(0, i as int));
    }
    assert(markdown_views(posts@).subrange(0, posts@.len() as int) =~= markdown_views(posts@));
    r
}

// ---------------------------------------------------------------------------
// Consolidating by canonical slug
// ---------------------------------------------------------------------------

/// The first post of `posts` in language `lang` whose canonical slug is `slug`.
pub open spec fn first_canonical(posts: Seq<PostView>, slug: Seq<char>, lang: PostLanguage) -> Option<PostView>
    decreases posts.len(),
{
    if posts.len() == 0 {
        None
    } else if posts[0].canonical_slug == slug && posts[0].language == lang {
        Some(posts[0])
    } else {
        first_canonical(posts.drop_first(), slug, lang)
    }
}

/// Some post of `out` has this canonical slug.
pub open spec fn has_canonical(out: Seq<PostView>, slug: Seq<char>) -> bool {
    exists|i: int| 0 <= i < out.len() && #[trigger] out[i].canonical_slug == slug
}

/// `out` holds, for each canonical slug that has an English variant, the first
/// such variant, once, ordered by date, latest first.
pub open spec fn is_canonical_consolidation(posts: Seq<PostView>, out: Seq<PostView>) -> bool {
    &&& forall|i: int| 0 <= i < out.len() ==> first_canonical(posts, (#[trigger] out[i]).canonical_slug, PostLanguage::EN) == Some(out[i])
    &&& forall|i: int, j: int| 0 <= i < j < out.len() ==> out[i].canonical_slug != out[j].canonical_slug
    &&& forall|k: int|
        0 <= k < posts.len() && posts[k].language == PostLanguage::EN ==> #[trigger] has_canonical(out, posts[k].canonical_slug)
    &&& forall|i: int, j: int| 0 <= i < j < out.len() ==> lex_le(out[j].frontmatter.date, out[i].frontmatter.date)
}

proof fn lemma_first_canonical_found(posts: Seq<PostView>, k: int)
    requires
        0 <= k < posts.len(),
    ensures
        first_canonical(posts, posts[k].canonical_slug, posts[k].language) is Some,
    decreases posts.len(),
{
    if k > 0 && !(posts[0].canonical_slug == posts[k].canonical_slug && posts[0].language == posts[k].language) {
        assert(posts.drop_first()[k - 1] == posts[k]);
        lemma_first_canonical_found(posts.drop_first(), k - 1);
    }
}

proof fn lemma_first_canonical_member(posts: Seq<PostView>, slug: Seq<char>, lang: PostLanguage)
    requires
        first_canonical(posts, slug, lang) is Some,
    ensures
        exists|k: int|
            0 <= k < posts.len() && #[trigger] posts[k] == first_canonical(posts, slug, lang)->0
                && posts[k].canonical_slug == slug && posts[k].language == lang,
    decreases posts.len(),
{
    if !(posts[0].canonical_slug == slug && posts[0].language == lang) {
        lemma_first_canonical_member(posts.drop_first(), slug, lang);
        let k = choose|k: int|
            0 <= k < posts.drop_first().len() && #[trigger] posts.drop_first()[k] == first_canonical(
                posts.drop_first(),
                slug,
                lang,
            )->0 && posts.drop_first()[k].canonical_slug == slug && posts.drop_first()[k].language == lang;
        assert(posts[k + 1] == posts.drop_first()[k]);
    } else {
        assert(posts[0] == first_canonical(posts, slug, lang)->0);
    }
}

/// The position of the first post in language `lang` with this canonical slug.
fn find_canonical(raw: &Vec<ProcessedMarkdownPost>, slug: &String, lang: PostLanguage) -> (r: Option<usize>)
    ensures
        match r {
            Some(i) => i < raw@.len() && first_canonical(processed_views(raw@), slug@, lang) == Some(raw@[i as int]@),
            None => first_canonical(processed_views(raw@), slug@, lang) is None,
        },
{
    let ghost v = processed_views(raw@);
    let mut i: usize = 0;
    assert(v.subrange(0, v.len() as int) =~= v);
    while i < raw.len()
        invariant
            i <= raw@.len(),
            v == processed_views(raw@),
            first_canonical(v, slug@, lang) == first_canonical(v.subrange(i as int, v.len() as int), slug@, lang),
        decreases raw@.len() - i,
    {
        let ghost rest = v.subrange(i as int, v.len() as int);
        assert(rest[0] == raw@[i as int]@);
        if raw[i].language == lang && str_eq(raw[i].canonical_slug.as_str(), slug.as_str()) {
            return Some(i);
        }
        assert(rest.drop_first() =~= v.subrange(i as int + 1, v.len() as int));
        i = i + 1;
    }
    None
}

/// Whether some post of `out` has this canonical slug.
fn has_canonical_exec(out: &Vec<ProcessedMarkdownPost>, slug: &String) -> (r: bool)
    ensures
        r == has_canonical(processed_views(out@), slug@),
{
    let ghost bv = processed_views(out@);
    let mut j: usize = 0;
    while j < out.len()
        invariant
            j <= out@.len(),
            bv == processed_views(out@),
            forall|k: int| 0 <= k < j ==> bv[k].canonical_slug != slug@,
        decreases out@.len() - j,
    {
        assert(bv[j as int] == out@[j as int]@);
        if str_eq(out[j].canonical_slug.as_str(), slug.as_str()) {
            assert(bv[j as int].canonical_slug == slug@);
            return true;
        }
        j = j + 1;
    }
    false
}

/// Where a post dated `date` goes in `out`, which is ordered latest first.
fn canonical_date_position(out: &Vec<ProcessedMarkdownPost>, date: &String) -> (p: usize)
    requires
        forall|i: int, j: int|
            0 <= i < j < out@.len() ==> lex_le(out@[j].frontmatter.date@, out@[i].frontmatter.date@),
    ensures
        p <= out@.len(),
        forall|k: int| 0 <= k < p ==> lex_le(date@, #[trigger] out@[k].frontmatter.date@),
        forall|k: int| p <= k < out@.len() ==> lex_le(#[trigger] out@[k].frontmatter.date@, date@),
{
    let mut p: usize = 0;
    while p < out.len() && str_le(date.as_str(), out[p].frontmatter.date.as_str())
        invariant
            p <= out@.len(),
            forall|k: int| 0 <= k < p ==> lex_le(date@, #[trigger] out@[k].frontmatter.date@),
        decreases out@.len() - p,
    {
        p = p + 1;
    }
    if p < out.len() {
        proof {
            lemma_lex_total(date@, out@[p as int].frontmatter.date@);
            assert forall|k: int| p <= k < out@.len() implies lex_le(#[trigger] out@[k].frontmatter.date@, date@) by {
                if k > p {
                    assert(lex_le(out@[k].frontmatter.date@, out@[p as int].frontmatter.date@));
                    lemma_lex_trans(out@[k].frontmatter.date@, out@[p as int].frontmatter.date@, date@);
                }
            }
        }
    }
    p
}

/// One post per canonical slug that has an English variant: the first English
/// variant, ordered by date, latest first. Slugs with only a Spanish variant
/// are dropped.
pub fn consolidate_posts_by_canonical_slug(raw: &Vec<ProcessedMarkdownPost>) -> (r: Vec<ProcessedMarkdownPost>)
    ensures
        is_canonical_consolidation(processed_views(raw@), processed_views(r@)),
{
    let ghost v = processed_views(raw@);
    let mut out: Vec<ProcessedMarkdownPost> = Vec::new();
    let mut i: usize = 0;
    while i < raw.len()
        invariant
            i <= raw@.len(),
            v == processed_views(raw@),
            forall|j: int|
                0 <= j < out@.len() ==> first_canonical(v, (#[trigger] processed_views(out@)[j]).canonical_slug, PostLanguage::EN)
                    == Some(processed_views(out@)[j]),
            forall|a: int, b: int|
                0 <= a < b < out@.len() ==> processed_views(out@)[a].canonical_slug != processed_views(out@)[b].canonical_slug,
            forall|a: int, b: int|
                0 <= a < b < out@.len() ==> lex_le(out@[b].frontmatter.date@, out@[a].frontmatter.date@),
            forall|k: int|
                0 <= k < i && v[k].language == PostLanguage::EN ==> #[trigger] has_canonical(processed_views(out@), v[k].canonical_slug),
        decreases raw@.len() - i,
    {
        assert(v[i as int] == raw@[i as int]@);
        let ghost before = processed_views(out@);
        let ghost before_exec = out@;
        if raw[i].language == PostLanguage::EN && !has_canonical_exec(&out, &raw[i].canonical_slug) {
            let slug = &raw[i].canonical_slug;
            proof {
                lemma_first_canonical_found(v, i as int);
            }
            let e = match find_canonical(raw, slug, PostLanguage::EN) {
                Some(e) => e,
                None => {
                    proof {
                        assert(false);
                    }
                    0
                },
            };
            proof {
                lemma_first_canonical_member(v, slug@, PostLanguage::EN);
            }
            let post = raw[e].clone();
            let ghost pv = post@;
            assert(pv.canonical_slug == slug@);
            let p = canonical_date_position(&out, &post.frontmatter.date);
            out.insert(p, post);
            let ghost after = processed_views(out@);
            assert(after =~= before.insert(p as int, pv));
            assert(out@ =~= before_exec.insert(p as int, out@[p as int]));
            assert forall|j: int| 0 <= j < after.len() implies first_canonical(v, (#[trigger] after[j]).canonical_slug, PostLanguage::EN) == Some(after[j]) by {
                if j < p {
                    assert(after[j] == before[j]);
                } else if j > p {
                    assert(after[j] == before[j - 1]);
                }
            }
            assert forall|a: int, b: int| 0 <= a < b < after.len() implies after[a].canonical_slug != after[b].canonical_slug by {
                let oa = if a < p { a } else { a - 1 };
                let ob = if b < p { b } else { b - 1 };
                if a == p {
                    assert(after[b] == before[ob]);
                    assert(!has_canonical(before, slug@));
                } else if b == p {
                    assert(after[a] == before[oa]);
                    assert(!has_canonical(before, slug@));
                } else {
                    assert(after[a] == before[oa]);
                    assert(after[b] == before[ob]);
                }
            }
            assert forall|a: int, b: int| 0 <= a < b < out@.len() implies lex_le(out@[b].frontmatter.date@, out@[a].frontmatter.date@) by {
                let oa = if a < p { a } else { a - 1 };
                let ob = if b < p { b } else { b - 1 };
                if a == p {
                    assert(out@[b] == before_exec[ob]);
                } else if b == p {
                    assert(out@[a] == before_exec[oa]);
                } else {
                    assert(out@[a] == before_exec[oa]);
                    assert(out@[b] == before_exec[ob]);
                }
            }
            assert forall|k: int|
                0 <= k < i + 1 && v[k].language == PostLanguage::EN implies #[trigger] has_canonical(after, v[k].canonical_slug) by {
                if k < i {
                    assert(has_canonical(before, v[k].canonical_slug));
                    let j0 = choose|j0: int| 0 <= j0 < before.len() && #[trigger] before[j0].canonical_slug == v[k].canonical_slug;
                    if j0 < p {
                        assert(after[j0] == before[j0]);
                    } else {
                        assert(after[j0 + 1] == before[j0]);
                    }
                } else {
                    assert(after[p as int] == pv);
                }
            }
        }
        i = i + 1;
    }
    proof {
        let fin = processed_views(out@);
        assert forall|a: int, b: int| 0 <= a < b < fin.len() implies lex_le(fin[b].frontmatter.date, fin[a].frontmatter.date) by {
            assert(fin[a] == out@[a]@);
            assert(fin[b] == out@[b]@);
        }
    }
    out
}

/// The post with this canonical slug among the consolidated posts: the
/// first English variant with that slug, if there is one.
pub fn get_processed_post_by_slug(raw: &Vec<ProcessedMarkdownPost>, slug: &str) -> (r: Option<ProcessedMarkdownPost>)
    ensures
        match r {
            Some(p) => first_canonical(processed_views(raw@), slug@, PostLanguage::EN) == Some(p@),
            None => first_canonical(processed_views(raw@), slug@, PostLanguage::EN) is None,
        },
{
    let all = consolidate_posts_by_canonical_slug(raw);
    let ghost v = processed_views(raw@);
    let ghost av = processed_views(all@);
    let mut i: usize = 0;
    while i < all.len()
        invariant
            i <= all@.len(),
            av == processed_views(all@),
            v == processed_views(raw@),
            is_canonical_consolidation(v, av),
            forall|k: int| 0 <= k < i ==> (#[trigger] av[k]).canonical_slug != slug@,
        decreases all@.len() - i,
    {
        assert(av[i as int] == all@[i as int]@);
        if str_eq(all[i].canonical_slug.as_str(), slug) {
            let found = all[i].clone();
            assert(av[i as int].canonical_slug == slug@);
            return Some(found);
        }
        i = i + 1;
    }
    proof {
        if first_canonical(v, slug@, PostLanguage::EN) is Some {
            lemma_first_canonical_member(v, slug@, PostLanguage::EN);
            let k = choose|k: int|
                0 <= k < v.len() && #[trigger] v[k] == first_canonical(v, slug@, PostLanguage::EN)->0
                    && v[k].canonical_slug == slug@ && v[k].language == PostLanguage::EN;
            assert(has_canonical(av, v[k].canonical_slug));
        }
    }
    None
}

} // verus!
