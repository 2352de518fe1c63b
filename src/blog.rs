//! Blog posts consolidated across languages.
use vstd::prelude::*;

use crate::i18n::Language;
use crate::markdown_loader::{markdown_views, MarkdownPost, PostLanguage, PostView};
use crate::text::{clone_strings, lemma_lex_total, lemma_lex_trans, lex_le, str_eq, str_le, string_views};

verus! {

/// Whether a post is shown.
#[derive(Debug, Clone, Copy, PartialEq, Eq, Structural)]
pub enum PostStatus {
    Published,
    Draft,
}

/// One blog post in both languages.
#[derive(Debug)]
pub struct BlogPost {
    pub slug: String,
    pub title_en: String,
    pub title_es: String,
    pub excerpt_en: String,
    pub excerpt_es: String,
    pub content_en: String,
    pub content_es: String,
    /// `YYYY-MM-DD`.
    pub date: String,
    pub read_time: u8,
    pub tags: Vec<String>,
    pub status: PostStatus,
    pub featured: bool,
}

/// The mathematical value of a [`BlogPost`].
pub struct BlogPostView {
    pub slug: Seq<char>,
    pub title_en: Seq<char>,
    pub title_es: Seq<char>,
    pub excerpt_en: Seq<char>,
    pub excerpt_es: Seq<char>,
    pub content_en: Seq<char>,
    pub content_es: Seq<char>,
    pub date: Seq<char>,
    pub read_time: u8,
    pub tags: Seq<Seq<char>>,
    pub status: PostStatus,
    pub featured: bool,
}

impl View for BlogPost {
    type V = BlogPostView;

    open spec fn view(&self) -> BlogPostView {
        BlogPostView {
            slug: self.slug@,
            title_en: self.title_en@,
            title_es: self.title_es@,
            excerpt_en: self.excerpt_en@,
            excerpt_es: self.excerpt_es@,
            content_en: self.content_en@,
            content_es: self.content_es@,
            date: self.date@,
            read_time: self.read_time,
            tags: string_views(self.tags@),
            status: self.status,
            featured: self.featured,
        }
    }
}

impl Clone for BlogPost {
    fn clone(&self) -> (r: Self)
        ensures
            r@ == self@,
    {
        BlogPost {
            slug: self.slug.clone(),
            title_en: self.title_en.clone(),
            title_es: self.title_es.clone(),
            excerpt_en: self.excerpt_en.clone(),
            excerpt_es: self.excerpt_es.clone(),
            content_en: self.content_en.clone(),
            content_es: self.content_es.clone(),
            date: self.date.clone(),
            read_time: self.read_time,
            tags: clone_strings(&self.tags),
            status: self.status,
            featured: self.featured,
        }
    }
}

impl BlogPost {
    /// The title in `lang`.
    pub fn title(&self, lang: &Language) -> (r: &str)
        ensures
            r@ == match lang {
                Language::EN => self.title_en@,
                Language::ES => self.title_es@,
            },
    {
        match lang {
            Language::EN => self.title_en.as_str(),
            Language::ES => self.title_es.as_str(),
        }
    }

    /// The excerpt in `lang`.
    pub fn excerpt(&self, lang: &Language) -> (r: &str)
        ensures
            r@ == match lang {
                Language::EN => self.excerpt_en@,
                Language::ES => self.excerpt_es@,
            },
    {
        match lang {
            Language::EN => self.excerpt_en.as_str(),
            Language::ES => self.excerpt_es.as_str(),
        }
    }

    /// The rendered content in `lang`.
    pub fn content(&self, lang: &Language) -> (r: &str)
        ensures
            r@ == match lang {
                Language::EN => self.content_en@,
                Language::ES => self.content_es@,
            },
    {
        match lang {
            Language::EN => self.content_en.as_str(),
            Language::ES => self.content_es.as_str(),
        }
    }
}

// ---------------------------------------------------------------------------
// What consolidation owes
// ---------------------------------------------------------------------------

/// The first post of `posts` in language `lang` whose file slug is `slug`.
pub open spec fn first_variant(posts: Seq<PostView>, slug: Seq<char>, lang: PostLanguage) -> Option<PostView>
    decreases posts.len(),
{
    if posts.len() == 0 {
        None
    } else if posts[0].file_slug == slug && posts[0].language == lang {
        Some(posts[0])
    } else {
        first_variant(posts.drop_first(), slug, lang)
    }
}

/// The post that an English variant and an optional Spanish one make: the
/// Spanish fields fall back to the English ones, and the date, reading time,
/// tags and featured flag are the English variant's.
pub open spec fn blog_post_for(en: PostView, es: Option<PostView>) -> BlogPostView {
    let es_post = match es {
        Some(e) => e,
        None => en,
    };
    BlogPostView {
        slug: en.file_slug,
        title_en: en.frontmatter.title,
        title_es: es_post.frontmatter.title,
        excerpt_en: en.frontmatter.excerpt,
        excerpt_es: es_post.frontmatter.excerpt,
        content_en: en.content_html,
        content_es: es_post.content_html,
        date: en.frontmatter.date,
        read_time: en.read_time_minutes,
        tags: en.frontmatter.tags,
        status: PostStatus::Published,
        featured: en.frontmatter.featured,
    }
}

/// `b` is the consolidated post of its group in `posts`, which has an English variant.
pub open spec fn well_built(posts: Seq<PostView>, b: BlogPostView) -> bool {
    &&& first_variant(posts, b.slug, PostLanguage::EN) is Some
    &&& b == blog_post_for(
        first_variant(posts, b.slug, PostLanguage::EN)->0,
        first_variant(posts, b.slug, PostLanguage::ES),
    )
}

/// No two posts of `out` share a slug.
pub open spec fn slugs_distinct(out: Seq<BlogPostView>) -> bool {
    forall|i: int, j: int| 0 <= i < j < out.len() ==> out[i].slug != out[j].slug
}

/// The posts of `out` are ordered by date, latest first.
pub open spec fn dates_descending(out: Seq<BlogPostView>) -> bool {
    forall|i: int, j: int| 0 <= i < j < out.len() ==> lex_le(out[j].date, out[i].date)
}

/// Some post of `out` has this slug.
pub open spec fn has_post(out: Seq<BlogPostView>, slug: Seq<char>) -> bool {
    exists|i: int| 0 <= i < out.len() && #[trigger] out[i].slug == slug
}

/// Every English variant among the first `upto` posts has its group in `out`.
pub open spec fn covers_english(posts: Seq<PostView>, out: Seq<BlogPostView>, upto: int) -> bool {
    forall|k: int|
        0 <= k < upto && posts[k].language == PostLanguage::EN ==> #[trigger] has_post(out, posts[k].file_slug)
}

/// `out` consolidates `posts`: one post per file slug that has an English
/// variant, built from that group's variants, ordered by date, latest first.
pub open spec fn is_consolidation(posts: Seq<PostView>, out: Seq<BlogPostView>) -> bool {
    &&& forall|i: int| 0 <= i < out.len() ==> well_built(posts, #[trigger] out[i])
    &&& slugs_distinct(out)
    &&& covers_english(posts, out, posts.len() as int)
    &&& dates_descending(out)
}

/// The views of a sequence of blog posts.
pub open spec fn blog_views(s: Seq<BlogPost>) -> Seq<BlogPostView> {
    s.map_values(|p: BlogPost| p@)
}

// ---------------------------------------------------------------------------
// Consolidating
// ---------------------------------------------------------------------------

/// The position of the first post in language `lang` with file slug `slug`.
fn find_variant(raw: &Vec<MarkdownPost>, slug: &String, lang: PostLanguage) -> (r: Option<usize>)
    ensures
        match r {
            Some(i) => i < raw@.len() && first_variant(markdown_views(raw@), slug@, lang) == Some(raw@[i as int]@),
            None => first_variant(markdown_views(raw@), slug@, lang) is None,
        },
{
    let ghost v = markdown_views(raw@);
    let mut i: usize = 0;
    assert(v.subrange(0, v.len() as int) =~= v);
    while i < raw.len()
        invariant
            i <= raw@.len(),
            v == markdown_views(raw@),
            first_variant(v, slug@, lang) == first_variant(v.subrange(i as int, v.len() as int), slug@, lang),
        decreases raw@.len() - i,
    {
        let ghost rest = v.subrange(i as int, v.len() as int);
        assert(rest[0] == raw@[i as int]@);
        if raw[i].language == lang && str_eq(raw[i].file_slug.as_str(), slug.as_str()) {
            return Some(i);
        }
        assert(rest.drop_first() =~= v.subrange(i as int + 1, v.len() as int));
        i = i + 1;
    }
    None
}

/// If some post matches, the first match exists.
proof fn lemma_first_variant_found(posts: Seq<PostView>, k: int)
    requires
        0 <= k < posts.len(),
    ensures
        first_variant(posts, posts[k].file_slug, posts[k].language) is Some,
    decreases posts.len(),
{
    if k > 0 && !(posts[0].file_slug == posts[k].file_slug && posts[0].language == posts[k].language) {
        assert(posts.drop_first()[k - 1] == posts[k]);
        lemma_first_variant_found(posts.drop_first(), k - 1);
    }
}

/// The post that an English variant and an optional Spanish one make.
fn build_blog_post(en: &MarkdownPost, es: Option<&MarkdownPost>) -> (r: BlogPost)
    ensures
        r@ == blog_post_for(en@, match es {
            Some(e) => Some(e@),
            None => None,
        }),
{
    let es_post = match es {
        Some(e) => e,
        None => en,
    };
    BlogPost {
        slug: en.file_slug.clone(),
        title_en: en.frontmatter.title.clone(),
        title_es: es_post.frontmatter.title.clone(),
        excerpt_en: en.frontmatter.excerpt.clone(),
        excerpt_es: es_post.frontmatter.excerpt.clone(),
        content_en: en.content_html.clone(),
        content_es: es_post.content_html.clone(),
        date: en.frontmatter.date.clone(),
        read_time: en.read_time_minutes,
        tags: clone_strings(&en.frontmatter.tags),
        status: PostStatus::Published,
        featured: en.frontmatter.featured,
    }
}

/// Whether some post of `out` has this slug.
fn has_slug(out: &Vec<BlogPost>, slug: &String) -> (r: bool)
    ensures
        r == exists|j: int| 0 <= j < out@.len() && #[trigger] out@[j].slug@ == slug@,
        r == has_post(blog_views(out@), slug@),
{
    proof {
        let bv = blog_views(out@);
        assert forall|j: int| 0 <= j < out@.len() implies bv[j] == out@[j]@ by {}
    }
    let mut j: usize = 0;
    while j < out.len()
        invariant
            j <= out@.len(),
            forall|k: int| 0 <= k < j ==> out@[k].slug@ != slug@,
        decreases out@.len() - j,
    {
        if str_eq(out[j].slug.as_str(), slug.as_str()) {
            assert(blog_views(out@)[j as int].slug == slug@);
            return true;
        }
        j = j + 1;
    }
    false
}

/// Where a post dated `date` goes in `out`, which is ordered latest first:
/// after every post not earlier than it, before every post not later.
fn date_position(out: &Vec<BlogPost>, date: &String) -> (p: usize)
    requires
        dates_descending(blog_views(out@)),
    ensures
        p <= out@.len(),
        forall|k: int| 0 <= k < p ==> lex_le(date@, #[trigger] out@[k].date@),
        forall|k: int| p <= k < out@.len() ==> lex_le(#[trigger] out@[k].date@, date@),
{
    let mut p: usize = 0;
    while p < out.len() && str_le(date.as_str(), out[p].date.as_str())
        invariant
            p <= out@.len(),
            forall|k: int| 0 <= k < p ==> lex_le(date@, #[trigger] out@[k].date@),
        decreases out@.len() - p,
    {
        p = p + 1;
    }
    if p < out.len() {
        proof {
            lemma_lex_total(date@, out@[p as int].date@);
            assert forall|k: int| p <= k < out@.len() implies lex_le(#[trigger] out@[k].date@, date@) by {
                if k > p {
                    let bv = blog_views(out@);
                    assert(bv[p as int] == out@[p as int]@);
                    assert(bv[k] == out@[k]@);
                    assert(lex_le(bv[k].date, bv[p as int].date));
                    lemma_lex_trans(out@[k].date@, out@[p as int].date@, date@);
                }
            }
        }
    }
    p
}

/// Consolidates per-language posts into one post per file slug that has an
/// English variant, ordered by date, latest first. Groups with only a Spanish
/// variant are dropped; a missing Spanish variant falls back to the English one.
pub fn get_blog_posts(raw: &Vec<MarkdownPost>) -> (r: Vec<BlogPost>)
    ensures
        is_consolidation(markdown_views(raw@), blog_views(r@)),
{
    let ghost v = markdown_views(raw@);
    let mut out: Vec<BlogPost> = Vec::new();
    let mut i: usize = 0;
    while i < raw.len()
        invariant
            i <= raw@.len(),
            v == markdown_views(raw@),
            forall|j: int| 0 <= j < out@.len() ==> well_built(v, #[trigger] blog_views(out@)[j]),
            slugs_distinct(blog_views(out@)),
            dates_descending(blog_views(out@)),
            covers_english(v, blog_views(out@), i as int),
        decreases raw@.len() - i,
    {
        assert(v[i as int] == raw@[i as int]@);
        let ghost before = blog_views(out@);
        if raw[i].language == PostLanguage::EN && !has_slug(&out, &raw[i].file_slug) {
            let slug = &raw[i].file_slug;
            proof {
                lemma_first_variant_found(v, i as int);
            }
            let en_at = find_variant(raw, slug, PostLanguage::EN);
            let es_at = find_variant(raw, slug, PostLanguage::ES);
            let e = match en_at {
                Some(e) => e,
                None => {
                    proof {
                        assert(false);
                    }
                    0
                },
            };
            proof {
                lemma_first_variant_member(v, slug@, PostLanguage::EN);
            }
            let es = match es_at {
                Some(k) => Some(&raw[k]),
                None => None,
            };
            let post = build_blog_post(&raw[e], es);
            let ghost pv = post@;
            assert(pv.slug == slug@);
            assert(well_built(v, pv));
            let p = date_position(&out, &post.date);
            out.insert(p, post);
            let ghost after = blog_views(out@);
            assert(after =~= before.insert(p as int, pv));
            assert forall|j: int| 0 <= j < after.len() implies well_built(v, #[trigger] after[j]) by {
                if j < p {
                    assert(after[j] == before[j]);
                } else if j > p {
                    assert(after[j] == before[j - 1]);
                }
            }
            assert forall|a: int, b: int| 0 <= a < b < after.len() implies after[a].slug != after[b].slug by {
                let oa = if a < p { a } else { a - 1 };
                let ob = if b < p { b } else { b - 1 };
                if a == p {
                    assert(after[b] == before[ob]);
                    assert(before[ob] == out@[b]@);
                    assert(!has_post(before, slug@));
                } else if b == p {
                    assert(after[a] == before[oa]);
                    assert(!has_post(before, slug@));
                } else {
                    assert(after[a] == before[oa]);
                    assert(after[b] == before[ob]);
                }
            }
            assert forall|a: int, b: int| 0 <= a < b < after.len() implies lex_le(after[b].date, after[a].date) by {
                let oa = if a < p { a } else { a - 1 };
                let ob = if b < p { b } else { b - 1 };
                if a == p {
                    assert(after[b] == before[ob]);
                } else if b == p {
                    assert(after[a] == before[oa]);
                } else {
                    assert(after[a] == before[oa]);
                    assert(after[b] == before[ob]);
                }
            }
            assert forall|k: int|
                0 <= k < i + 1 && v[k].language == PostLanguage::EN implies #[trigger] has_post(after, v[k].file_slug) by {
                if k < i {
                    assert(has_post(before, v[k].file_slug));
                    let j0 = choose|j0: int| 0 <= j0 < before.len() && #[trigger] before[j0].slug == v[k].file_slug;
                    if j0 < p {
                        assert(after[j0] == before[j0]);
                    } else {
                        assert(after[j0 + 1] == before[j0]);
                    }
                } else {
                    assert(after[p as int] == pv);
                }
            }
        } else {
            proof {
                assert forall|k: int|
                    0 <= k < i + 1 && v[k].language == PostLanguage::EN implies #[trigger] has_post(before, v[k].file_slug) by {
                    if k == i {
                        let j0 = choose|j0: int| 0 <= j0 < out@.len() && #[trigger] out@[j0].slug@ == raw@[i as int].file_slug@;
                        assert(before[j0] == out@[j0]@);
                    }
                }
            }
        }
        i = i + 1;
    }
    proof {
        let fin = blog_views(out@);
        assert forall|j: int| 0 <= j < fin.len() implies well_built(v, #[trigger] fin[j]) by {}
    }
    out
}

/// The consolidated posts that are published: all of them, since every
/// consolidated post is published.
pub fn get_published_posts(raw: &Vec<MarkdownPost>) -> (r: Vec<BlogPost>)
    ensures
        is_consolidation(markdown_views(raw@), blog_views(r@)),
        forall|i: int| 0 <= i < r@.len() ==> (#[trigger] r@[i]).status == PostStatus::Published,
{
    let all = get_blog_posts(raw);
    let ghost av = blog_views(all@);
    let mut r: Vec<BlogPost> = Vec::new();
    let mut i: usize = 0;
    while i < all.len()
        invariant
            i <= all@.len(),
            av == blog_views(all@),
            is_consolidation(markdown_views(raw@), av),
            blog_views(r@) == av.subrange(0, i as int),
        decreases all@.len() - i,
    {
        assert(av[i as int] == all@[i as int]@);
        assert(well_built(markdown_views(raw@), av[i as int]));
        if all[i].status == PostStatus::Published {
            let ghost before = r@;
            r.push(all[i].clone());
            assert(blog_views(r@) =~= blog_views(before).push(av[i as int]));
        }
        i = i + 1;
        assert(blog_views(r@) =~= av.subrange(0, i as int));
    }
    assert(av.subrange(0, av.len() as int) =~= av);
    proof {
        assert forall|i: int| 0 <= i < r@.len() implies (#[trigger] r@[i]).status == PostStatus::Published by {
            assert(blog_views(r@)[i] == r@[i]@);
            assert(well_built(markdown_views(raw@), av[i]));
        }
    }
    r
}

/// The consolidated post for a file slug: present when the slug has an
/// English variant.
pub open spec fn post_for_slug(posts: Seq<PostView>, slug: Seq<char>) -> Option<BlogPostView> {
    match first_variant(posts, slug, PostLanguage::EN) {
        Some(en) => Some(blog_post_for(en, first_variant(posts, slug, PostLanguage::ES))),
        None => None,
    }
}

/// The consolidated post with this slug, if there is one.
pub fn get_post_by_slug(raw: &Vec<MarkdownPost>, slug: &str) -> (r: Option<BlogPost>)
    ensures
        match r {
            Some(p) => post_for_slug(markdown_views(raw@), slug@) == Some(p@),
            None => post_for_slug(markdown_views(raw@), slug@) is None,
        },
{
    let all = get_blog_posts(raw);
    let ghost v = markdown_views(raw@);
    let ghost av = blog_views(all@);
    let mut i: usize = 0;
    while i < all.len()
        invariant
            i <= all@.len(),
            av == blog_views(all@),
            v == markdown_views(raw@),
            is_consolidation(v, av),
            forall|k: int| 0 <= k < i ==> (#[trigger] av[k]).slug != slug@,
        decreases all@.len() - i,
    {
        assert(av[i as int] == all@[i as int]@);
        if str_eq(all[i].slug.as_str(), slug) {
            let found = all[i].clone();
            assert(av[i as int].slug == slug@);
            assert(found@ == av[i as int]);
            assert(well_built(v, av[i as int]));
            assert(first_variant(v, slug@, PostLanguage::EN) is Some);
            assert(post_for_slug(v, slug@) == Some(av[i as int]));
            return Some(found);
        }
        i = i + 1;
    }
    proof {
        if first_variant(v, slug@, PostLanguage::EN) is Some {
            lemma_first_variant_member(v, slug@, PostLanguage::EN);
            let k = choose|k: int|
                0 <= k < v.len() && #[trigger] v[k] == first_variant(v, slug@, PostLanguage::EN)->0
                    && v[k].file_slug == slug@ && v[k].language == PostLanguage::EN;
            assert(has_post(av, v[k].file_slug));
        }
    }
    None
}

// ---------------------------------------------------------------------------
// Laws of consolidation
// ---------------------------------------------------------------------------

/// English is required: a file slug with no English variant yields no post.
pub proof fn lemma_english_required(posts: Seq<PostView>, out: Seq<BlogPostView>, slug: Seq<char>)
    requires
        is_consolidation(posts, out),
        forall|k: int| 0 <= k < posts.len() ==> !(posts[k].file_slug == slug && posts[k].language == PostLanguage::EN),
    ensures
        forall|i: int| 0 <= i < out.len() ==> (#[trigger] out[i]).slug != slug,
{
    assert forall|i: int| 0 <= i < out.len() implies (#[trigger] out[i]).slug != slug by {
        assert(well_built(posts, out[i]));
        if out[i].slug == slug {
            lemma_first_variant_member(posts, slug, PostLanguage::EN);
        }
    }
}

/// What `first_variant` finds is a post of the sequence that matches.
proof fn lemma_first_variant_member(posts: Seq<PostView>, slug: Seq<char>, lang: PostLanguage)
    requires
        first_variant(posts, slug, lang) is Some,
    ensures
        exists|k: int|
            0 <= k < posts.len() && #[trigger] posts[k] == first_variant(posts, slug, lang)->0 && posts[k].file_slug
                == slug && posts[k].language == lang,
    decreases posts.len(),
{
    if !(posts[0].file_slug == slug && posts[0].language == lang) {
        lemma_first_variant_member(posts.drop_first(), slug, lang);
        let k = choose|k: int|
            0 <= k < posts.drop_first().len() && #[trigger] posts.drop_first()[k] == first_variant(
                posts.drop_first(),
                slug,
                lang,
            )->0 && posts.drop_first()[k].file_slug == slug && posts.drop_first()[k].language == lang;
        assert(posts[k + 1] == posts.drop_first()[k]);
    } else {
        assert(posts[0] == first_variant(posts, slug, lang)->0);
    }
}

/// Spanish falls back to English: a post whose group has no Spanish variant
/// carries the English title as its Spanish title.
pub proof fn lemma_spanish_falls_back(posts: Seq<PostView>, out: Seq<BlogPostView>, i: int)
    requires
        is_consolidation(posts, out),
        0 <= i < out.len(),
        first_variant(posts, out[i].slug, PostLanguage::ES) is None,
    ensures
        out[i].title_es == out[i].title_en,
        out[i].excerpt_es == out[i].excerpt_en,
        out[i].content_es == out[i].content_en,
{
    assert(well_built(posts, out[i]));
}

/// After consolidation no two posts share a slug.
pub proof fn lemma_slugs_unique(posts: Seq<PostView>, out: Seq<BlogPostView>, i: int, j: int)
    requires
        is_consolidation(posts, out),
        0 <= i < out.len(),
        0 <= j < out.len(),
        i != j,
    ensures
        out[i].slug != out[j].slug,
{
    if i < j {
        assert(out[i].slug != out[j].slug);
    } else {
        assert(out[j].slug != out[i].slug);
    }
}

/// Consolidated posts come latest first: an earlier position never holds an
/// earlier date.
pub proof fn lemma_sorted_by_date(posts: Seq<PostView>, out: Seq<BlogPostView>, i: int, j: int)
    requires
        is_consolidation(posts, out),
        0 <= i <= j < out.len(),
    ensures
        lex_le(out[j].date, out[i].date),
{
    if i == j {
        lemma_lex_refl(out[i].date);
    }
}

/// Every string is ordered before or equal to itself.
proof fn lemma_lex_refl(a: Seq<char>)
    ensures
        lex_le(a, a),
    decreases a.len(),
{
    if a.len() > 0 {
        lemma_lex_refl(a.drop_first());
    }
}

} // verus!
