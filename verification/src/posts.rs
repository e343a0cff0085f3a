//! The posts of a blog: which ones are published, and what a mail says about them.
use vstd::prelude::*;
use vstd::slice::slice_subrange;
use vstd::string::*;

use crate::config::ListCfg;
use crate::mail;
use crate::text;
use crate::text::{find_from, first_segment, last_segment, replace, same, to_chars, to_text, trim};

verus! {

// ---------- Reading pages ----------

/// What stands in a page between the first `open` and the first `close` behind it.
pub open spec fn enclosed(page: Seq<char>, open: Seq<char>, close: Seq<char>) -> Option<
    Seq<char>,
> {
    match text::first_at(page, open, 0) {
        None => None,
        Some(i) => match text::first_at(page, close, i + open.len()) {
            None => None,
            Some(j) => Some(page.subrange(i + open.len(), j)),
        },
    }
}

/// What stands in a page between the first `open` and the first `close` behind it.
pub fn between(haystack: &str, open: &str, close: &str) -> (r: Option<String>)
    ensures
        text::opt_view(r) == enclosed(haystack@, open@, close@),
{
    let page: Vec<char> = to_chars(haystack);
    let o: Vec<char> = to_chars(open);
    let c: Vec<char> = to_chars(close);
    proof {
        text::first_at_is_first(page@, o@, 0);
    }
    match find_from(page.as_slice(), o.as_slice(), 0) {
        None => None,
        Some(i) => {
            let start: usize = i + o.len();
            proof {
                text::first_at_is_first(page@, c@, start as int);
            }
            match find_from(page.as_slice(), c.as_slice(), start) {
                None => None,
                Some(j) => Some(to_text(slice_subrange(page.as_slice(), start, j))),
            }
        },
    }
}

/// A text without the five entities, which are undone one after the other.
pub open spec fn unescaped(s: Seq<char>) -> Seq<char> {
    let a = text::replaced(s, "&amp;"@, "&"@);
    let b = text::replaced(a, "&quot;"@, "\""@);
    let c = text::replaced(b, "&#39;"@, "'"@);
    let d = text::replaced(c, "&lt;"@, "<"@);
    text::replaced(d, "&gt;"@, ">"@)
}

/// A text without the five entities, which are undone one after the other.
pub fn unescape(s: &str) -> (r: String)
    ensures
        r@ == unescaped(s@),
{
    proof {
        reveal_strlit("&amp;");
        reveal_strlit("&quot;");
        reveal_strlit("&#39;");
        reveal_strlit("&lt;");
        reveal_strlit("&gt;");
    }
    let a: String = replace(s, "&amp;", "&");
    let b: String = replace(a.as_str(), "&quot;", "\"");
    let c: String = replace(b.as_str(), "&#39;", "'");
    let d: String = replace(c.as_str(), "&lt;", "<");
    replace(d.as_str(), "&gt;", ">")
}

// ---------- Slugs ----------

/// A character that a slug is made of.
pub open spec fn slug_char(c: char) -> bool {
    ||| 'a' <= c <= 'z'
    ||| '0' <= c <= '9'
    ||| c == '-'
}

/// A text that is a slug: at least one character, and only small ASCII letters, digits and `-`.
pub open spec fn is_slug(s: Seq<char>) -> bool {
    s.len() > 0 && forall|i: int| 0 <= i < s.len() ==> slug_char(#[trigger] s[i])
}

/// Whether a text is a slug.
pub fn valid_slug(slug: &str) -> (r: bool)
    ensures
        r == is_slug(slug@),
{
    let c: Vec<char> = to_chars(slug);
    if c.len() == 0 {
        return false;
    }
    let mut i: usize = 0;
    while i < c.len()
        invariant
            i <= c@.len(),
            c@ == slug@,
            forall|j: int| 0 <= j < i ==> slug_char(#[trigger] c@[j]),
        decreases c@.len() - i,
    {
        let ch: char = c[i];
        if !(('a' <= ch && ch <= 'z') || ('0' <= ch && ch <= '9') || ch == '-') {
            assert(!slug_char(slug@[i as int]));
            return false;
        }
        i += 1;
    }
    true
}

/// The path below the blog that a link leads to.
pub open spec fn blog_path(href: Seq<char>) -> Option<Seq<char>> {
    let t = text::trimmed(href);
    if text::starts_with(t, "/blog/"@) {
        Some(t.skip("/blog/"@.len() as int))
    } else if text::starts_with(t, "https://stephens.page/blog/"@) {
        Some(t.skip("https://stephens.page/blog/"@.len() as int))
    } else {
        None
    }
}

/// The slug of the post that a link leads to: the first piece of its path below the blog, where
/// that is a slug.
pub open spec fn linked_slug(href: Seq<char>) -> Option<Seq<char>> {
    match blog_path(href) {
        None => None,
        Some(path) => match text::first_piece(path, '/') {
            Some(piece) if is_slug(piece) => Some(piece),
            _ => None,
        },
    }
}

/// The slug of the post that a link leads to.
pub fn slug_from_href(href: &str) -> (r: Option<String>)
    ensures
        text::opt_view(r) == linked_slug(href@),
{
    let trimmed: String = trim(href);
    let path: String = match text::strip_prefix(trimmed.as_str(), "/blog/") {
        Some(rest) => rest,
        None => match text::strip_prefix(trimmed.as_str(), "https://stephens.page/blog/") {
            Some(rest) => rest,
            None => {
                return None;
            },
        },
    };
    match first_segment(path.as_str(), '/') {
        None => None,
        Some(slug) => if valid_slug(slug.as_str()) {
            Some(slug)
        } else {
            None
        },
    }
}

// ---------- The index of a blog ----------

/// The links in a page from some position on: what stands in each `href="` up to the next `"`.
pub open spec fn links(page: Seq<char>, from: int) -> Seq<Seq<char>>
    decreases page.len() - from,
{
    if from < 0 {
        Seq::empty()
    } else {
        match text::first_at(page, "href=\""@, from) {
            None => Seq::empty(),
            Some(i) => {
                let start = i + "href=\""@.len();
                match text::first_at(page, "\""@, start) {
                    None => Seq::empty(),
                    Some(j) => {
                        proof {
                            text::first_at_is_first(page, "href=\""@, from);
                            text::first_at_is_first(page, "\""@, start);
                            reveal_strlit("\"");
                        }
                        seq![page.subrange(start, j)] + links(page, j + 1)
                    },
                }
            },
        }
    }
}

/// The slugs of the posts that some links lead to.
pub open spec fn linked_slugs(hrefs: Seq<Seq<char>>) -> Seq<Seq<char>>
    decreases hrefs.len(),
{
    if hrefs.len() == 0 {
        Seq::empty()
    } else {
        match linked_slug(hrefs.last()) {
            Some(slug) => linked_slugs(hrefs.drop_last()).push(slug),
            None => linked_slugs(hrefs.drop_last()),
        }
    }
}

/// Each item of a sequence once, where it first stands.
pub open spec fn distinct(s: Seq<Seq<char>>) -> Seq<Seq<char>>
    decreases s.len(),
{
    if s.len() == 0 {
        Seq::empty()
    } else {
        let before = distinct(s.drop_last());
        if before.contains(s.last()) {
            before
        } else {
            before.push(s.last())
        }
    }
}

/// The slugs that the index of a blog links to, each once, in the order in which they first stand
/// there; none where there is no index.
pub open spec fn published(index: Option<Seq<char>>) -> Seq<Seq<char>> {
    match index {
        None => Seq::empty(),
        Some(page) => distinct(linked_slugs(links(page, 0))),
    }
}

/// What some texts say.
pub open spec fn text_views(s: Seq<String>) -> Seq<Seq<char>> {
    s.map_values(|x: String| x@)
}

/// What an optional page says.
pub open spec fn page_view(page: Option<&str>) -> Option<Seq<char>> {
    match page {
        Some(s) => Some(s@),
        None => None,
    }
}

/// Whether a text is among others.
pub fn is_among(items: &Vec<String>, item: &str) -> (r: bool)
    ensures
        r == text_views(items@).contains(item@),
{
    let mut i: usize = 0;
    while i < items.len()
        invariant
            i <= items@.len(),
            forall|j: int| 0 <= j < i ==> (#[trigger] items@[j])@ != item@,
        decreases items@.len() - i,
    {
        if same(items[i].as_str(), item) {
            assert(text_views(items@)[i as int] == item@);
            return true;
        }
        i += 1;
    }
    proof {
        if text_views(items@).contains(item@) {
            let j = choose|j: int|
                0 <= j < text_views(items@).len() && text_views(items@)[j] == item@;
            assert(items@[j]@ == item@);
        }
    }
    false
}

/// What one more link adds to the slugs that were found.
proof fn one_more_link(done: Seq<Seq<char>>, href: Seq<char>)
    ensures
        distinct(linked_slugs(done.push(href))) == match linked_slug(href) {
            Some(slug) => if distinct(linked_slugs(done)).contains(slug) {
                distinct(linked_slugs(done))
            } else {
                distinct(linked_slugs(done)).push(slug)
            },
            None => distinct(linked_slugs(done)),
        },
{
    assert(done.push(href).drop_last() =~= done);
    match linked_slug(href) {
        Some(slug) => {
            assert(linked_slugs(done).push(slug).drop_last() =~= linked_slugs(done));
        },
        None => {},
    }
}

/// The slugs that the index of a blog links to, each once, in the order in which they first stand
/// there.
pub fn published_slugs(index_html: Option<&str>) -> (r: Vec<String>)
    ensures
        text_views(r@) == published(page_view(index_html)),
{
    let mut slugs: Vec<String> = Vec::new();
    assert(text_views(slugs@) =~= Seq::<Seq<char>>::empty());
    let html: &str = match index_html {
        Some(html) => html,
        None => {
            return slugs;
        },
    };
    let page: Vec<char> = to_chars(html);
    let href: Vec<char> = to_chars("href=\"");
    let quote: Vec<char> = to_chars("\"");
    let mut pos: usize = 0;
    let ghost mut done: Seq<Seq<char>> = Seq::empty();
    assert(links(page@, 0) =~= done + links(page@, 0));
    loop
        invariant
            page@ == html@,
            href@ == "href=\""@,
            quote@ == "\""@,
            pos <= page@.len(),
            links(page@, 0) == done + links(page@, pos as int),
            text_views(slugs@) == distinct(linked_slugs(done)),
        ensures
            text_views(slugs@) == distinct(linked_slugs(links(page@, 0))),
        decreases page@.len() - pos,
    {
        proof {
            text::first_at_is_first(page@, href@, pos as int);
        }
        let start: usize = match find_from(page.as_slice(), href.as_slice(), pos) {
            None => {
                assert(links(page@, 0) =~= done);
                break ;
            },
            Some(i) => i + href.len(),
        };
        proof {
            text::first_at_is_first(page@, quote@, start as int);
            reveal_strlit("\"");
        }
        let end: usize = match find_from(page.as_slice(), quote.as_slice(), start) {
            None => {
                assert(links(page@, 0) =~= done);
                break ;
            },
            Some(j) => j,
        };
        let link: String = to_text(slice_subrange(page.as_slice(), start, end));
        proof {
            one_more_link(done, link@);
            assert(done + (seq![link@] + links(page@, end + 1)) =~= done.push(link@) + links(
                page@,
                end + 1,
            ));
            done = done.push(link@);
        }
        if let Some(slug) = slug_from_href(link.as_str()) {
            if !is_among(&slugs, slug.as_str()) {
                let ghost before = slugs@;
                slugs.push(slug);
                assert(text_views(slugs@) =~= text_views(before).push(slug@));
            }
        }
        pos = end + 1;
    }
    slugs
}

// ---------- One post ----------

/// What a mail says about a post.
#[derive(Debug)]
pub struct Post {
    pub slug: String,
    pub title: String,
    pub desc: String,
    pub url: String,
}

/// What a `Post` says.
#[verifier::ext_equal]
pub ghost struct PostView {
    pub slug: Seq<char>,
    pub title: Seq<char>,
    pub desc: Seq<char>,
    pub url: Seq<char>,
}

impl View for Post {
    type V = PostView;

    open spec fn view(&self) -> PostView {
        PostView { slug: self.slug@, title: self.title@, desc: self.desc@, url: self.url@ }
    }
}

/// Why a post cannot be sent.
#[derive(Debug)]
pub enum PostError {
    /// The name is no slug.
    InvalidSlug(String),
    /// The index of the blog does not link to it.
    NotPublished(String),
    /// Its page cannot be read.
    Unreadable { file: String, cause: String },
}

/// What a `PostError` says.
#[verifier::ext_equal]
pub ghost enum PostErrorView {
    InvalidSlug(Seq<char>),
    NotPublished(Seq<char>),
    Unreadable { file: Seq<char>, cause: Seq<char> },
}

impl View for PostError {
    type V = PostErrorView;

    open spec fn view(&self) -> PostErrorView {
        match self {
            PostError::InvalidSlug(s) => PostErrorView::InvalidSlug(s@),
            PostError::NotPublished(s) => PostErrorView::NotPublished(s@),
            PostError::Unreadable { file, cause } => PostErrorView::Unreadable {
                file: file@,
                cause: cause@,
            },
        }
    }
}

/// A `PostError` in words.
pub open spec fn post_error_text(e: PostErrorView) -> Seq<char> {
    match e {
        PostErrorView::InvalidSlug(s) => "invalid slug: "@ + s,
        PostErrorView::NotPublished(s) => "post is not published: "@ + s,
        PostErrorView::Unreadable { file, cause } => "cannot read post "@ + file + ": "@ + cause,
    }
}

impl PostError {
    /// The error in words.
    pub fn message(&self) -> (r: String)
        ensures
            r@ == post_error_text(self@),
    {
        match self {
            PostError::InvalidSlug(s) => "invalid slug: ".to_owned().concat(s.as_str()),
            PostError::NotPublished(s) => "post is not published: ".to_owned().concat(s.as_str()),
            PostError::Unreadable { file, cause } => "cannot read post ".to_owned().concat(
                file.as_str(),
            ).concat(": ").concat(cause.as_str()),
        }
    }
}

/// The slug that a name or a path stands for: its last piece, without the white space around it.
pub open spec fn named_slug(name: Seq<char>) -> Seq<char> {
    text::trimmed(
        match text::last_piece(name, '/') {
            Some(piece) => piece,
            None => name,
        },
    )
}

/// The slug that a name or a path stands for.
fn slug_of(name: &str) -> (r: String)
    ensures
        r@ == named_slug(name@),
{
    match last_segment(name, '/') {
        Some(piece) => trim(piece.as_str()),
        None => trim(name),
    }
}

/// The file with the index of a blog.
pub open spec fn index_path(blog_dir: Seq<char>) -> Seq<char> {
    blog_dir + "/index.html"@
}

/// The file with the index of a blog.
pub fn index_file(lc: &ListCfg) -> (r: String)
    ensures
        r@ == index_path(lc.blog_dir@),
{
    lc.blog_dir.clone().concat("/index.html")
}

/// The file with the page of a post.
pub open spec fn post_path(blog_dir: Seq<char>, slug: Seq<char>) -> Seq<char> {
    blog_dir + "/"@ + slug + "/index.html"@
}

/// The file with the page of a post that a list of posts names.
pub fn listed_post_file(lc: &ListCfg, slug: &str) -> (r: String)
    ensures
        r@ == post_path(lc.blog_dir@, slug@),
{
    lc.blog_dir.clone().concat("/").concat(slug).concat("/index.html")
}

/// The address of a post.
pub open spec fn post_address(blog_url: Seq<char>, slug: Seq<char>) -> Seq<char> {
    text::without_trailing(blog_url, '/') + "/"@ + slug + "/"@
}

/// The title of a post: that of its page, without the name of the blog behind it, or the slug
/// where nothing is left.
pub open spec fn title_of(page: Seq<char>, slug: Seq<char>) -> Seq<char> {
    match enclosed(page, "<title>"@, "</title>"@) {
        None => slug,
        Some(t) => {
            let title = text::trimmed(
                text::without_suffixes(unescaped(text::trimmed(t)), "| Jacob Stephens"@),
            );
            if title.len() == 0 {
                slug
            } else {
                title
            }
        },
    }
}

/// The title of a post.
fn page_title(page: &str, slug: &str) -> (r: String)
    ensures
        r@ == title_of(page@, slug@),
{
    match between(page, "<title>", "</title>") {
        None => slug.to_owned(),
        Some(t) => {
            let plain: String = unescape(trim(t.as_str()).as_str());
            let title: String = trim(
                text::trim_end_text(plain.as_str(), "| Jacob Stephens").as_str(),
            );
            if title.as_str().is_empty() {
                slug.to_owned()
            } else {
                title
            }
        },
    }
}

/// The description of a post: that of its page, or nothing.
pub open spec fn description_of(page: Seq<char>) -> Seq<char> {
    match enclosed(page, "<meta name=\"description\" content=\""@, "\""@) {
        None => Seq::empty(),
        Some(d) => unescaped(text::trimmed(d)),
    }
}

/// What a page says about a post.
pub open spec fn post_in(blog_url: Seq<char>, slug: Seq<char>, page: Seq<char>) -> PostView {
    PostView {
        slug,
        title: title_of(page, slug),
        desc: description_of(page),
        url: post_address(blog_url, slug),
    }
}

/// Why the post of some name cannot be looked for.
pub open spec fn lookup_error(name: Seq<char>, index: Option<Seq<char>>) -> Option<
    PostErrorView,
> {
    let slug = named_slug(name);
    if !is_slug(slug) {
        Some(PostErrorView::InvalidSlug(slug))
    } else if !published(index).contains(slug) {
        Some(PostErrorView::NotPublished(slug))
    } else {
        None
    }
}

/// The slug of a post by name, where the index of the blog links to it.
fn lookup(name: &str, index_html: Option<&str>) -> (r: Result<String, PostError>)
    ensures
        match r {
            Ok(slug) => slug@ == named_slug(name@) && lookup_error(name@, page_view(index_html))
                is None,
            Err(e) => lookup_error(name@, page_view(index_html)) == Some(e@),
        },
{
    let slug: String = slug_of(name);
    if !valid_slug(slug.as_str()) {
        return Err(PostError::InvalidSlug(slug));
    }
    if !is_among(&published_slugs(index_html), slug.as_str()) {
        return Err(PostError::NotPublished(slug));
    }
    Ok(slug)
}

/// The file to read for a post, given the index of the blog.
pub fn post_file(lc: &ListCfg, name: &str, index_html: Option<&str>) -> (r: Result<
    String,
    PostError,
>)
    ensures
        match r {
            Ok(file) => file@ == post_path(lc.blog_dir@, named_slug(name@)) && lookup_error(
                name@,
                page_view(index_html),
            ) is None,
            Err(e) => lookup_error(name@, page_view(index_html)) == Some(e@),
        },
{
    match lookup(name, index_html) {
        Ok(slug) => Ok(listed_post_file(lc, slug.as_str())),
        Err(e) => Err(e),
    }
}

/// A published post, given the index of the blog and the page of the post, or why that page could
/// not be read.
pub fn read_post(
    lc: &ListCfg,
    name: &str,
    index_html: Option<&str>,
    page: Result<&str, &str>,
) -> (r: Result<Post, PostError>)
    ensures
        match r {
            Ok(post) => {
                &&& lookup_error(name@, page_view(index_html)) is None
                &&& page matches Ok(p) && post@ == post_in(lc.blog_url@, named_slug(name@), p@)
            },
            Err(e) => match lookup_error(name@, page_view(index_html)) {
                Some(err) => e@ == err,
                None => page matches Err(cause) && e@ == (PostErrorView::Unreadable {
                    file: post_path(lc.blog_dir@, named_slug(name@)),
                    cause: cause@,
                }),
            },
        },
{
    let slug: String = match lookup(name, index_html) {
        Ok(slug) => slug,
        Err(e) => {
            return Err(e);
        },
    };
    match page {
        Err(cause) => Err(
            PostError::Unreadable {
                file: listed_post_file(lc, slug.as_str()),
                cause: cause.to_owned(),
            },
        ),
        Ok(html) => {
            let title: String = page_title(html, slug.as_str());
            let desc: String = match between(
                html,
                "<meta name=\"description\" content=\"",
                "\"",
            ) {
                Some(d) => unescape(trim(d.as_str()).as_str()),
                None => String::new(),
            };
            let url: String = text::trim_end_char(lc.blog_url.as_str(), '/').concat("/").concat(
                slug.as_str(),
            ).concat("/");
            Ok(Post { slug, title, desc, url })
        },
    }
}

/// What the index of a blog publishes are slugs, each once.
pub proof fn published_are_slugs(index: Option<Seq<char>>)
    ensures
        published(index).no_duplicates(),
        forall|i: int|
            0 <= i < published(index).len() ==> is_slug(#[trigger] published(index)[i]),
{
    if let Some(page) = index {
        linked_are_slugs(links(page, 0));
        distinct_is_distinct(linked_slugs(links(page, 0)));
        assert forall|i: int| 0 <= i < published(index).len() implies is_slug(
            #[trigger] published(index)[i],
        ) by {
            let all = linked_slugs(links(page, 0));
            assert(all.contains(distinct(all)[i]));
            assert(is_slug(all[all.index_of(distinct(all)[i])]));
        }
    }
}

/// What some links lead to are slugs.
proof fn linked_are_slugs(hrefs: Seq<Seq<char>>)
    ensures
        forall|i: int|
            0 <= i < linked_slugs(hrefs).len() ==> is_slug(#[trigger] linked_slugs(hrefs)[i]),
    decreases hrefs.len(),
{
    if hrefs.len() > 0 {
        let before = linked_slugs(hrefs.drop_last());
        linked_are_slugs(hrefs.drop_last());
        assert forall|i: int| 0 <= i < linked_slugs(hrefs).len() implies is_slug(
            #[trigger] linked_slugs(hrefs)[i],
        ) by {
            if i < before.len() {
                assert(linked_slugs(hrefs)[i] == before[i]);
            }
        }
    }
}

/// `distinct` holds each item once, and nothing else.
proof fn distinct_is_distinct(s: Seq<Seq<char>>)
    ensures
        distinct(s).no_duplicates(),
        forall|i: int| 0 <= i < distinct(s).len() ==> s.contains(#[trigger] distinct(s)[i]),
    decreases s.len(),
{
    if s.len() > 0 {
        let front = s.drop_last();
        distinct_is_distinct(front);
        assert forall|i: int| 0 <= i < distinct(s).len() implies s.contains(
            #[trigger] distinct(s)[i],
        ) by {
            if i < distinct(front).len() {
                assert(distinct(s)[i] == distinct(front)[i]);
                let k = front.index_of(distinct(front)[i]);
                assert(s[k] == distinct(s)[i]);
            } else {
                assert(s[s.len() - 1] == distinct(s)[i]);
            }
        }
    }
}

/// A slug holds neither a `/` nor a `.`: the page of a post lies in a directory directly below that
/// of the blog, whatever the request was.
pub proof fn slugs_stay_below_the_blog(slug: Seq<char>)
    requires
        is_slug(slug),
    ensures
        !slug.contains('/'),
        !slug.contains('.'),
{
    assert forall|i: int| 0 <= i < slug.len() implies slug[i] != '/' && slug[i] != '.' by {
        assert(slug_char(slug[i]));
    }
}

/// Every post that the index of a blog publishes is found by its slug.
pub proof fn published_posts_are_found(index: Option<Seq<char>>, i: int)
    requires
        0 <= i < published(index).len(),
    ensures
        named_slug(published(index)[i]) == published(index)[i],
        lookup_error(published(index)[i], index) is None,
{
    let slug = published(index)[i];
    published_are_slugs(index);
    slugs_stay_below_the_blog(slug);
    assert(slug_char(slug[0]));
    assert(slug_char(slug[slug.len() - 1]));
    assert(!text::white(slug[0]));
    assert(!text::white(slug[slug.len() - 1]));
    assert(slug.last() == slug[slug.len() - 1]);
    assert(text::without_trailing(slug, '/') == slug);
    slug.index_of_last_ensures('/');
    assert(text::last_piece(slug, '/') == Some(slug));
    assert(text::trimmed(slug) == slug);
}

// ---------- The posts of a blog ----------

/// The title at place `a` comes before that at place `b`: in the order of their characters, and
/// where they are the same, in the order of their places.
pub open spec fn title_first(titles: Seq<Seq<char>>, a: int, b: int) -> bool {
    text::less(titles[a], titles[b]) || (titles[a] == titles[b] && a < b)
}

/// `order` holds the places of all titles, in the order of the titles.
pub open spec fn by_title(titles: Seq<Seq<char>>, order: Seq<int>) -> bool {
    &&& order.len() == titles.len()
    &&& forall|k: int| 0 <= k < order.len() ==> 0 <= #[trigger] order[k] < titles.len()
    &&& forall|k: int, m: int|
        0 <= k < m < order.len() ==> title_first(titles, #[trigger] order[k], #[trigger] order[m])
}

/// The title of a post in a list of posts: that of its page, or the slug where there is no page.
pub open spec fn listed_title(entry: (String, Option<String>)) -> Seq<char> {
    match entry.1 {
        Some(page) => title_of(page@, entry.0@),
        None => entry.0@,
    }
}

/// The titles in a list of posts.
pub open spec fn listed_titles(pages: Seq<(String, Option<String>)>) -> Seq<Seq<char>> {
    pages.map_values(|e: (String, Option<String>)| listed_title(e))
}

/// `out` lists the slug and the title of each post, sorted by title.
pub open spec fn posts_listed(
    pages: Seq<(String, Option<String>)>,
    out: Seq<(String, String)>,
) -> bool {
    exists|order: Seq<int>| #[trigger]
        by_title(listed_titles(pages), order) && out.len() == order.len() && forall|k: int|
            0 <= k < out.len() ==> (#[trigger] out[k]).0@ == pages[order[k]].0@ && out[k].1@
                == listed_title(pages[order[k]])
}

/// A new place is put where it belongs among others that are in order.
proof fn place_inserted(titles: Seq<Seq<char>>, order: Seq<int>, n: int, p: int)
    requires
        0 <= n < titles.len(),
        0 <= p <= order.len(),
        forall|k: int| 0 <= k < order.len() ==> 0 <= #[trigger] order[k] < n,
        forall|k: int, m: int|
            0 <= k < m < order.len() ==> title_first(
                titles,
                #[trigger] order[k],
                #[trigger] order[m],
            ),
        p > 0 ==> !text::less(titles[n], titles[order[p - 1]]),
        p < order.len() ==> text::less(titles[n], titles[order[p]]),
    ensures
        forall|k: int, m: int|
            0 <= k < m < order.len() + 1 ==> title_first(
                titles,
                #[trigger] order.insert(p, n)[k],
                #[trigger] order.insert(p, n)[m],
            ),
{
    let new = order.insert(p, n);
    assert forall|k: int| 0 <= k < p implies title_first(titles, #[trigger] order[k], n) by {
        let a = titles[order[k]];
        let b = titles[order[p - 1]];
        text::less_is_total(titles[n], b);
        if k < p - 1 {
            assert(title_first(titles, order[k], order[p - 1]));
            if text::less(a, b) && text::less(b, titles[n]) {
                text::less_is_transitive(a, b, titles[n]);
            }
        }
    }
    assert forall|m: int| p <= m < order.len() implies title_first(titles, n, #[trigger] order[m]) by {
        let a = titles[order[p]];
        let b = titles[order[m]];
        if p < m {
            assert(title_first(titles, order[p], order[m]));
            if text::less(a, b) {
                text::less_is_transitive(titles[n], a, b);
            }
        }
    }
    assert forall|k: int, m: int| 0 <= k < m < order.len() + 1 implies title_first(
        titles,
        #[trigger] new[k],
        #[trigger] new[m],
    ) by {
        let k0 = if k < p {
            k
        } else {
            k - 1
        };
        let m0 = if m < p {
            m
        } else {
            m - 1
        };
        if k == p {
            assert(new[m] == order[m - 1]);
        } else if m == p {
            assert(new[k] == order[k]);
        } else {
            assert(new[k] == order[k0] && new[m] == order[m0]);
        }
    }
}

/// The posts that are available to send, given each slug that the index links to with the page of
/// its post as far as that could be read: slug and title, sorted by title.
pub fn list_posts(pages: &Vec<(String, Option<String>)>) -> (r: Vec<(String, String)>)
    ensures
        posts_listed(pages@, r@),
{
    let ghost all = listed_titles(pages@);
    let mut titles: Vec<String> = Vec::new();
    let mut order: Vec<usize> = Vec::new();
    let ghost mut places: Seq<int> = Seq::empty();
    let mut n: usize = 0;
    while n < pages.len()
        invariant
            n <= pages@.len(),
            all == listed_titles(pages@),
            titles@.len() == n,
            forall|k: int| 0 <= k < n ==> (#[trigger] titles@[k])@ == all[k],
            order@.len() == n,
            places.len() == n,
            forall|k: int|
                0 <= k < n ==> 0 <= #[trigger] places[k] < n && places[k] == order@[k],
            forall|k: int, m: int|
                0 <= k < m < n ==> title_first(all, #[trigger] places[k], #[trigger] places[m]),
        decreases pages@.len() - n,
    {
        let title: String = match &pages[n].1 {
            Some(page) => page_title(page.as_str(), pages[n].0.as_str()),
            None => pages[n].0.clone(),
        };
        assert(title@ == all[n as int]);
        let mut p: usize = n;
        loop
            invariant
                p <= n,
                n < pages@.len(),
                all == listed_titles(pages@),
                title@ == all[n as int],
                titles@.len() == n,
                forall|k: int| 0 <= k < n ==> (#[trigger] titles@[k])@ == all[k],
                order@.len() == n,
                places.len() == n,
                forall|k: int|
                    0 <= k < n ==> 0 <= #[trigger] places[k] < n && places[k] == order@[k],
                p < n ==> text::less(all[n as int], all[places[p as int]]),
            ensures
                p <= n,
                p < n ==> text::less(all[n as int], all[places[p as int]]),
                p > 0 ==> !text::less(all[n as int], all[places[p - 1]]),
            decreases p,
        {
            if p == 0 {
                break ;
            }
            assert(places[p - 1] == order@[p - 1]);
            if !text::is_less(title.as_str(), titles[order[p - 1]].as_str()) {
                break ;
            }
            p -= 1;
        }
        proof {
            place_inserted(all, places, n as int, p as int);
            places = places.insert(p as int, n as int);
        }
        order.insert(p, n);
        titles.push(title);
        n += 1;
    }
    let mut out: Vec<(String, String)> = Vec::new();
    let mut k: usize = 0;
    while k < order.len()
        invariant
            k <= order@.len(),
            order@.len() == pages@.len(),
            titles@.len() == pages@.len(),
            all == listed_titles(pages@),
            places.len() == pages@.len(),
            forall|k: int|
                0 <= k < places.len() ==> 0 <= #[trigger] places[k] < pages@.len() && places[k]
                    == order@[k],
            forall|k: int| 0 <= k < titles@.len() ==> (#[trigger] titles@[k])@ == all[k],
            out@.len() == k,
            forall|m: int|
                0 <= m < k ==> (#[trigger] out@[m]).0@ == pages@[places[m]].0@ && out@[m].1@
                    == listed_title(pages@[places[m]]),
        decreases order@.len() - k,
    {
        assert(places[k as int] == order@[k as int]);
        let i: usize = order[k];
        out.push((pages[i].0.clone(), titles[i].clone()));
        k += 1;
    }
    assert(by_title(listed_titles(pages@), places));
    out
}

// ---------- The draft of a mail ----------

pub const SEED_1: &'static str = "<p style=\"color:#625a52;font-size:14px;margin:0 0 16px;\">New post</p><h1 style=\"font-size:22px;line-height:1.25;margin:0 0 12px;\">";

pub const SEED_2: &'static str = "</h1><p>";

pub const SEED_3: &'static str = "</p><p style=\"margin:24px 0;\"><a href=\"";

pub const SEED_4: &'static str = "\">Read the post</a></p>";

/// The draft of a mail about a post.
pub open spec fn draft(title: Seq<char>, desc: Seq<char>, post_url: Seq<char>) -> Seq<char> {
    SEED_1@ + mail::escaped(title) + SEED_2@ + mail::escaped(desc) + SEED_3@ + mail::escaped(
        post_url,
    ) + SEED_4@
}

/// The draft of a mail about a post.
pub fn seed_body(title: &str, desc: &str, post_url: &str) -> (r: String)
    ensures
        r@ == draft(title@, desc@, post_url@),
{
    let mut s: String = SEED_1.to_owned();
    s.append(mail::esc(title).as_str());
    s.append(SEED_2);
    s.append(mail::esc(desc).as_str());
    s.append(SEED_3);
    s.append(mail::esc(post_url).as_str());
    s.append(SEED_4);
    s
}

} // verus!
