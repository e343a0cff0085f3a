//! What is read from the pages of a blog, said over the text of the pages.
use vstd::prelude::*;

use crate::posts;
use crate::text;
use crate::text_laws;

verus! {

// ---------- What stands between two marks ----------

/// What stands between the first `open` and the next `close` is found, whole.
pub proof fn enclosed_is_found(
    front: Seq<char>,
    open: Seq<char>,
    inner: Seq<char>,
    close: Seq<char>,
    rest: Seq<char>,
)
    requires
        ({
            let page = front + open + inner + close + rest;
            let start = front.len() + open.len();
            &&& forall|i: int| 0 <= i < front.len() ==> !#[trigger] text::occurs_at(page, open, i)
            &&& forall|i: int|
                start <= i < start + inner.len() ==> !#[trigger] text::occurs_at(page, close, i)
        }),
    ensures
        posts::enclosed(front + open + inner + close + rest, open, close) == Some(inner),
{
    let page = front + open + inner + close + rest;
    let n = front.len() as int;
    let start = n + open.len();
    let end = start + inner.len();
    assert(page.subrange(n, n + open.len()) =~= open);
    assert(text::occurs_at(page, open, n));
    assert(page.subrange(end, end + close.len()) =~= close);
    assert(text::occurs_at(page, close, end));
    text::first_at_is_first(page, open, 0);
    text::first_at_is_first(page, close, start);
    assert(page.subrange(start, end) =~= inner);
}

/// Nothing is found where `open` stands nowhere, or no `close` behind the first.
pub proof fn nothing_is_enclosed(page: Seq<char>, open: Seq<char>, close: Seq<char>, n: int)
    requires
        ({
            ||| text_laws::absent(page, open)
            ||| {
                &&& text::occurs_at(page, open, n)
                &&& forall|i: int| 0 <= i < n ==> !#[trigger] text::occurs_at(page, open, i)
                &&& forall|i: int|
                    n + open.len() <= i ==> !#[trigger] text::occurs_at(page, close, i)
            }
        }),
    ensures
        posts::enclosed(page, open, close) is None,
{
    text::first_at_is_first(page, open, 0);
    match text::first_at(page, open, 0) {
        Some(i) => {
            text::first_at_is_first(page, close, i + open.len());
        },
        None => {},
    }
}

// ---------- The description ----------

/// A quote.
pub open spec fn quote() -> Seq<char> {
    seq!['"']
}

/// A text that holds no quote has none of its places taken by one.
proof fn no_quote_inside(front: Seq<char>, d: Seq<char>, rest: Seq<char>)
    requires
        text_laws::free_of(d, '"'),
    ensures
        forall|i: int|
            front.len() <= i < front.len() + d.len() ==> !#[trigger] text::occurs_at(
                front + d + rest,
                quote(),
                i,
            ),
{
    let page = front + d + rest;
    assert forall|i: int| front.len() <= i < front.len() + d.len() implies !#[trigger] text::occurs_at(
        page,
        quote(),
        i,
    ) by {
        text_laws::standing_at_a_place(page, quote(), i);
        if text::occurs_at(page, quote(), i) {
            assert(page[i + 0] == quote()[0]);
            assert(page[i] == d[i - front.len()]);
        }
    }
}

/// The description of a post is what stands in its page between the opening mark and the next quote,
/// all of it, but for white space at the ends and entities.
pub proof fn the_description_is_whole(front: Seq<char>, d: Seq<char>, rest: Seq<char>)
    requires
        text_laws::free_of(d, '"'),
        ({
            let open = "<meta name=\"description\" content=\""@;
            let page = front + open + d + quote() + rest;
            forall|i: int| 0 <= i < front.len() ==> !#[trigger] text::occurs_at(page, open, i)
        }),
    ensures
        posts::description_of(
            front + "<meta name=\"description\" content=\""@ + d + quote() + rest,
        ) == posts::unescaped(text::trimmed(d)),
{
    let open = "<meta name=\"description\" content=\""@;
    let page = front + open + d + quote() + rest;
    reveal_strlit("\"");
    assert("\""@ =~= quote());
    no_quote_inside(front + open, d, quote() + rest);
    assert((front + open) + d + (quote() + rest) =~= page);
    enclosed_is_found(front, open, d, quote(), rest);
}

/// A text in which none of the five entities stands.
pub open spec fn without_entity(s: Seq<char>) -> bool {
    &&& text_laws::absent(s, "&amp;"@)
    &&& text_laws::absent(s, "&quot;"@)
    &&& text_laws::absent(s, "&#39;"@)
    &&& text_laws::absent(s, "&lt;"@)
    &&& text_laws::absent(s, "&gt;"@)
}

/// Such a text is not changed by taking the entities out.
pub proof fn nothing_to_unescape(s: Seq<char>)
    requires
        without_entity(s),
    ensures
        posts::unescaped(s) == s,
{
    text_laws::nothing_to_replace(s, "&amp;"@, "&"@);
    text_laws::nothing_to_replace(s, "&quot;"@, "\""@);
    text_laws::nothing_to_replace(s, "&#39;"@, "'"@);
    text_laws::nothing_to_replace(s, "&lt;"@, "<"@);
    text_laws::nothing_to_replace(s, "&gt;"@, ">"@);
}

/// A description without quotes, entities and white space at its ends is the description of the post,
/// letter for letter.
pub proof fn a_plain_description_stays(front: Seq<char>, d: Seq<char>, rest: Seq<char>)
    requires
        text_laws::free_of(d, '"'),
        text_laws::tight(d),
        without_entity(d),
        ({
            let open = "<meta name=\"description\" content=\""@;
            let page = front + open + d + quote() + rest;
            forall|i: int| 0 <= i < front.len() ==> !#[trigger] text::occurs_at(page, open, i)
        }),
    ensures
        posts::description_of(
            front + "<meta name=\"description\" content=\""@ + d + quote() + rest,
        ) == d,
{
    the_description_is_whole(front, d, rest);
    text_laws::tight_stays(d);
    nothing_to_unescape(d);
}

/// A page without the mark for a description gives an empty one.
pub proof fn no_mark_no_description(page: Seq<char>)
    requires
        text_laws::absent(page, "<meta name=\"description\" content=\""@),
    ensures
        posts::description_of(page).len() == 0,
{
    nothing_is_enclosed(page, "<meta name=\"description\" content=\""@, "\""@, 0);
}

// ---------- The title ----------

/// The page holds a title `t`: it stands between the first mark for a title and the next closing one.
pub open spec fn holds_title(page: Seq<char>, front: Seq<char>, t: Seq<char>, rest: Seq<char>) -> bool {
    let start = front.len() + "<title>"@.len();
    &&& page == front + "<title>"@ + t + "</title>"@ + rest
    &&& forall|i: int| 0 <= i < front.len() ==> !#[trigger] text::occurs_at(page, "<title>"@, i)
    &&& forall|i: int|
        start <= i < start + t.len() ==> !#[trigger] text::occurs_at(page, "</title>"@, i)
}

/// A title in front of the name of the blog is the title of the post, all of it, but for white space
/// at the ends and entities.
pub proof fn the_title_is_whole(
    page: Seq<char>,
    front: Seq<char>,
    t: Seq<char>,
    rest: Seq<char>,
    title: Seq<char>,
    slug: Seq<char>,
)
    requires
        holds_title(page, front, t, rest),
        ({
            let plain = posts::unescaped(text::trimmed(t));
            ||| plain == title
            ||| plain == title + "| Jacob Stephens"@
        }),
        !text::ends_with(title, "| Jacob Stephens"@),
    ensures
        posts::title_of(page, slug) == if text::trimmed(title).len() > 0 {
            text::trimmed(title)
        } else {
            slug
        },
{
    enclosed_is_found(front, "<title>"@, t, "</title>"@, rest);
    reveal_strlit("| Jacob Stephens");
    text_laws::suffixes_are_gone(title, "| Jacob Stephens"@);
}

/// A title without entities and white space at its ends, which does not end with the name of the
/// blog, is the title of the post, letter for letter; also where the name of the blog stands behind
/// it.
pub proof fn a_plain_title_stays(
    page: Seq<char>,
    front: Seq<char>,
    title: Seq<char>,
    rest: Seq<char>,
    slug: Seq<char>,
    named: bool,
)
    requires
        ({
            let t = if named {
                title + " | Jacob Stephens"@
            } else {
                title
            };
            &&& holds_title(page, front, t, rest)
            &&& without_entity(t)
        }),
        title.len() > 0,
        text_laws::tight(title),
        !text::ends_with(title, "| Jacob Stephens"@),
    ensures
        posts::title_of(page, slug) == title,
{
    reveal_strlit("| Jacob Stephens");
    reveal_strlit(" | Jacob Stephens");
    text_laws::tight_stays(title);
    if named {
        let t = title + " | Jacob Stephens"@;
        let x = title + seq![' '];
        assert(" | Jacob Stephens"@ =~= seq![' '] + "| Jacob Stephens"@);
        assert(t =~= x + "| Jacob Stephens"@);
        assert(t.last() == 's');
        text_laws::tight_stays(t);
        nothing_to_unescape(t);
        assert(!text::ends_with(x, "| Jacob Stephens"@)) by {
            text_laws::standing_at_a_place(x, "| Jacob Stephens"@, x.len() - 16);
            if text::ends_with(x, "| Jacob Stephens"@) {
                assert(x[x.len() - 16 + 15] == "| Jacob Stephens"@[15]);
                assert(x[x.len() - 1] == ' ');
            }
        }
        the_title_is_whole(page, front, t, rest, x, slug);
        assert(text_laws::blank(seq![' ']));
        text_laws::trimming_takes_white_space_only(Seq::empty(), title, seq![' ']);
        assert(Seq::<char>::empty() + title + seq![' '] =~= x);
    } else {
        text_laws::tight_stays(title);
        nothing_to_unescape(title);
        the_title_is_whole(page, front, title, rest, title, slug);
    }
}

/// A page without a mark for a title gives the slug.
pub proof fn no_mark_no_title(page: Seq<char>, slug: Seq<char>)
    requires
        text_laws::absent(page, "<title>"@),
    ensures
        posts::title_of(page, slug) == slug,
{
    nothing_is_enclosed(page, "<title>"@, "</title>"@, 0);
}

/// What is read of a post are its slug, the title and the description in its page, and its address
/// below the blog, each in its place.
pub proof fn a_post_is_read_field_by_field(
    home: Seq<char>,
    slashes: Seq<char>,
    slug: Seq<char>,
    page: Seq<char>,
)
    requires
        home.len() == 0 || home.last() != '/',
        text_laws::only(slashes, '/'),
    ensures
        ({
            let p = posts::post_in(home + slashes, slug, page);
            &&& p.slug == slug
            &&& p.title == posts::title_of(page, slug)
            &&& p.desc == posts::description_of(page)
            &&& p.url == home + seq!['/'] + slug + seq!['/']
        }),
{
    reveal_strlit("/");
    assert("/"@ =~= seq!['/']);
    text_laws::trailing_do_not_matter(home, slashes, '/');
}

/// The page of a post lies in the directory of the blog, in the one that the slug names.
pub proof fn pages_lie_where_slugs_say(dir: Seq<char>, slug: Seq<char>)
    ensures
        posts::index_path(dir) == dir + "/index.html"@,
        posts::post_path(dir, slug) == posts::index_path(dir + seq!['/'] + slug),
{
    reveal_strlit("/");
    assert("/"@ =~= seq!['/']);
}

// ---------- Slugs ----------

/// A slug is one or more of the small letters, the digits and the hyphen, and every such text is one.
pub proof fn what_a_slug_is(s: Seq<char>)
    ensures
        posts::is_slug(s) <==> s.len() > 0 && forall|i: int|
            0 <= i < s.len() ==> {
                ||| 'a' <= #[trigger] s[i] <= 'z'
                ||| '0' <= s[i] <= '9'
                ||| s[i] == '-'
            },
{
    if posts::is_slug(s) {
        assert forall|i: int| 0 <= i < s.len() implies {
            ||| 'a' <= #[trigger] s[i] <= 'z'
            ||| '0' <= s[i] <= '9'
            ||| s[i] == '-'
        } by {
            assert(posts::slug_char(s[i]));
        }
    } else if s.len() > 0 {
        let i = choose|i: int| 0 <= i < s.len() && !posts::slug_char(#[trigger] s[i]);
        assert(!posts::slug_char(s[i]));
    }
}

/// A link into the blog leads to the post that it names, whatever comes behind the slug; both ways to
/// write such a link count.
pub proof fn links_lead_to_posts(
    a: Seq<char>,
    far: bool,
    slashes: Seq<char>,
    slug: Seq<char>,
    tail: Seq<char>,
    b: Seq<char>,
)
    requires
        text_laws::blank(a),
        text_laws::blank(b),
        text_laws::only(slashes, '/'),
        posts::is_slug(slug),
        tail.len() == 0 || tail[0] == '/',
        text_laws::tight(tail),
    ensures
        ({
            let home = if far {
                "https://stephens.page/blog/"@
            } else {
                "/blog/"@
            };
            posts::linked_slug(a + (home + slashes + slug + tail) + b) == Some(slug)
        }),
{
    let home = if far {
        "https://stephens.page/blog/"@
    } else {
        "/blog/"@
    };
    let path = slashes + slug + tail;
    let t = home + path;
    reveal_strlit("https://stephens.page/blog/");
    reveal_strlit("/blog/");
    posts::slugs_stay_below_the_blog(slug);
    assert(posts::slug_char(slug[slug.len() - 1]));
    assert(t =~= home + slashes + slug + tail);
    assert(t[0] == home[0]);
    assert(text_laws::tight(t)) by {
        if tail.len() > 0 {
            assert(t.last() == tail.last());
        } else {
            assert(t.last() == slug[slug.len() - 1]);
        }
    }
    text_laws::trimming_takes_white_space_only(a, t, b);
    text_laws::joined_texts(home, path);
    if far {
        text_laws::standing_at_a_place(t, "/blog/"@, 0);
        if text::starts_with(t, "/blog/"@) {
            assert(t[0int + 0] == "/blog/"@[0]);
        }
    }
    assert(text_laws::free_of(slug, '/')) by {
        assert forall|i: int| 0 <= i < slug.len() implies #[trigger] slug[i] != '/' by {
            assert(slug.contains(slug[i]));
        }
    }
    text_laws::first_piece_is_found(slashes, slug, tail, '/');
}

/// A link leads to no post but the one that it names: it leads into the blog, and the slug is the
/// first piece behind that.
pub proof fn links_lead_nowhere_else(href: Seq<char>) -> (parts: (Seq<char>, Seq<char>))
    requires
        posts::linked_slug(href) is Some,
    ensures
        ({
            let slug = posts::linked_slug(href)->0;
            let t = text::trimmed(href);
            &&& posts::is_slug(slug)
            &&& text_laws::only(parts.0, '/')
            &&& parts.1.len() == 0 || parts.1[0] == '/'
            &&& {
                ||| t == "/blog/"@ + (parts.0 + slug + parts.1)
                ||| t == "https://stephens.page/blog/"@ + (parts.0 + slug + parts.1)
            }
        }),
{
    let t = text::trimmed(href);
    let slug = posts::linked_slug(href)->0;
    let path = posts::blog_path(href)->0;
    let inner = text::without_leading(path, '/');
    text_laws::leading_are_gone(path, '/');
    text_laws::front_is_front(inner, '/');
    let slashes = path.take(path.len() - inner.len());
    let tail = inner.skip(slug.len() as int);
    assert(path =~= slashes + slug + tail);
    if text::starts_with(t, "/blog/"@) {
        text_laws::beginning_splits(t, "/blog/"@);
    } else {
        text_laws::beginning_splits(t, "https://stephens.page/blog/"@);
    }
    (slashes, tail)
}

/// The slug that a path stands for is its last piece, whatever stands before it and however many
/// slashes behind it.
pub proof fn the_last_piece_names_the_post(front: Seq<char>, piece: Seq<char>, slashes: Seq<char>)
    requires
        front.len() == 0 || front.last() == '/',
        piece.len() > 0,
        text_laws::free_of(piece, '/'),
        text_laws::only(slashes, '/'),
    ensures
        posts::named_slug(front + piece + slashes) == text::trimmed(piece),
{
    text_laws::last_piece_is_found(front, piece, slashes, '/');
}

/// A post is found exactly where its slug is one and the index publishes it; otherwise the error names
/// the slug.
pub proof fn which_posts_are_found(name: Seq<char>, index: Option<Seq<char>>)
    ensures
        ({
            let slug = posts::named_slug(name);
            let e = posts::lookup_error(name, index);
            &&& e is None <==> posts::is_slug(slug) && posts::published(index).contains(slug)
            &&& !posts::is_slug(slug) ==> e == Some(posts::PostErrorView::InvalidSlug(slug))
            &&& posts::is_slug(slug) && !posts::published(index).contains(slug) ==> e == Some(
                posts::PostErrorView::NotPublished(slug),
            )
        }),
{
}

/// An error names what it is about, whole, at its end.
pub proof fn errors_name_what_they_are_about(s: Seq<char>, cause: Seq<char>)
    ensures
        text::ends_with(posts::post_error_text(posts::PostErrorView::InvalidSlug(s)), s),
        text::starts_with(
            posts::post_error_text(posts::PostErrorView::InvalidSlug(s)),
            "invalid slug: "@,
        ),
        text::ends_with(posts::post_error_text(posts::PostErrorView::NotPublished(s)), s),
        text::starts_with(
            posts::post_error_text(posts::PostErrorView::NotPublished(s)),
            "post is not published: "@,
        ),
        text::ends_with(
            posts::post_error_text((posts::PostErrorView::Unreadable { file: s, cause })),
            ": "@ + cause,
        ),
        text::starts_with(
            posts::post_error_text((posts::PostErrorView::Unreadable { file: s, cause })),
            "cannot read post "@ + s,
        ),
{
    text_laws::joined_texts("invalid slug: "@, s);
    text_laws::joined_texts("post is not published: "@, s);
    text_laws::joined_texts("cannot read post "@ + s, ": "@ + cause);
    assert("cannot read post "@ + s + (": "@ + cause) =~= "cannot read post "@ + s + ": "@ + cause);
}

// ---------- The index ----------

/// Where a pattern first stands from some place on is where it first stands in what is left there.
proof fn first_in_what_is_left(page: Seq<char>, pat: Seq<char>, from: int, off: int)
    requires
        0 <= off <= from,
        0 <= off <= page.len(),
    ensures
        text::first_at(page, pat, from) == match text::first_at(page.skip(off), pat, from - off) {
            Some(i) => Some(i + off),
            None => None,
        },
{
    let left = page.skip(off);
    text::first_at_is_first(page, pat, from);
    text::first_at_is_first(left, pat, from - off);
    assert forall|i: int| i >= off implies #[trigger] text::occurs_at(page, pat, i)
        == text::occurs_at(left, pat, i - off) by {
        if i + pat.len() <= page.len() {
            assert(page.subrange(i, i + pat.len()) =~= left.subrange(i - off, i - off + pat.len()));
        }
    }
    match text::first_at(left, pat, from - off) {
        Some(i) => {
            assert(text::occurs_at(page, pat, i + off));
            match text::first_at(page, pat, from) {
                Some(j) => {
                    assert(text::occurs_at(left, pat, j - off));
                    if j < i + off {
                        assert(!text::occurs_at(left, pat, j - off));
                    }
                    if i + off < j {
                        assert(!text::occurs_at(page, pat, i + off));
                    }
                },
                None => {},
            }
        },
        None => {
            match text::first_at(page, pat, from) {
                Some(j) => {
                    assert(text::occurs_at(left, pat, j - off));
                },
                None => {},
            }
        },
    }
}

/// The links from some place on are the links of what is left there.
proof fn links_of_what_is_left(page: Seq<char>, from: int, off: int)
    requires
        0 <= off <= from,
        off <= page.len(),
    ensures
        posts::links(page, from) == posts::links(page.skip(off), from - off),
    decreases page.len() - from,
{
    let left = page.skip(off);
    first_in_what_is_left(page, "href=\""@, from, off);
    match text::first_at(page, "href=\""@, from) {
        None => {},
        Some(i) => {
            let start = i + "href=\""@.len();
            text::first_at_is_first(page, "href=\""@, from);
            first_in_what_is_left(page, "\""@, start, off);
            match text::first_at(page, "\""@, start) {
                None => {},
                Some(j) => {
                    text::first_at_is_first(page, "\""@, start);
                    reveal_strlit("\"");
                    links_of_what_is_left(page, j + 1, off);
                    assert(page.subrange(start, j) =~= left.subrange(start - off, j - off));
                },
            }
        },
    }
}

/// The first link of a page is what stands between the first `href="` and the next quote, and the
/// others are those of the rest.
pub proof fn links_are_read_one_by_one(front: Seq<char>, href: Seq<char>, rest: Seq<char>)
    requires
        text_laws::free_of(href, '"'),
        forall|i: int|
            0 <= i < front.len() ==> !#[trigger] text::occurs_at(
                front + "href=\""@ + href + quote() + rest,
                "href=\""@,
                i,
            ),
    ensures
        posts::links(front + "href=\""@ + href + quote() + rest, 0) == seq![href] + posts::links(
            rest,
            0,
        ),
{
    let open = "href=\""@;
    let page = front + open + href + quote() + rest;
    let n = front.len() as int;
    let start = n + open.len();
    let end = start + href.len();
    reveal_strlit("\"");
    assert("\""@ =~= quote());
    assert(page.subrange(n, n + open.len()) =~= open);
    assert(text::occurs_at(page, open, n));
    no_quote_inside(front + open, href, quote() + rest);
    assert((front + open) + href + (quote() + rest) =~= page);
    assert(page.subrange(end, end + 1) =~= quote());
    assert(text::occurs_at(page, quote(), end));
    text::first_at_is_first(page, open, 0);
    text::first_at_is_first(page, quote(), start);
    assert(page.subrange(start, end) =~= href);
    assert(page.skip(end + 1) =~= rest);
    links_of_what_is_left(page, end + 1, end + 1);
}

/// A page without `href="`, or without a quote behind the first, has no links.
pub proof fn pages_without_links(page: Seq<char>, n: int)
    requires
        ({
            ||| text_laws::absent(page, "href=\""@)
            ||| {
                &&& text::occurs_at(page, "href=\""@, n)
                &&& forall|i: int| 0 <= i < n ==> !#[trigger] text::occurs_at(page, "href=\""@, i)
                &&& forall|i: int|
                    n + "href=\""@.len() <= i ==> !#[trigger] text::occurs_at(page, "\""@, i)
            }
        }),
    ensures
        posts::links(page, 0).len() == 0,
{
    text::first_at_is_first(page, "href=\""@, 0);
    match text::first_at(page, "href=\""@, 0) {
        Some(i) => {
            text::first_at_is_first(page, "\""@, i + "href=\""@.len());
        },
        None => {},
    }
}

/// A slug is among those that some links lead to exactly where one of the links leads to it.
proof fn linked_where_a_link_leads(hrefs: Seq<Seq<char>>, slug: Seq<char>)
    ensures
        posts::linked_slugs(hrefs).contains(slug) <==> exists|i: int|
            0 <= i < hrefs.len() && posts::linked_slug(#[trigger] hrefs[i]) == Some(slug),
    decreases hrefs.len(),
{
    if hrefs.len() > 0 {
        let front = hrefs.drop_last();
        let before = posts::linked_slugs(front);
        let all = posts::linked_slugs(hrefs);
        linked_where_a_link_leads(front, slug);
        if all.contains(slug) {
            let k = all.index_of(slug);
            if k < before.len() {
                assert(before[k] == slug);
                let i = choose|i: int|
                    0 <= i < front.len() && posts::linked_slug(#[trigger] front[i]) == Some(slug);
                assert(hrefs[i] == front[i]);
            } else {
                assert(hrefs[hrefs.len() - 1] == hrefs.last());
            }
        }
        if exists|i: int|
            0 <= i < hrefs.len() && posts::linked_slug(#[trigger] hrefs[i]) == Some(slug) {
            let i = choose|i: int|
                0 <= i < hrefs.len() && posts::linked_slug(#[trigger] hrefs[i]) == Some(slug);
            if i < front.len() {
                assert(front[i] == hrefs[i]);
                let k = before.index_of(slug);
                assert(all[k] == slug);
            } else {
                assert(all[all.len() - 1] == slug);
            }
        }
    }
}

/// To leave repetitions out leaves nothing else out.
proof fn distinct_holds_all(s: Seq<Seq<char>>, x: Seq<char>)
    ensures
        posts::distinct(s).contains(x) <==> s.contains(x),
    decreases s.len(),
{
    if s.len() > 0 {
        let front = s.drop_last();
        let before = posts::distinct(front);
        distinct_holds_all(front, x);
        if posts::distinct(s).contains(x) {
            let k = posts::distinct(s).index_of(x);
            if k < before.len() {
                assert(before[k] == x);
                let i = front.index_of(x);
                assert(s[i] == x);
            } else {
                assert(s[s.len() - 1] == x);
            }
        }
        if s.contains(x) {
            let i = s.index_of(x);
            if i < front.len() {
                assert(front[i] == x);
                let k = before.index_of(x);
                assert(posts::distinct(s)[k] == x);
            } else if before.contains(x) {
                let k = before.index_of(x);
                assert(posts::distinct(s)[k] == x);
            } else {
                assert(posts::distinct(s)[before.len() as int] == x);
            }
        }
    }
}

/// A post is published exactly where some link in the index leads to it; without an index, none is.
pub proof fn published_where_a_link_leads(page: Seq<char>, slug: Seq<char>)
    ensures
        posts::published(Some(page)).contains(slug) <==> exists|i: int|
            0 <= i < posts::links(page, 0).len() && posts::linked_slug(
                #[trigger] posts::links(page, 0)[i],
            ) == Some(slug),
        posts::published(None).len() == 0,
{
    linked_where_a_link_leads(posts::links(page, 0), slug);
    distinct_holds_all(posts::linked_slugs(posts::links(page, 0)), slug);
}

/// More links leave the posts that were published, and their order, as they were: new ones come
/// behind.
pub proof fn new_posts_come_behind(a: Seq<Seq<char>>, b: Seq<Seq<char>>)
    ensures
        ({
            let before = posts::distinct(posts::linked_slugs(a));
            let all = posts::distinct(posts::linked_slugs(a + b));
            &&& before.len() <= all.len()
            &&& all.take(before.len() as int) == before
        }),
    decreases b.len(),
{
    let before = posts::distinct(posts::linked_slugs(a));
    if b.len() == 0 {
        assert(a + b =~= a);
        assert(before.take(before.len() as int) =~= before);
    } else {
        let c = b.drop_last();
        new_posts_come_behind(a, c);
        assert((a + b).drop_last() =~= a + c);
        assert((a + b).last() == b.last());
        let slugs = posts::linked_slugs(a + c);
        let mid = posts::distinct(slugs);
        match posts::linked_slug(b.last()) {
            Some(slug) => {
                assert(slugs.push(slug).drop_last() =~= slugs);
                assert(slugs.push(slug).last() == slug);
                let all = posts::distinct(slugs.push(slug));
                assert(all.take(before.len() as int) =~= mid.take(before.len() as int));
            },
            None => {},
        }
    }
}

/// Posts are published in the order of the index: in front of every link to a post stands one to each
/// post that is published before it.
pub proof fn published_in_the_order_of_the_index(page: Seq<char>, i: int, j: int, b: int) -> (a: int)
    requires
        0 <= i < j < posts::published(Some(page)).len(),
        0 <= b < posts::links(page, 0).len(),
        posts::linked_slug(posts::links(page, 0)[b]) == Some(posts::published(Some(page))[j]),
    ensures
        0 <= a < b,
        posts::linked_slug(posts::links(page, 0)[a]) == Some(posts::published(Some(page))[i]),
{
    let all = posts::links(page, 0);
    let slugs = posts::published(Some(page));
    let front = all.take(b + 1);
    let early = posts::distinct(posts::linked_slugs(front));
    posts::published_are_slugs(Some(page));
    assert(front + all.skip(b + 1) =~= all);
    new_posts_come_behind(front, all.skip(b + 1));
    assert(front[b] == all[b]);
    linked_where_a_link_leads(front, slugs[j]);
    distinct_holds_all(posts::linked_slugs(front), slugs[j]);
    let k = early.index_of(slugs[j]);
    assert(slugs.take(early.len() as int)[k] == slugs[k]);
    assert(k == j);
    assert(slugs.take(early.len() as int)[i] == slugs[i]);
    assert(early[i] == slugs[i]);
    assert(early.contains(slugs[i]));
    distinct_holds_all(posts::linked_slugs(front), slugs[i]);
    linked_where_a_link_leads(front, slugs[i]);
    let a = choose|a: int|
        0 <= a < front.len() && posts::linked_slug(#[trigger] front[a]) == Some(slugs[i]);
    assert(front[a] == all[a]);
    a
}

// ---------- The list of posts ----------

/// The places in a list of posts are those of the posts, each once.
proof fn places_in_a_list(titles: Seq<Seq<char>>, order: Seq<int>)
    requires
        posts::by_title(titles, order),
    ensures
        order.no_duplicates(),
        forall|i: int| 0 <= i < titles.len() ==> order.contains(i),
{
    assert forall|k: int, m: int|
        0 <= k < order.len() && 0 <= m < order.len() && k != m implies order[k] != order[m] by {
        text::less_is_strict(titles[order[k]]);
        if k < m {
            assert(posts::title_first(titles, order[k], order[m]));
        } else {
            assert(posts::title_first(titles, order[m], order[k]));
        }
    }
    order.unique_seq_to_set();
    let range = vstd::set_lib::set_int_range(0, titles.len() as int);
    vstd::set_lib::lemma_int_range(0, titles.len() as int);
    assert(order.to_set().subset_of(range));
    vstd::set_lib::lemma_subset_equality(order.to_set(), range);
    assert forall|i: int| 0 <= i < titles.len() implies order.contains(i) by {
        assert(range.contains(i));
        assert(order.to_set().contains(i));
    }
}

/// A list of posts is sorted by title: no title comes before the one above it. It is as long as there
/// are posts.
pub proof fn a_list_of_posts_is_sorted(
    pages: Seq<(String, Option<String>)>,
    out: Seq<(String, String)>,
)
    requires
        posts::posts_listed(pages, out),
    ensures
        out.len() == pages.len(),
        forall|k: int, m: int|
            0 <= k < m < out.len() ==> !text::less((#[trigger] out[m]).1@, (#[trigger] out[k]).1@),
{
    let titles = posts::listed_titles(pages);
    let order = choose|order: Seq<int>| #[trigger]
        posts::by_title(titles, order) && out.len() == order.len() && forall|k: int|
            0 <= k < out.len() ==> (#[trigger] out[k]).0@ == pages[order[k]].0@ && out[k].1@
                == posts::listed_title(pages[order[k]]);
    assert forall|k: int, m: int| 0 <= k < m < out.len() implies !text::less(
        (#[trigger] out[m]).1@,
        (#[trigger] out[k]).1@,
    ) by {
        assert(posts::title_first(titles, order[k], order[m]));
        assert(out[k].1@ == titles[order[k]] && out[m].1@ == titles[order[m]]);
        text::less_is_strict(out[k].1@);
        if text::less(out[m].1@, out[k].1@) && text::less(out[k].1@, out[m].1@) {
            text::less_is_transitive(out[k].1@, out[m].1@, out[k].1@);
        }
    }
}

/// Every post is in the list, with the title in its page, or its slug where there is no page.
pub proof fn every_post_is_listed(
    pages: Seq<(String, Option<String>)>,
    out: Seq<(String, String)>,
    i: int,
) -> (k: int)
    requires
        posts::posts_listed(pages, out),
        0 <= i < pages.len(),
    ensures
        0 <= k < out.len(),
        out[k].0@ == pages[i].0@,
        pages[i].1 matches Some(page) ==> out[k].1@ == posts::title_of(page@, pages[i].0@),
        pages[i].1 is None ==> out[k].1@ == pages[i].0@,
{
    let titles = posts::listed_titles(pages);
    let order = choose|order: Seq<int>| #[trigger]
        posts::by_title(titles, order) && out.len() == order.len() && forall|k: int|
            0 <= k < out.len() ==> (#[trigger] out[k]).0@ == pages[order[k]].0@ && out[k].1@
                == posts::listed_title(pages[order[k]]);
    places_in_a_list(titles, order);
    assert(order.contains(i));
    let k = order.index_of(i);
    assert(out[k].0@ == pages[order[k]].0@);
    k
}

} // verus!
