use newsletter::config::ListCfg;
use newsletter::posts::{
    between, index_file, list_posts, listed_post_file, post_file, published_slugs, read_post,
    seed_body, slug_from_href, unescape, valid_slug, PostError,
};

const INDEX: &str = "<a href=\"/blog/first-post/\">1</a><a href=\"/about\">x</a>\
    <a href=\" https://stephens.page/blog//second/#top\">2</a><a href=\"/blog/first-post/more\">1</a>\
    <a href=\"/blog/Bad_Slug/\">x</a><a href=\"/blog/\">x</a><a href=\"/blog/third";

fn lc() -> ListCfg {
    ListCfg {
        blog_url: "https://stephens.page/blog/".to_string(),
        blog_dir: "/srv/blog".to_string(),
        from_email: "jacob@stephens.page".to_string(),
        from_name: "Jacob Stephens".to_string(),
    }
}

#[test]
fn text_between_two_marks() {
    assert_eq!(between("a<t>b</t>c<t>d</t>", "<t>", "</t>").as_deref(), Some("b"));
    assert_eq!(between("</t><t></t>", "<t>", "</t>").as_deref(), Some(""));
    assert_eq!(between("<t>b", "<t>", "</t>"), None);
    assert_eq!(between("b</t>", "<t>", "</t>"), None);
}

#[test]
fn entities_are_undone_one_after_the_other() {
    assert_eq!(unescape("R&amp;D &quot;x&quot; &#39;y&#39; &lt;&gt;"), "R&D \"x\" 'y' <>");
    assert_eq!(unescape("&amp;lt;"), "<");
    assert_eq!(unescape("&nbsp;&amp"), "&nbsp;&amp");
}

#[test]
fn slugs_are_small_letters_digits_and_hyphens() {
    assert!(valid_slug("a-post-2"));
    assert!(valid_slug("-"));
    assert!(!valid_slug(""));
    assert!(!valid_slug("A"));
    assert!(!valid_slug("a b"));
    assert!(!valid_slug("../etc"));
    assert!(!valid_slug("\u{e9}"));
}

#[test]
fn links_lead_to_slugs() {
    assert_eq!(slug_from_href("/blog/a/b").as_deref(), Some("a"));
    assert_eq!(slug_from_href(" /blog//a ").as_deref(), Some("a"));
    assert_eq!(slug_from_href("https://stephens.page/blog/a").as_deref(), Some("a"));
    assert_eq!(slug_from_href("http://stephens.page/blog/a"), None);
    assert_eq!(slug_from_href("/blog"), None);
    assert_eq!(slug_from_href("/blog///"), None);
    assert_eq!(slug_from_href("/blog/A"), None);
}

#[test]
fn the_index_publishes_each_slug_once() {
    assert_eq!(published_slugs(Some(INDEX)), ["first-post", "second"]);
    assert!(published_slugs(None).is_empty());
    assert!(published_slugs(Some("href=\"")).is_empty());
}

#[test]
fn files_lie_below_the_blog() {
    assert_eq!(index_file(&lc()), "/srv/blog/index.html");
    assert_eq!(listed_post_file(&lc(), "second"), "/srv/blog/second/index.html");
    assert_eq!(
        post_file(&lc(), "blog/second/", Some(INDEX)).ok().as_deref(),
        Some("/srv/blog/second/index.html")
    );
    for slug in published_slugs(Some(INDEX)) {
        assert!(post_file(&lc(), &slug, Some(INDEX)).is_ok());
    }
}

#[test]
fn a_published_post_is_read() {
    let page = "<title> R&amp;D notes | Jacob Stephens </title>\
        <meta name=\"description\" content=\" A &quot;test&quot; \">";
    let p = read_post(&lc(), "https://stephens.page/blog/first-post/", Some(INDEX), Ok(page));
    let p = p.ok().unwrap();
    assert_eq!(p.slug, "first-post");
    assert_eq!(p.title, "R&D notes");
    assert_eq!(p.desc, "A \"test\"");
    assert_eq!(p.url, "https://stephens.page/blog/first-post/");
}

#[test]
fn a_post_without_a_title_goes_by_its_slug() {
    for page in ["", "<title></title>", "<title>| Jacob Stephens</title>", "<title>x"] {
        let p = read_post(&lc(), "second", Some(INDEX), Ok(page)).ok().unwrap();
        assert_eq!(p.title, "second");
        assert_eq!(p.desc, "");
    }
}

#[test]
fn posts_that_cannot_be_read() {
    let e = read_post(&lc(), "No Slug", Some(INDEX), Ok("")).err().unwrap();
    assert!(matches!(e, PostError::InvalidSlug(_)));
    assert_eq!(e.message(), "invalid slug: No Slug");
    let e = read_post(&lc(), "///", Some(INDEX), Ok("")).err().unwrap();
    assert_eq!(e.message(), "invalid slug: ///");
    let e = read_post(&lc(), " third ", Some(INDEX), Ok("")).err().unwrap();
    assert!(matches!(e, PostError::NotPublished(_)));
    assert_eq!(e.message(), "post is not published: third");
    let e = post_file(&lc(), "second", None).err().unwrap();
    assert_eq!(e.message(), "post is not published: second");
    let e = read_post(&lc(), "second", Some(INDEX), Err("gone")).err().unwrap();
    assert!(matches!(e, PostError::Unreadable { .. }));
    assert_eq!(e.message(), "cannot read post /srv/blog/second/index.html: gone");
}

#[test]
fn posts_are_listed_by_title() {
    let pages = vec![
        ("c".to_string(), Some("<title>Bee | Jacob Stephens</title>".to_string())),
        ("b".to_string(), None),
        ("a".to_string(), Some("<title>Ant &amp; Co</title>".to_string())),
        ("d".to_string(), Some("<title>Bee</title>".to_string())),
    ];
    let listed = list_posts(&pages);
    let expected: Vec<(String, String)> = [("a", "Ant & Co"), ("c", "Bee"), ("d", "Bee"), ("b", "b")]
        .iter()
        .map(|(s, t)| (s.to_string(), t.to_string()))
        .collect();
    assert_eq!(listed, expected);
}

#[test]
fn a_draft_is_escaped() {
    assert_eq!(
        seed_body("A <b>", "it's", "https://b/?a=1&b=2"),
        "<p style=\"color:#625a52;font-size:14px;margin:0 0 16px;\">New post</p><h1 style=\"font-size:22px;line-height:1.25;margin:0 0 12px;\">A &lt;b&gt;</h1><p>it&#39;s</p><p style=\"margin:24px 0;\"><a href=\"https://b/?a=1&amp;b=2\">Read the post</a></p>"
    );
}
