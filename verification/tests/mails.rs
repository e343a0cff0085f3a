use newsletter::mail::{
    confirm_email, delivery, esc, from_header, landing_page, post_email, sent_id, wrap_custom,
};
use newsletter::posts::unescape;

#[test]
fn escaping_replaces_five_characters() {
    assert_eq!(esc("a & b"), "a &amp; b");
    assert_eq!(esc("<p class=\"x\">'</p>"), "&lt;p class=&quot;x&quot;&gt;&#39;&lt;/p&gt;");
    assert_eq!(esc("&lt;"), "&amp;lt;");
    assert_eq!(esc("\u{1f41d}"), "\u{1f41d}");
    for s in ["", "a&<>\"'z", "&&&", "<<>>", "it's \"<b>\" & more"] {
        let successive = s
            .replace('&', "&amp;")
            .replace('<', "&lt;")
            .replace('>', "&gt;")
            .replace('"', "&quot;")
            .replace('\'', "&#39;");
        assert_eq!(esc(s), successive);
        assert!(!esc(s).contains(|c| matches!(c, '<' | '>' | '"' | '\'')));
    }
}

#[test]
fn unescaping_undoes_escaping() {
    for s in ["", "a & b", "<p class=\"x\">'</p>", "&amp;", "R&D; it's <b>"] {
        assert_eq!(unescape(&esc(s)), s);
    }
}

#[test]
fn a_text_with_an_entity_does_not_come_back() {
    assert_eq!(unescape(&esc("&lt;")), "<");
    for s in ["a &quot; b", "&#39;", "&lt;", "x&gt;"] {
        assert_ne!(unescape(&esc(s)), s);
    }
}

#[test]
fn a_composed_mail_holds_its_body_and_the_link() {
    let (html, text) = wrap_custom("<p>a & b</p>", "https://n/u?a=1&b=2");
    assert_eq!(html, "<div style=\"font-family:-apple-system,Segoe UI,Arial,sans-serif;font-size:16px;line-height:1.6;color:#181512;max-width:560px;\">\n<p>a & b</p>\n  <hr style=\"border:none;border-top:1px solid #d6d1c9;margin:24px 0;\">\n  <p style=\"color:#8a8178;font-size:12px;margin:0;\">\n    You're receiving this because you subscribed at stephens.page/blog.\n    <a href=\"https://n/u?a=1&amp;b=2\" style=\"color:#8a8178;\">Unsubscribe</a>.\n  </p>\n</div>");
    assert_eq!(text, "<p>a & b</p>\n\n---\nUnsubscribe: https://n/u?a=1&b=2\n");
}

#[test]
fn confirm_mail_holds_the_link() {
    let (html, text) = confirm_email("https://x.example/confirm?token=ab&x=1");
    assert!(html.starts_with("<div style=\"font-family:-apple-system,Segoe UI,Arial,sans-serif;font-size:16px;line-height:1.6;color:#181512;max-width:520px;\">\n"));
    assert_eq!(html.matches("https://x.example/confirm?token=ab&amp;x=1").count(), 3);
    assert!(html.contains("    <a href=\"https://x.example/confirm?token=ab&amp;x=1\" style=\"background:#9b4d24;color:#fff;text-decoration:none;padding:11px 18px;border-radius:6px;font-weight:600;display:inline-block;\">Confirm subscription</a>\n"));
    assert!(html.ends_with("and you won't be added.</p>\n</div>"));
    assert_eq!(
        text,
        "Thanks for subscribing to Jacob Stephens' blog.\n\nConfirm your email address to start receiving new posts:\nhttps://x.example/confirm?token=ab&x=1\n\nIf you didn't request this, ignore this email and you won't be added."
    );
}

#[test]
fn post_mail_holds_the_post_and_the_link() {
    let (html, text) = post_email("A <b> title", "About \"this\"", "https://b/p/", "https://n/u");
    assert!(html.contains("color:#181512;\">A &lt;b&gt; title</h1>"));
    assert!(html.contains("color:#333;\">About &quot;this&quot;</p>"));
    assert!(html.contains("<a href=\"https://b/p/\" style=\"background:#9b4d24;"));
    assert!(html.contains("    <a href=\"https://n/u\" style=\"color:#8a8178;\">Unsubscribe</a>.\n"));
    assert!(html.starts_with("<div style="));
    assert!(html.ends_with("  </p>\n</div>"));
    assert_eq!(
        text,
        "New post on Jacob Stephens' blog\n\nA <b> title\n\nAbout \"this\"\n\nRead it: https://b/p/\n\n---\nUnsubscribe: https://n/u\n"
    );
}

#[test]
fn landing_page_is_filled_in() {
    let page = landing_page("T", "H", "<p>B</p>");
    assert!(page.starts_with("<!DOCTYPE html>\n<html lang=\"en\">\n"));
    assert!(page.contains("<title>T | Jacob Stephens</title>\n"));
    assert!(page.contains(":root{--ink:#181512;--brand:#9b4d24;"));
    assert!(page.contains("<h1>H</h1>\n<p>B</p>\n<a class=\"btn\""));
    assert!(page.ends_with("</body>\n</html>"));
    assert!(!page.contains("{{"));
}

#[test]
fn the_sender_is_name_and_address() {
    assert_eq!(from_header("Jacob Stephens", "jacob@stephens.page"), "Jacob Stephens <jacob@stephens.page>");
}

#[test]
fn an_accepted_mail_has_an_id() {
    assert_eq!(sent_id(200, "200 OK", b"{\"id\":\"abc\"}"), Ok("abc".to_string()));
    assert_eq!(sent_id(299, "299", b"{\"id\":\"abc\",\"message\":\"m\"}"), Ok("abc".to_string()));
}

#[test]
fn a_refused_mail_has_a_reason() {
    assert_eq!(
        sent_id(422, "422 Unprocessable Entity", b"{\"message\":\"bad address\",\"id\":\"abc\"}"),
        Err("resend: bad address".to_string())
    );
    assert_eq!(
        sent_id(500, "500 Internal Server Error", b"<html>"),
        Err("resend: HTTP 500 Internal Server Error".to_string())
    );
    assert_eq!(sent_id(200, "200 OK", b"{\"id\":7}"), Err("resend: HTTP 200 OK".to_string()));
    assert_eq!(sent_id(200, "200 OK", b"[1]"), Err("resend: HTTP 200 OK".to_string()));
    assert_eq!(sent_id(199, "199", b"{\"id\":\"x\"}"), Err("resend: HTTP 199".to_string()));
    assert_eq!(sent_id(300, "300", b"{\"id\":\"x\"}"), Err("resend: HTTP 300".to_string()));
}

#[test]
fn an_answer_is_judged_by_status_id_and_message() {
    let id = || Some("i".to_string());
    let m = || Some("m".to_string());
    assert_eq!(delivery(200, "200 OK", id(), m()), Ok("i".to_string()));
    assert_eq!(delivery(404, "404 Not Found", id(), m()), Err("resend: m".to_string()));
    assert_eq!(delivery(200, "200 OK", None, m()), Err("resend: m".to_string()));
    assert_eq!(delivery(200, "200 OK", None, None), Err("resend: HTTP 200 OK".to_string()));
}
