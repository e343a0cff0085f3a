//! The mails that the service sends, the pages that it serves, and the answers of the mail provider.
use vstd::prelude::*;
use vstd::string::*;

use crate::json;
use crate::json::text_member;
use crate::text;

verus! {

// ---------- Escaping ----------

/// How a character is written in HTML text.
pub open spec fn entity(c: char) -> Seq<char> {
    if c == '&' {
        "&amp;"@
    } else if c == '<' {
        "&lt;"@
    } else if c == '>' {
        "&gt;"@
    } else if c == '"' {
        "&quot;"@
    } else if c == '\'' {
        "&#39;"@
    } else {
        seq![c]
    }
}

/// How a text is written in HTML text.
pub open spec fn escaped(s: Seq<char>) -> Seq<char>
    decreases s.len(),
{
    if s.len() == 0 {
        s
    } else {
        escaped(s.drop_last()) + entity(s.last())
    }
}

/// An escaped text holds nothing that ends a text or an attribute in HTML.
pub proof fn escaped_is_safe(s: Seq<char>)
    ensures
        !escaped(s).contains('<'),
        !escaped(s).contains('>'),
        !escaped(s).contains('"'),
        !escaped(s).contains('\''),
    decreases s.len(),
{
    reveal_strlit("&amp;");
    reveal_strlit("&lt;");
    reveal_strlit("&gt;");
    reveal_strlit("&quot;");
    reveal_strlit("&#39;");
    if s.len() > 0 {
        escaped_is_safe(s.drop_last());
        let e = entity(s.last());
        let front = escaped(s.drop_last());
        assert forall|i: int| 0 <= i < escaped(s).len() implies {
            &&& escaped(s)[i] != '<'
            &&& escaped(s)[i] != '>'
            &&& escaped(s)[i] != '"'
            &&& escaped(s)[i] != '\''
        } by {
            if i < front.len() {
                assert(front.contains(front[i]));
            } else {
                assert(escaped(s)[i] == e[i - front.len()]);
            }
        }
    }
}

/// Escapes a text for use in pages and mails.
pub fn esc(s: &str) -> (r: String)
    ensures
        r@ == escaped(s@),
{
    let c: Vec<char> = text::to_chars(s);
    let mut out: String = String::new();
    let mut i: usize = 0;
    while i < c.len()
        invariant
            i <= c@.len(),
            out@ == escaped(c@.take(i as int)),
        decreases c@.len() - i,
    {
        let ghost before = out@;
        let ch: char = c[i];
        if ch == '&' {
            out.append("&amp;");
        } else if ch == '<' {
            out.append("&lt;");
        } else if ch == '>' {
            out.append("&gt;");
        } else if ch == '"' {
            out.append("&quot;");
        } else if ch == '\'' {
            out.append("&#39;");
        } else {
            out.push(ch);
            assert(before.push(ch) =~= before + seq![ch]);
        }
        i += 1;
        assert(c@.take(i as int).drop_last() =~= c@.take(i - 1));
    }
    assert(c@.take(i as int) =~= c@);
    out
}

// ---------- The confirmation mail ----------

// The parts of the confirmation mail between which its link stands, in HTML and in plain text.
pub const CONFIRM_1: &'static str = r#"<div style="font-family:-apple-system,Segoe UI,Arial,sans-serif;font-size:16px;line-height:1.6;color:#181512;max-width:520px;">
  <p>Thanks for subscribing to <strong>Jacob Stephens' blog</strong>.</p>
  <p>Please confirm your email address to start receiving new posts:</p>
  <p style="margin:24px 0;">
    <a href=""#;

pub const CONFIRM_2: &'static str = r#"" style="background:#9b4d24;color:#fff;text-decoration:none;padding:11px 18px;border-radius:6px;font-weight:600;display:inline-block;">Confirm subscription</a>
  </p>
  <p style="color:#625a52;font-size:14px;">Or paste this link into your browser:<br><a href=""#;

pub const CONFIRM_3: &'static str = r#"" style="color:#9b4d24;">"#;

pub const CONFIRM_4: &'static str = r#"</a></p>
  <p style="color:#625a52;font-size:14px;">If you didn't request this, you can ignore this email and you won't be added.</p>
</div>"#;

pub const CONFIRM_TEXT_1: &'static str = "Thanks for subscribing to Jacob Stephens' blog.\n\nConfirm your email address to start receiving new posts:\n";

pub const CONFIRM_TEXT_2: &'static str = "\n\nIf you didn't request this, ignore this email and you won't be added.";

/// The confirmation mail as HTML.
pub open spec fn confirm_html(url: Seq<char>) -> Seq<char> {
    CONFIRM_1@ + escaped(url) + CONFIRM_2@ + escaped(url) + CONFIRM_3@ + escaped(url) + CONFIRM_4@
}

/// The confirmation mail as plain text.
pub open spec fn confirm_text(url: Seq<char>) -> Seq<char> {
    CONFIRM_TEXT_1@ + url + CONFIRM_TEXT_2@
}

/// The confirmation (double opt-in) mail, as HTML and as plain text.
pub fn confirm_email(confirm_url: &str) -> (r: (String, String))
    ensures
        r.0@ == confirm_html(confirm_url@),
        r.1@ == confirm_text(confirm_url@),
{
    let u: String = esc(confirm_url);
    let mut html: String = CONFIRM_1.to_owned();
    html.append(u.as_str());
    html.append(CONFIRM_2);
    html.append(u.as_str());
    html.append(CONFIRM_3);
    html.append(u.as_str());
    html.append(CONFIRM_4);
    let mut plain: String = CONFIRM_TEXT_1.to_owned();
    plain.append(confirm_url);
    plain.append(CONFIRM_TEXT_2);
    (html, plain)
}

// ---------- The mail for a post ----------

// The parts of the mail for a post between which its title, its description, its address and the
// link to unsubscribe stand.
pub const POST_1: &'static str = r#"<div style="font-family:-apple-system,Segoe UI,Arial,sans-serif;font-size:16px;line-height:1.6;color:#181512;max-width:560px;">
  <p style="color:#625a52;font-size:14px;margin:0 0 16px;">New post on Jacob Stephens' blog</p>
  <h1 style="font-size:22px;line-height:1.25;margin:0 0 12px;color:#181512;">"#;

pub const POST_2: &'static str = r#"</h1>
  <p style="margin:0 0 24px;color:#333;">"#;

pub const POST_3: &'static str = r#"</p>
  <p style="margin:0 0 28px;">
    <a href=""#;

pub const POST_4: &'static str = r#"" style="background:#9b4d24;color:#fff;text-decoration:none;padding:11px 18px;border-radius:6px;font-weight:600;display:inline-block;">Read the post</a>
  </p>
  <hr style="border:none;border-top:1px solid #d6d1c9;margin:24px 0;">
  <p style="color:#8a8178;font-size:12px;margin:0;">
    You're receiving this because you subscribed at stephens.page/blog.
    <a href=""#;

pub const POST_5: &'static str = r#"" style="color:#8a8178;">Unsubscribe</a>.
  </p>
</div>"#;

/// The mail for a post as HTML.
pub open spec fn post_html(
    title: Seq<char>,
    desc: Seq<char>,
    post_url: Seq<char>,
    unsub_url: Seq<char>,
) -> Seq<char> {
    POST_1@ + escaped(title) + POST_2@ + escaped(desc) + POST_3@ + escaped(post_url) + POST_4@
        + escaped(unsub_url) + POST_5@
}

/// The mail for a post as plain text.
pub open spec fn post_text(
    title: Seq<char>,
    desc: Seq<char>,
    post_url: Seq<char>,
    unsub_url: Seq<char>,
) -> Seq<char> {
    "New post on Jacob Stephens' blog\n\n"@ + title + "\n\n"@ + desc + "\n\nRead it: "@ + post_url
        + "\n\n---\nUnsubscribe: "@ + unsub_url + "\n"@
}

/// The mail for a post to one subscriber, as HTML and as plain text.
pub fn post_email(title: &str, desc: &str, post_url: &str, unsub_url: &str) -> (r: (
    String,
    String,
))
    ensures
        r.0@ == post_html(title@, desc@, post_url@, unsub_url@),
        r.1@ == post_text(title@, desc@, post_url@, unsub_url@),
{
    let mut html: String = POST_1.to_owned();
    html.append(esc(title).as_str());
    html.append(POST_2);
    html.append(esc(desc).as_str());
    html.append(POST_3);
    html.append(esc(post_url).as_str());
    html.append(POST_4);
    html.append(esc(unsub_url).as_str());
    html.append(POST_5);
    let mut plain: String = "New post on Jacob Stephens' blog\n\n".to_owned();
    plain.append(title);
    plain.append("\n\n");
    plain.append(desc);
    plain.append("\n\nRead it: ");
    plain.append(post_url);
    plain.append("\n\n---\nUnsubscribe: ");
    plain.append(unsub_url);
    plain.append("\n");
    (html, plain)
}

// ---------- Composed mails ----------

// The parts of a composed mail between which its body and the link to unsubscribe stand.
pub const CUSTOM_1: &'static str = r#"<div style="font-family:-apple-system,Segoe UI,Arial,sans-serif;font-size:16px;line-height:1.6;color:#181512;max-width:560px;">
"#;

pub const CUSTOM_2: &'static str = r#"
  <hr style="border:none;border-top:1px solid #d6d1c9;margin:24px 0;">
  <p style="color:#8a8178;font-size:12px;margin:0;">
    You're receiving this because you subscribed at stephens.page/blog.
    <a href=""#;

pub const CUSTOM_3: &'static str = r#"" style="color:#8a8178;">Unsubscribe</a>.
  </p>
</div>"#;

/// A composed mail as HTML: its body as it is, and below it the link to unsubscribe.
pub open spec fn custom_html(body_html: Seq<char>, unsub_url: Seq<char>) -> Seq<char> {
    CUSTOM_1@ + body_html + CUSTOM_2@ + escaped(unsub_url) + CUSTOM_3@
}

/// A composed mail as plain text: its body as it is, and below it the link to unsubscribe.
pub open spec fn custom_text(body_html: Seq<char>, unsub_url: Seq<char>) -> Seq<char> {
    body_html + "\n\n---\nUnsubscribe: "@ + unsub_url + "\n"@
}

/// A composed mail, as HTML and as plain text, given its body and the link to unsubscribe.
pub fn wrap_custom(body_html: &str, unsub_url: &str) -> (r: (String, String))
    ensures
        r.0@ == custom_html(body_html@, unsub_url@),
        r.1@ == custom_text(body_html@, unsub_url@),
{
    let mut html: String = CUSTOM_1.to_owned();
    html.append(body_html);
    html.append(CUSTOM_2);
    html.append(esc(unsub_url).as_str());
    html.append(CUSTOM_3);
    let mut plain: String = body_html.to_owned();
    plain.append("\n\n---\nUnsubscribe: ");
    plain.append(unsub_url);
    plain.append("\n");
    (html, plain)
}

// ---------- Landing pages ----------

// The parts of a landing page between which its title, its heading and its body stand.
pub const PAGE_1: &'static str = r#"<!DOCTYPE html>
<html lang="en">
<head>
<meta charset="UTF-8">
<link rel="icon" type="image/png" href="https://stephens.page/bee-favicon.png">
<meta name="viewport" content="width=device-width, initial-scale=1.0">
<meta name="robots" content="noindex">
<title>"#;

pub const PAGE_2: &'static str = r#" | Jacob Stephens</title>
<link href="https://fonts.googleapis.com/css2?family=Source+Serif+4:wght@600;700&family=Source+Sans+3:ital,wght@0,400;0,600;0,700;1,400&display=swap" rel="stylesheet">
<style>
:root{--ink:#181512;--brand:#9b4d24;--muted:#625a52;--surface:#fff;--rule:#d6d1c9;}
*{margin:0;padding:0;box-sizing:border-box;}
body{font-family:'Source Sans 3',Arial,sans-serif;background:var(--surface);color:var(--ink);line-height:1.7;min-height:100vh;display:flex;align-items:center;justify-content:center;padding:1.5rem;}
.card{max-width:520px;text-align:center;}
h1{font-family:'Source Serif 4',Georgia,serif;font-weight:700;font-size:clamp(1.8rem,4vw,2.4rem);line-height:1.1;color:var(--brand);margin-bottom:1rem;}
p{color:var(--ink);margin-bottom:1rem;}
a{color:var(--brand);}
.btn{display:inline-block;margin-top:1.5rem;padding:0.6rem 1.1rem;border:1px solid var(--rule);border-radius:6px;color:var(--ink);text-decoration:none;font-weight:600;}
.btn:hover{border-color:var(--brand);color:var(--brand);}
</style>
</head>
<body>
<div class="card">
<h1>"#;

pub const PAGE_3: &'static str = r#"</h1>
"#;

pub const PAGE_4: &'static str = r#"
<a class="btn" href="https://stephens.page/blog/">&larr; Back to the blog</a>
</div>
</body>
</html>"#;

/// A landing page: its title and its heading as they are, and its body as HTML.
pub open spec fn page(title: Seq<char>, heading: Seq<char>, body_html: Seq<char>) -> Seq<char> {
    PAGE_1@ + title + PAGE_2@ + heading + PAGE_3@ + body_html + PAGE_4@
}

/// The page that a confirm or unsubscribe link leads to, in the style of the blog.
pub fn landing_page(title: &str, heading: &str, body_html: &str) -> (r: String)
    ensures
        r@ == page(title@, heading@, body_html@),
{
    let mut html: String = PAGE_1.to_owned();
    html.append(title);
    html.append(PAGE_2);
    html.append(heading);
    html.append(PAGE_3);
    html.append(body_html);
    html.append(PAGE_4);
    html
}

// ---------- Mails and the mail provider ----------

/// A mail, ready to be handed to the mail provider.
#[derive(Debug)]
pub struct Email {
    pub from: String,
    pub to: String,
    pub subject: String,
    pub html: String,
    pub text: String,
    pub headers: Vec<(String, String)>,
}

/// What a mail says.
#[verifier::ext_equal]
pub ghost struct EmailView {
    pub from: Seq<char>,
    pub to: Seq<char>,
    pub subject: Seq<char>,
    pub html: Seq<char>,
    pub text: Seq<char>,
    pub headers: Seq<(Seq<char>, Seq<char>)>,
}

/// What some headers say.
pub open spec fn header_views(s: Seq<(String, String)>) -> Seq<(Seq<char>, Seq<char>)> {
    s.map_values(|p: (String, String)| (p.0@, p.1@))
}

impl View for Email {
    type V = EmailView;

    open spec fn view(&self) -> EmailView {
        EmailView {
            from: self.from@,
            to: self.to@,
            subject: self.subject@,
            html: self.html@,
            text: self.text@,
            headers: header_views(self.headers@),
        }
    }
}

impl Email {
    /// The headers to hand to the mail provider; `None` where there are none.
    pub fn extra_headers(&self) -> (r: Option<&Vec<(String, String)>>)
        ensures
            match r {
                Some(h) => self@.headers.len() > 0 && header_views(h@) == self@.headers,
                None => self@.headers.len() == 0,
            },
    {
        if self.headers.is_empty() {
            None
        } else {
            Some(&self.headers)
        }
    }
}

/// The sender of a mail, name and address.
pub open spec fn sender(name: Seq<char>, email: Seq<char>) -> Seq<char> {
    name + " <"@ + email + ">"@
}

/// The sender of a mail, name and address.
pub fn from_header(name: &str, email: &str) -> (r: String)
    ensures
        r@ == sender(name@, email@),
{
    let mut s: String = name.to_owned();
    s.append(" <");
    s.append(email);
    s.append(">");
    s
}

/// What an answer of the mail provider means: the id of the mail where the status says success and
/// the body names one, otherwise an error with the provider's message, or the status where it gives
/// none.
pub open spec fn delivered(
    code: u16,
    status: Seq<char>,
    id: Option<Seq<char>>,
    message: Option<Seq<char>>,
) -> Result<Seq<char>, Seq<char>> {
    match id {
        Some(id) if 200 <= code < 300 => Ok(id),
        _ => Err(
            "resend: "@ + match message {
                Some(m) => m,
                None => "HTTP "@ + status,
            },
        ),
    }
}

/// What some result says.
pub open spec fn result_view(r: Result<String, String>) -> Result<Seq<char>, Seq<char>> {
    match r {
        Ok(s) => Ok(s@),
        Err(s) => Err(s@),
    }
}

/// What an answer of the mail provider means, given what its body holds as `id` and as `message`.
pub fn delivery(code: u16, status: &str, id: Option<String>, message: Option<String>) -> (r: Result<
    String,
    String,
>)
    ensures
        result_view(r) == delivered(
            code,
            status@,
            text::opt_view(id),
            text::opt_view(message),
        ),
{
    if 200 <= code && code < 300 {
        if let Some(id) = id {
            return Ok(id);
        }
    }
    let mut e: String = "resend: ".to_owned();
    match message {
        Some(m) => {
            e.append(m.as_str());
        },
        None => {
            let mut h: String = "HTTP ".to_owned();
            h.append(status);
            e.append(h.as_str());
        },
    }
    Err(e)
}

/// What an answer of the mail provider means, given its status and its body.
pub fn sent_id(code: u16, status: &str, body: &[u8]) -> (r: Result<String, String>)
    ensures
        result_view(r) == delivered(
            code,
            status@,
            json::text_of(json::json_member(body@, "id"@)),
            json::text_of(json::json_member(body@, "message"@)),
        ),
{
    let id: Option<String> = text_member(body, "id");
    let message: Option<String> = text_member(body, "message");
    delivery(code, status, id, message)
}

} // verus!
