//! What mails and pages hold, whatever is put into them.
use vstd::prelude::*;

use crate::config;
use crate::config::ListCfg;
use crate::json;
use crate::mail;
use crate::posts;
use crate::send;
use crate::service;
use crate::text;
use crate::text_laws;

verus! {

// ---------- Escaping ----------

/// Texts are escaped piece by piece.
pub proof fn escaping_goes_piece_by_piece(a: Seq<char>, b: Seq<char>)
    ensures
        mail::escaped(a + b) == mail::escaped(a) + mail::escaped(b),
    decreases b.len(),
{
    if b.len() == 0 {
        assert(a + b =~= a);
        assert(mail::escaped(a) + mail::escaped(b) =~= mail::escaped(a));
    } else {
        assert((a + b).drop_last() =~= a + b.drop_last());
        assert((a + b).last() == b.last());
        escaping_goes_piece_by_piece(a, b.drop_last());
        assert(mail::escaped(a) + mail::escaped(b.drop_last()) + mail::entity(b.last())
            =~= mail::escaped(a) + (mail::escaped(b.drop_last()) + mail::entity(b.last())));
    }
}

/// A text without the five characters that mean something in HTML is not changed by escaping.
pub proof fn plain_text_stays(s: Seq<char>)
    requires
        text_laws::free_of(s, '&'),
        text_laws::free_of(s, '<'),
        text_laws::free_of(s, '>'),
        text_laws::free_of(s, '"'),
        text_laws::free_of(s, '\''),
    ensures
        mail::escaped(s) == s,
    decreases s.len(),
{
    if s.len() > 0 {
        let front = s.drop_last();
        assert forall|i: int| 0 <= i < front.len() implies front[i] == #[trigger] s[i] by {}
        plain_text_stays(front);
        assert(s.last() == s[s.len() - 1]);
        assert(front + seq![s.last()] =~= s);
    }
}

/// A text without an `&` is not changed by taking the entities out.
pub proof fn without_ampersand_stays(s: Seq<char>)
    requires
        text_laws::free_of(s, '&'),
    ensures
        posts::unescaped(s) == s,
{
    reveal_strlit("&amp;");
    reveal_strlit("&quot;");
    reveal_strlit("&#39;");
    reveal_strlit("&lt;");
    reveal_strlit("&gt;");
    no_ampersand_no_entity(s, "&amp;"@);
    no_ampersand_no_entity(s, "&quot;"@);
    no_ampersand_no_entity(s, "&#39;"@);
    no_ampersand_no_entity(s, "&lt;"@);
    no_ampersand_no_entity(s, "&gt;"@);
    text_laws::nothing_to_replace(s, "&amp;"@, "&"@);
    text_laws::nothing_to_replace(s, "&quot;"@, "\""@);
    text_laws::nothing_to_replace(s, "&#39;"@, "'"@);
    text_laws::nothing_to_replace(s, "&lt;"@, "<"@);
    text_laws::nothing_to_replace(s, "&gt;"@, ">"@);
}

/// What begins with an `&` stands nowhere in a text that has none.
proof fn no_ampersand_no_entity(s: Seq<char>, e: Seq<char>)
    requires
        text_laws::free_of(s, '&'),
        e.len() > 0,
        e[0] == '&',
    ensures
        text_laws::absent(s, e),
{
    assert forall|i: int| !#[trigger] text::occurs_at(s, e, i) by {
        text_laws::standing_at_a_place(s, e, i);
        if text::occurs_at(s, e, i) {
            assert(s[i + 0] == e[0]);
        }
    }
}

// ---------- Mails ----------

/// The confirmation mail is the same for everybody but for its link, which stands in it three times
/// in HTML, escaped, and once as it is in plain text.
pub proof fn the_confirmation_mail_holds_its_link() -> (f: (Seq<Seq<char>>, Seq<Seq<char>>))
    ensures
        f.0.len() == 4,
        forall|url: Seq<char>| #[trigger]
            mail::confirm_html(url) == f.0[0] + mail::escaped(url) + f.0[1] + mail::escaped(url)
                + f.0[2] + mail::escaped(url) + f.0[3],
        f.1.len() == 2,
        forall|url: Seq<char>| #[trigger]
                mail::confirm_text(url) == f.1[0] + url + f.1[1],
{
    let f = seq![mail::CONFIRM_1@, mail::CONFIRM_2@, mail::CONFIRM_3@, mail::CONFIRM_4@];
    assert forall|url: Seq<char>| #[trigger] mail::confirm_html(url) == f[0] + mail::escaped(url)
        + f[1] + mail::escaped(url) + f[2] + mail::escaped(url) + f[3] by {}
    let g = seq![mail::CONFIRM_TEXT_1@, mail::CONFIRM_TEXT_2@];
    assert forall|url: Seq<char>| #[trigger] mail::confirm_text(url) == g[0] + url + g[1] by {}
    (f, g)
}

/// The mail for a post is the same for everybody but for the title, the description, the address of
/// the post and the link to unsubscribe, which stand in it whole and in this order.
pub proof fn the_mail_for_a_post_holds_the_post() -> (f: (Seq<Seq<char>>, Seq<Seq<char>>))
    ensures
        f.0.len() == 5,
        forall|t: Seq<char>, d: Seq<char>, p: Seq<char>, u: Seq<char>|
                #[trigger] mail::post_html(t, d, p, u) == f.0[0] + mail::escaped(t) + f.0[1]
                    + mail::escaped(d) + f.0[2] + mail::escaped(p) + f.0[3] + mail::escaped(u) + f.0[4],
        f.1.len() == 5,
        forall|t: Seq<char>, d: Seq<char>, p: Seq<char>, u: Seq<char>|
                #[trigger] mail::post_text(t, d, p, u) == f.1[0] + t + f.1[1] + d + f.1[2] + p + f.1[3] + u
                    + f.1[4],
{
    let f = seq![mail::POST_1@, mail::POST_2@, mail::POST_3@, mail::POST_4@, mail::POST_5@];
    assert forall|t: Seq<char>, d: Seq<char>, p: Seq<char>, u: Seq<char>| #[trigger]
        mail::post_html(t, d, p, u) == f[0] + mail::escaped(t) + f[1] + mail::escaped(d) + f[2]
            + mail::escaped(p) + f[3] + mail::escaped(u) + f[4] by {}
    let g = seq![
        "New post on Jacob Stephens' blog\n\n"@,
        "\n\n"@,
        "\n\nRead it: "@,
        "\n\n---\nUnsubscribe: "@,
        "\n"@,
    ];
    assert forall|t: Seq<char>, d: Seq<char>, p: Seq<char>, u: Seq<char>| #[trigger]
        mail::post_text(t, d, p, u) == g[0] + t + g[1] + d + g[2] + p + g[3] + u + g[4] by {}
    (f, g)
}

/// A composed mail holds its body as it is, and behind it the link to unsubscribe.
pub proof fn a_composed_mail_holds_its_body() -> (f: (Seq<Seq<char>>, Seq<Seq<char>>))
    ensures
        f.0.len() == 3,
        forall|b: Seq<char>, u: Seq<char>| #[trigger]
                mail::custom_html(b, u) == f.0[0] + b + f.0[1] + mail::escaped(u) + f.0[2],
        f.1.len() == 2,
        forall|b: Seq<char>, u: Seq<char>| #[trigger]
                mail::custom_text(b, u) == b + f.1[0] + u + f.1[1],
{
    let f = seq![mail::CUSTOM_1@, mail::CUSTOM_2@, mail::CUSTOM_3@];
    assert forall|b: Seq<char>, u: Seq<char>| #[trigger]
        mail::custom_html(b, u) == f[0] + b + f[1] + mail::escaped(u) + f[2] by {}
    let g = seq!["\n\n---\nUnsubscribe: "@, "\n"@];
    assert forall|b: Seq<char>, u: Seq<char>| #[trigger]
        mail::custom_text(b, u) == b + g[0] + u + g[1] by {}
    (f, g)
}

/// A page holds its title, its heading and its body as they are, in this order.
pub proof fn a_page_holds_what_it_is_given() -> (f: Seq<Seq<char>>)
    ensures
        f.len() == 4,
        forall|t: Seq<char>, h: Seq<char>, b: Seq<char>| #[trigger]
                mail::page(t, h, b) == f[0] + t + f[1] + h + f[2] + b + f[3],
{
    let f = seq![mail::PAGE_1@, mail::PAGE_2@, mail::PAGE_3@, mail::PAGE_4@];
    assert forall|t: Seq<char>, h: Seq<char>, b: Seq<char>| #[trigger]
        mail::page(t, h, b) == f[0] + t + f[1] + h + f[2] + b + f[3] by {}
    f
}

/// A draft holds the title, the description and the address of the post, escaped, in this order.
pub proof fn a_draft_holds_the_post() -> (f: Seq<Seq<char>>)
    ensures
        f.len() == 4,
        forall|t: Seq<char>, d: Seq<char>, u: Seq<char>| #[trigger]
                posts::draft(t, d, u) == f[0] + mail::escaped(t) + f[1] + mail::escaped(d) + f[2]
                    + mail::escaped(u) + f[3],
{
    let f = seq![posts::SEED_1@, posts::SEED_2@, posts::SEED_3@, posts::SEED_4@];
    assert forall|t: Seq<char>, d: Seq<char>, u: Seq<char>| #[trigger]
        posts::draft(t, d, u) == f[0] + mail::escaped(t) + f[1] + mail::escaped(d) + f[2]
            + mail::escaped(u) + f[3] by {}
    f
}

/// A sender is the name, whole, and behind it the address between `<` and `>`.
pub proof fn a_sender_is_name_and_address(name: Seq<char>, email: Seq<char>)
    ensures
        ({
            let s = mail::sender(name, email);
            &&& s.len() == name.len() + email.len() + 3
            &&& s.take(name.len() as int) == name
            &&& s[name.len() as int] == ' '
            &&& s[name.len() as int + 1] == '<'
            &&& s.subrange(name.len() as int + 2, s.len() - 1) == email
            &&& s.last() == '>'
        }),
{
    reveal_strlit(" <");
    reveal_strlit(">");
    let s = mail::sender(name, email);
    assert(s.take(name.len() as int) =~= name);
    assert(s.subrange(name.len() as int + 2, s.len() - 1) =~= email);
}

/// The confirmation mail goes to the address that asked, from the sender of the blog, with the link
/// that leads to the service and ends in the token, and without further headers.
pub proof fn a_confirmation_goes_to_who_asked(
    cfg: config::ConfigView,
    home: Seq<char>,
    slashes: Seq<char>,
    email: Seq<char>,
    token: Seq<char>,
)
    requires
        cfg.public_url == home + slashes,
        home.len() == 0 || home.last() != '/',
        text_laws::only(slashes, '/'),
    ensures
        ({
            let m = service::confirmation(cfg, email, token);
            let link = home + "/confirm?token="@ + token;
            &&& m.to == email
            &&& m.from == mail::sender(cfg.from_name, cfg.from_email)
            &&& m.subject == "Confirm your subscription to Jacob Stephens' blog"@
            &&& m.html == mail::confirm_html(link)
            &&& m.text == mail::confirm_text(link)
            &&& m.headers.len() == 0
        }),
{
    text_laws::trailing_do_not_matter(home, slashes, '/');
}

// ---------- Sends ----------

/// A link to unsubscribe leads to the service, without the slashes behind its address, and ends in
/// the token.
pub proof fn a_link_to_unsubscribe(home: Seq<char>, slashes: Seq<char>, token: Seq<char>)
    requires
        home.len() == 0 || home.last() != '/',
        text_laws::only(slashes, '/'),
    ensures
        send::unsub_link(home + slashes, token) == home + "/unsubscribe?token="@ + token,
{
    text_laws::trailing_do_not_matter(home, slashes, '/');
}

/// The headers for unsubscribing are two: the link and a mail address, and the word for one click.
pub proof fn headers_for_one_click(from_email: Seq<char>, link: Seq<char>)
    ensures
        ({
            let h = send::one_click_headers(from_email, link);
            &&& h.len() == 2
            &&& h[0].0 == "List-Unsubscribe"@
            &&& h[0].1.subrange(1, link.len() as int + 1) == link
            &&& h[0].1.skip(link.len() as int + 1) == ">, <mailto:"@ + from_email
                + "?subject=unsubscribe>"@
            &&& h[0].1[0] == '<'
            &&& h[1].0 == "List-Unsubscribe-Post"@
            &&& h[1].1 == "List-Unsubscribe=One-Click"@
        }),
{
    reveal_strlit("<");
    let v = "<"@ + link + ">, <mailto:"@ + from_email + "?subject=unsubscribe>"@;
    assert(v.subrange(1, link.len() as int + 1) =~= link);
    assert(v.skip(link.len() as int + 1) =~= ">, <mailto:"@ + from_email + "?subject=unsubscribe>"@);
}

/// The mail about a post goes to the recipient, from the sender of the list, under the title, and
/// tells of the post with the recipient's own link, in the body and in the headers.
pub proof fn a_post_goes_to_its_recipient(
    lc: ListCfg,
    public_url: Seq<char>,
    title: Seq<char>,
    desc: Seq<char>,
    post_url: Seq<char>,
    email: Seq<char>,
    token: Seq<char>,
)
    ensures
        ({
            let m = send::post_mail(lc, public_url, title, desc, post_url, (email, token));
            let link = send::unsub_link(public_url, token);
            &&& m.to == email
            &&& m.from == mail::sender(lc.from_name@, lc.from_email@)
            &&& m.subject == title
            &&& m.html == mail::post_html(title, desc, post_url, link)
            &&& m.text == mail::post_text(title, desc, post_url, link)
            &&& m.headers == send::one_click_headers(lc.from_email@, link)
        }),
{
}

/// A composed mail goes to the recipient, from the sender of the list, under its subject, with its
/// body and the recipient's own link, in the body and in the headers.
pub proof fn a_composed_mail_goes_to_its_recipient(
    lc: ListCfg,
    public_url: Seq<char>,
    subject: Seq<char>,
    body_html: Seq<char>,
    email: Seq<char>,
    token: Seq<char>,
)
    ensures
        ({
            let m = send::custom_mail(lc, public_url, subject, body_html, (email, token));
            let link = send::unsub_link(public_url, token);
            &&& m.to == email
            &&& m.from == mail::sender(lc.from_name@, lc.from_email@)
            &&& m.subject == subject
            &&& m.html == mail::custom_html(body_html, link)
            &&& m.text == mail::custom_text(body_html, link)
            &&& m.headers == send::one_click_headers(lc.from_email@, link)
        }),
{
}

/// A test mail is the composed mail that a recipient with the token `preview` would get, but for the
/// headers, of which it has none.
pub proof fn a_test_mail_is_a_composed_mail(
    lc: ListCfg,
    public_url: Seq<char>,
    subject: Seq<char>,
    body_html: Seq<char>,
    to: Seq<char>,
)
    ensures
        ({
            let m = send::test_mail(lc, public_url, subject, body_html, to);
            let sent = send::custom_mail(lc, public_url, subject, body_html, (to, "preview"@));
            &&& m.headers.len() == 0
            &&& m.to == sent.to
            &&& m.from == sent.from
            &&& m.subject == sent.subject
            &&& m.html == sent.html
            &&& m.text == sent.text
        }),
{
}

/// What is recorded of a send is the mail that a recipient with the token `preview` would get.
pub proof fn the_record_is_the_mail(
    lc: ListCfg,
    public_url: Seq<char>,
    title: Seq<char>,
    desc: Seq<char>,
    post_url: Seq<char>,
    body_html: Seq<char>,
    email: Seq<char>,
)
    ensures
        send::post_record(public_url, title, desc, post_url) == send::post_mail(
            lc,
            public_url,
            title,
            desc,
            post_url,
            (email, "preview"@),
        ).html,
        send::custom_record(public_url, body_html) == send::custom_mail(
            lc,
            public_url,
            title,
            body_html,
            (email, "preview"@),
        ).html,
{
}

/// A post that was sent before is refused with the time of that send, written out.
pub proof fn a_refusal_tells_the_time() -> (f: Seq<Seq<char>>)
    ensures
        f.len() == 2,
        forall|at: i64| #[trigger]
                send::send_error_text(send::SendError::AlreadySent(at)) == f[0]
                    + text::decimal_int(at as int) + f[1],
{
    let f = seq!["already sent at "@, "; pass force to send again"@];
    assert forall|at: i64| #[trigger]
        send::send_error_text(send::SendError::AlreadySent(at)) == f[0] + text::decimal_int(
            at as int,
        ) + f[1] by {}
    f
}

// ---------- Answers of outside services ----------

/// A mail was accepted exactly where the status is one of success and the answer names an id; what is
/// returned is that id.
pub proof fn accepted_where_the_answer_says_so(
    code: u16,
    status: Seq<char>,
    id: Option<Seq<char>>,
    message: Option<Seq<char>>,
)
    ensures
        (mail::delivered(code, status, id, message) is Ok) <==> (code >= 200 && code <= 299
            && id is Some),
        mail::delivered(code, status, id, message) matches Ok(got) ==> id == Some(got),
{
}

/// A refusal names the provider's message where there is one, and the status where there is none,
/// and rests on nothing else.
pub proof fn a_refusal_has_its_reason(
    code: u16,
    status: Seq<char>,
    id: Option<Seq<char>>,
    message: Option<Seq<char>>,
)
    requires
        mail::delivered(code, status, id, message) is Err,
    ensures
        ({
            let e = mail::delivered(code, status, id, message)->Err_0;
            let said = e.skip("resend: "@.len() as int);
            &&& text::starts_with(e, "resend: "@)
            &&& message matches Some(m) ==> said == m
            &&& message is None ==> said == "HTTP "@ + status
        }),
{
    let said = match message {
        Some(m) => m,
        None => "HTTP "@ + status,
    };
    text_laws::joined_texts("resend: "@, said);
}

/// Of what an answer holds, a text is read as it is and a boolean as it is; anything else is no text,
/// and counts as `false`.
pub proof fn members_are_read_as_they_are(s: Seq<char>, b: bool)
    ensures
        json::text_of(json::MemberView::Text(s)) == Some(s),
        json::text_of(json::MemberView::Flag(b)) is None,
        json::text_of(json::MemberView::Other) is None,
        json::flag_of(json::MemberView::Flag(b)) == b,
        !json::flag_of(json::MemberView::Text(s)),
        !json::flag_of(json::MemberView::Other),
{
}

} // verus!
