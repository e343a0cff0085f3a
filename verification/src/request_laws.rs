//! Which requests go on, which are refused, and what each is told.
use vstd::prelude::*;
use vstd::utf8::encode_utf8;

use crate::config;
use crate::mail;
use crate::service;
use crate::service::{AdminHeaders, SubscribeForm};
use crate::text;
use crate::text_laws;

verus! {

// ---------- Mail addresses ----------

/// Something in front of an `@` and a domain behind it: at most 254 bytes, without a space and
/// without white space at the ends, the first part free of `@`, and the domain with a dot that
/// neither begins nor ends it.
pub open spec fn is_local_at_domain(local: Seq<char>, domain: Seq<char>) -> bool {
    let e = local + seq!['@'] + domain;
    &&& local.len() > 0
    &&& text_laws::free_of(local, '@')
    &&& text_laws::free_of(local, ' ')
    &&& text_laws::free_of(domain, ' ')
    &&& text_laws::tight(e)
    &&& encode_utf8(e).len() <= 254
    &&& exists|i: int| 0 < i < domain.len() - 1 && domain[i] == '.'
    &&& domain[0] != '.'
    &&& domain[domain.len() - 1] != '.'
}

/// Every text of that form is taken for a mail address, whatever else its parts are made of, and
/// whatever white space stands around it.
pub proof fn addresses_are_taken(
    local: Seq<char>,
    domain: Seq<char>,
    a: Seq<char>,
    b: Seq<char>,
)
    requires
        is_local_at_domain(local, domain),
        text_laws::blank(a),
        text_laws::blank(b),
    ensures
        service::is_email(local + seq!['@'] + domain),
        service::is_email(a + (local + seq!['@'] + domain) + b),
{
    let e = local + seq!['@'] + domain;
    text_laws::tight_stays(e);
    text_laws::trimming_takes_white_space_only(a, e, b);
    assert(!e.contains(' ')) by {
        assert forall|i: int| 0 <= i < e.len() implies e[i] != ' ' by {
            if i < local.len() {
                assert(e[i] == local[i]);
            } else if i > local.len() {
                assert(e[i] == domain[i - local.len() - 1]);
            }
        }
    }
    e.index_of_first_ensures('@');
    assert(e[local.len() as int] == '@');
    assert(e.contains('@'));
    let at = e.index_of_first('@')->0;
    if at < local.len() {
        assert(e[at] == local[at]);
    }
    assert(at == local.len());
    assert(e.skip(at + 1) =~= domain);
    let i = choose|i: int| 0 < i < domain.len() - 1 && domain[i] == '.';
    assert(domain.contains(domain[i]));
    assert(domain.last() == domain[domain.len() - 1]);
}

/// Nothing else is taken for a mail address.
pub proof fn nothing_else_is_an_address(s: Seq<char>) -> (parts: (Seq<char>, Seq<char>))
    requires
        service::is_email(s),
    ensures
        text::trimmed(s) == parts.0 + seq!['@'] + parts.1,
        is_local_at_domain(parts.0, parts.1),
{
    let e = text::trimmed(s);
    let ends = text_laws::trimming_splits(s);
    e.index_of_first_ensures('@');
    let at = e.index_of_first('@')->0;
    let local = e.take(at);
    let domain = e.skip(at + 1);
    assert(e =~= local + seq!['@'] + domain);
    assert forall|i: int| 0 <= i < e.len() implies e[i] != ' ' by {
        assert(e.contains(e[i]));
    }
    assert forall|i: int| 0 <= i < local.len() implies #[trigger] local[i] != '@' by {
        assert(e[i] == local[i]);
    }
    assert forall|i: int| 0 <= i < local.len() implies #[trigger] local[i] != ' ' by {
        assert(e[i] == local[i]);
    }
    assert forall|i: int| 0 <= i < domain.len() implies #[trigger] domain[i] != ' ' by {
        assert(e[at + 1 + i] == domain[i]);
    }
    let k = choose|k: int| 0 <= k < domain.len() && domain[k] == '.';
    assert(domain[k] == '.');
    (local, domain)
}

/// White space around a mail address does not matter.
pub proof fn addresses_are_trimmed(s: Seq<char>)
    ensures
        service::is_email(text::trimmed(s)) == service::is_email(s),
{
    text_laws::trimming_splits(s);
    text_laws::tight_stays(text::trimmed(s));
}

/// A text is blank exactly where nothing is left of it without white space.
pub proof fn blank_is_nothing(s: Seq<char>)
    ensures
        text_laws::blank(s) <==> text::trimmed(s).len() == 0,
{
    if text_laws::blank(s) {
        text_laws::trimming_takes_white_space_only(s, Seq::empty(), Seq::empty());
        assert(s + Seq::<char>::empty() + Seq::<char>::empty() =~= s);
    }
    if text::trimmed(s).len() == 0 {
        let ends = text_laws::trimming_splits(s);
        assert forall|i: int| 0 <= i < s.len() implies text::white(#[trigger] s[i]) by {
            if i < ends.0.len() {
                assert(s[i] == ends.0[i]);
            } else {
                assert(s[i] == ends.1[i - ends.0.len()]);
            }
        }
    }
}

// ---------- Where a request comes from ----------

/// The address that the proxy names first counts, whole, whatever white space stands around it and
/// whatever comes behind a comma.
pub proof fn the_first_address_counts(
    s: &str,
    a: Seq<char>,
    ip: Seq<char>,
    b: Seq<char>,
    rest: Seq<char>,
)
    requires
        s@ == a + ip + b + rest,
        text_laws::blank(a),
        text_laws::blank(b),
        text_laws::tight(ip),
        text_laws::free_of(ip, ','),
        ip.len() > 0,
        rest.len() == 0 || rest[0] == ',',
    ensures
        service::origin(Some(s)) == ip,
{
    let first = a + ip + b;
    assert(text_laws::free_of(first, ',')) by {
        assert forall|i: int| 0 <= i < first.len() implies #[trigger] first[i] != ',' by {
            if i < a.len() {
                assert(first[i] == a[i]);
            } else if i < a.len() + ip.len() {
                assert(first[i] == ip[i - a.len()]);
            } else {
                assert(first[i] == b[i - a.len() - ip.len()]);
            }
        }
    }
    if rest.len() == 0 {
        assert(s@ =~= first);
        text_laws::front_of_free(first, ',');
    } else {
        assert(s@ =~= first + seq![','] + rest.skip(1));
        text_laws::front_of_joined(first, ',', rest.skip(1));
    }
    text_laws::trimming_takes_white_space_only(a, ip, b);
}

/// Where the proxy names nothing in front of the first comma, the address is unknown.
pub proof fn an_unnamed_address_is_unknown(s: &str, a: Seq<char>, rest: Seq<char>)
    requires
        s@ == a + rest,
        text_laws::blank(a),
        rest.len() == 0 || rest[0] == ',',
    ensures
        service::origin(Some(s)) == "unknown"@,
        service::origin(None) == "unknown"@,
{
    assert(text_laws::free_of(a, ',')) by {
        assert forall|i: int| 0 <= i < a.len() implies #[trigger] a[i] != ',' by {
            assert(text::white(a[i]));
        }
    }
    if rest.len() == 0 {
        assert(s@ =~= a);
        text_laws::front_of_free(a, ',');
    } else {
        assert(s@ =~= a + seq![','] + rest.skip(1));
        text_laws::front_of_joined(a, ',', rest.skip(1));
    }
    blank_is_nothing(a);
}

// ---------- The owner ----------

/// The owner is let in with the token, whatever token that is: behind `Bearer `, with any white space
/// around it, or in the header of its own, whatever the other header says.
pub proof fn the_token_lets_in(
    headers: AdminHeaders,
    token: Seq<char>,
    a: Seq<char>,
    b: Seq<char>,
)
    requires
        token.len() > 0,
        text_laws::blank(a),
        text_laws::blank(b),
        ({
            ||| headers.authorization matches Some(s) && text_laws::tight(token) && s@
                == "Bearer "@ + (a + token + b)
            ||| headers.x_admin_token matches Some(s) && s@ == token
        }),
    ensures
        service::is_admin(headers, token),
{
    text_laws::joined_texts("Bearer "@, a + token + b);
    if text_laws::tight(token) {
        text_laws::trimming_takes_white_space_only(a, token, b);
    }
}

/// Nobody is let in without the token, the whole token, in one of the two headers.
pub proof fn only_the_token_lets_in(headers: AdminHeaders, token: Seq<char>) -> (ends: (
    Seq<char>,
    Seq<char>,
))
    requires
        service::is_admin(headers, token),
    ensures
        token.len() > 0,
        text_laws::blank(ends.0),
        text_laws::blank(ends.1),
        ({
            ||| headers.authorization matches Some(s) && s@ == "Bearer "@ + (ends.0 + token
                + ends.1)
            ||| headers.x_admin_token matches Some(s) && s@ == token
        }),
{
    match headers.authorization {
        Some(s) => {
            let rest = s@.skip("Bearer "@.len() as int);
            let ends = text_laws::trimming_splits(rest);
            if text::starts_with(s@, "Bearer "@) {
                text_laws::beginning_splits(s@, "Bearer "@);
            }
            ends
        },
        None => (Seq::empty(), Seq::empty()),
    }
}

// ---------- The form ----------

/// A form is counted and goes on exactly where the trap is left alone and the address is one.
pub proof fn forms_that_are_counted(form: SubscribeForm)
    ensures
        service::form_refused(form) is None <==> text_laws::blank(form.website_url@)
            && service::is_email(form.email@),
{
    blank_is_nothing(form.website_url@);
    addresses_are_trimmed(form.email@);
    if service::is_email(form.email@) {
        let parts = nothing_else_is_an_address(form.email@);
        assert(text::trimmed(form.email@).len() > 0);
    }
}

/// Whoever walks into the trap is told that all went well, with whatever address; a form without an
/// address, or with none that can be one, is told so.
pub proof fn forms_that_are_turned_away(form: SubscribeForm)
    ensures
        !text_laws::blank(form.website_url@) ==> service::form_refused(form) == Some(
            service::ReplyView::Message {
                status: 200,
                ok: true,
                message: "Thanks! Please check your email to confirm."@,
            },
        ),
        text_laws::blank(form.website_url@) && text_laws::blank(form.email@)
            ==> service::form_refused(form) == Some(
            service::ReplyView::Message {
                status: 200,
                ok: false,
                message: "Please enter your email address."@,
            },
        ),
        text_laws::blank(form.website_url@) && !text_laws::blank(form.email@)
            && !service::is_email(form.email@) ==> service::form_refused(form) == Some(
            service::ReplyView::Message {
                status: 200,
                ok: false,
                message: "Please enter a valid email address."@,
            },
        ),
{
    blank_is_nothing(form.website_url@);
    blank_is_nothing(form.email@);
    addresses_are_trimmed(form.email@);
}

/// A form is handed to the judge exactly where its sender is within the limit, the secret is set and
/// an answer came with it; the judge gets these three as they are, and the address goes on without
/// the white space around it.
pub proof fn forms_that_are_judged(
    cfg: config::ConfigView,
    form: SubscribeForm,
    ip: Seq<char>,
    within_limit: bool,
)
    ensures
        ({
            let step = service::form_step(cfg, form, ip, within_limit);
            &&& step is Judge <==> within_limit && cfg.turnstile_secret.len() > 0
                && form.turnstile@.len() > 0
            &&& step matches service::SubscribeStepView::Judge(c) ==> {
                &&& c.secret == cfg.turnstile_secret
                &&& c.response == form.turnstile@
                &&& c.remoteip == ip
                &&& c.email == text::trimmed(form.email@)
            }
            &&& step matches service::SubscribeStepView::Reply(r) ==> {
                &&& r matches service::ReplyView::Message { status, ok, message }
                &&& !ok
                &&& !within_limit <==> status == 429
                &&& within_limit && cfg.turnstile_secret.len() == 0 <==> status == 500
                &&& within_limit && cfg.turnstile_secret.len() > 0 <==> status == 200
            }
        }),
{
}

/// What a refused form is told rests on the reason alone: not on who asks, nor on the address.
pub proof fn refusals_rest_on_the_reason(
    cfg: config::ConfigView,
    other: config::ConfigView,
    form: SubscribeForm,
    second: SubscribeForm,
    ip: Seq<char>,
    from: Seq<char>,
    within_limit: bool,
)
    requires
        service::form_step(cfg, form, ip, within_limit) is Reply,
        (cfg.turnstile_secret.len() > 0) == (other.turnstile_secret.len() > 0),
        (form.turnstile@.len() > 0) == (second.turnstile@.len() > 0),
    ensures
        service::form_step(other, second, from, within_limit) == service::form_step(
            cfg,
            form,
            ip,
            within_limit,
        ),
{
}

// ---------- The owner's composed mails ----------

/// A composed mail is refused where the sender is not the owner, the subject or the body is blank, or
/// the address to test it on is none, in this order; otherwise it goes out as it is, to the test
/// address alone where there is one.
pub proof fn composed_mails_that_go_out(
    admin: bool,
    subject: Seq<char>,
    body_html: Seq<char>,
    test_email: Seq<char>,
)
    ensures
        ({
            let step = service::send_html_step(admin, subject, body_html, test_email);
            let complete = admin && !text_laws::blank(subject) && !text_laws::blank(body_html);
            &&& step is Start <==> complete && text_laws::blank(test_email)
            &&& step is Test <==> complete && service::is_email(test_email)
            &&& step matches service::SendHtmlStepView::Start { subject: s, body_html: b, reply }
                ==> s == subject && b == body_html && reply is Started
            &&& step matches service::SendHtmlStepView::Test { to, subject: s, body_html: b } ==> s
                == subject && b == body_html && to == text::trimmed(test_email)
            &&& step matches service::SendHtmlStepView::Reply(r) ==> {
                &&& !admin <==> r is Error
                &&& !admin ==> r->Error_status == 401
                &&& admin ==> r is Message && r->Message_status == 400 && !r->ok
            }
        }),
{
    blank_is_nothing(subject);
    blank_is_nothing(body_html);
    blank_is_nothing(test_email);
    addresses_are_trimmed(test_email);
    if service::is_email(test_email) {
        let parts = nothing_else_is_an_address(test_email);
        assert(text::trimmed(test_email).len() > 0);
    }
}

/// The answer that a post is being sent names the post, whole, and is otherwise the same for all.
pub proof fn the_answer_names_the_post() -> (f: Seq<Seq<char>>)
    ensures
        f.len() == 2,
        forall|slug: Seq<char>| #[trigger]
            service::sending(slug) == (service::ReplyView::Started {
                message: f[0] + slug + f[1],
            }),
{
    let f = seq!["Sending \""@, "\" to confirmed subscribers."@];
    assert forall|slug: Seq<char>| #[trigger]
        service::sending(slug) == (service::ReplyView::Started {
            message: f[0] + slug + f[1],
        }) by {}
    f
}

/// A page that is answered has the status that it is given, and is the page with the title, the heading
/// and the body that it is given.
pub proof fn pages_carry_their_parts(
    status: u16,
    title: Seq<char>,
    heading: Seq<char>,
    body: Seq<char>,
)
    ensures
        service::page_reply(status, title, heading, body) matches service::ReplyView::Page {
            status: s,
            html,
        } && s == status && html == mail::page(title, heading, body),
{
}

/// Links without a token are turned away with status 400, and what cannot be stored is told with status
/// 500; all other pages have status 200. Whoever is not the owner gets status 401.
pub proof fn pages_have_their_status()
    ensures
        service::confirm_malformed()->Page_status == 400,
        service::unsubscribe_malformed()->Page_status == 400,
        service::confirm_broken()->Page_status == 500,
        service::unsubscribe_broken()->Page_status == 500,
        service::confirm_done()->Page_status == 200,
        service::confirm_used()->Page_status == 200,
        service::unsubscribe_done()->Page_status == 200,
        service::unsubscribe_unknown()->Page_status == 200,
        service::one_click_answer()->Text_status == 200,
        service::unauthorized()->Error_status == 401,
        service::went_wrong()->Message_status == 500,
        !service::went_wrong()->ok,
{
}

/// A good answer has status 200 and says `ok`; a bad one has the status that it is given and does
/// not. Both carry their message as it is.
pub proof fn answers_carry_their_message(status: u16, message: Seq<char>)
    ensures
        service::good(message) == (service::ReplyView::Message { status: 200, ok: true, message }),
        service::bad(status, message) == (service::ReplyView::Message {
            status,
            ok: false,
            message,
        }),
{
}

} // verus!
