//! What the environment and the command line ask for, variable by variable and word by word.
use vstd::prelude::*;

use crate::config;
use crate::config::EnvVars;
use crate::text;
use crate::text_laws;

verus! {

// ---------- The command line ----------

/// An argument that is an option: it begins with two hyphens.
pub open spec fn is_option(arg: Seq<char>) -> bool {
    arg.len() >= 2 && arg[0] == '-' && arg[1] == '-'
}

/// An option is what begins with `--`.
proof fn options_begin_with_hyphens(arg: Seq<char>)
    ensures
        text::starts_with(arg, "--"@) == is_option(arg),
{
    reveal_strlit("--");
    text_laws::standing_at_a_place(arg, "--"@, 0);
    if text::starts_with(arg, "--"@) {
        assert(arg[0int + 0] == "--"@[0]);
        assert(arg[0int + 1] == "--"@[1]);
    }
    if is_option(arg) {
        assert forall|k: int| 0 <= k < "--"@.len() implies arg[0 + k] == #[trigger] "--"@[k] by {}
    }
}

/// Where `first_plain` finds an argument, all between are options; where it finds none, all are.
proof fn first_plain_is_first(args: Seq<String>, from: int) -> (k: int)
    requires
        0 <= from <= args.len(),
    ensures
        from <= k <= args.len(),
        forall|i: int| from <= i < k ==> is_option(#[trigger] args[i]@),
        k < args.len() ==> !is_option(args[k]@) && config::first_plain(args, from) == Some(
            args[k]@,
        ),
        k == args.len() ==> config::first_plain(args, from) is None,
    decreases args.len() - from,
{
    if from == args.len() {
        from
    } else {
        options_begin_with_hyphens(args[from]@);
        if is_option(args[from]@) {
            first_plain_is_first(args, from + 1)
        } else {
            from
        }
    }
}

/// The program sends exactly where its first argument is `send` and a further one is no option; it
/// explains itself where all further ones are options, and serves otherwise.
pub proof fn when_the_program_sends(args: Seq<String>)
    ensures
        ({
            let send = args.len() >= 2 && args[1]@ == "send"@;
            let named = exists|i: int| 2 <= i < args.len() && !is_option(#[trigger] args[i]@);
            &&& config::asked(args) is Serve <==> !send
            &&& config::asked(args) is Send <==> send && named
            &&& config::asked(args) is Usage <==> send && !named
        }),
{
    if args.len() >= 2 {
        let k = first_plain_is_first(args, 2);
        if k < args.len() {
            assert(!is_option(args[k]@));
        }
    }
}

/// The post is the first argument behind `send` that is no option, whatever options stand before it.
pub proof fn the_post_that_is_sent(args: Seq<String>, i: int)
    requires
        args.len() >= 2,
        args[1]@ == "send"@,
        2 <= i < args.len(),
        !is_option(args[i]@),
        forall|j: int| 2 <= j < i ==> is_option(#[trigger] args[j]@),
    ensures
        config::asked(args) matches config::CommandView::Send { slug, force } && slug == args[i]@,
{
    let k = first_plain_is_first(args, 2);
    if k < i {
        assert(is_option(args[k]@));
    }
    if i < k {
        assert(is_option(args[i]@));
    }
}

/// A send is forced exactly where some argument, at any place whatever, is `--force`.
pub proof fn force_counts_at_any_place(args: Seq<String>)
    ensures
        config::asked(args) matches config::CommandView::Send { slug, force } ==> (force <==> exists|
            i: int,
        |
            0 <= i < args.len() && (#[trigger] args[i])@ == "--force"@),
{
}

/// To append `--force` to a send makes it a forced send of the same post; and to append anything to
/// a send leaves its post as it is.
pub proof fn appending_to_a_send(args: Seq<String>, more: String)
    requires
        config::asked(args) is Send,
    ensures
        config::asked(args.push(more)) is Send,
        config::asked(args.push(more))->slug == config::asked(args)->slug,
        more@ == "--force"@ ==> config::asked(args.push(more))->force,
        more@ != "--force"@ ==> config::asked(args.push(more))->force == config::asked(args)->force,
{
    let all = args.push(more);
    let k = first_plain_is_first(args, 2);
    assert(all[1] == args[1]);
    assert(all[k] == args[k]);
    assert forall|j: int| 2 <= j < k implies is_option(#[trigger] all[j]@) by {
        assert(all[j] == args[j]);
    }
    the_post_that_is_sent(all, k);
    force_counts_at_any_place(all);
    force_counts_at_any_place(args);
    if more@ == "--force"@ {
        assert(all[args.len() as int]@ == "--force"@);
    } else {
        if config::asked(args)->force {
            let i = choose|i: int| 0 <= i < args.len() && (#[trigger] args[i])@ == "--force"@;
            assert(all[i]@ == "--force"@);
        }
        if config::asked(all)->force {
            let i = choose|i: int| 0 <= i < all.len() && (#[trigger] all[i])@ == "--force"@;
            assert(args[i]@ == "--force"@);
        }
    }
}

// ---------- The environment ----------

/// Two variables are set alike: both to the same text, or neither.
pub open spec fn set_alike(a: Option<String>, b: Option<String>) -> bool {
    text::opt_view(a) == text::opt_view(b)
}

/// A variable that is set gives its setting, as it is.
pub proof fn what_is_set_stands(env: EnvVars)
    ensures
        ({
            let c = config::configured(env);
            &&& env.newsletter_addr matches Some(v) ==> c.addr == v@
            &&& env.newsletter_db matches Some(v) ==> c.db_path == v@
            &&& env.newsletter_public_url matches Some(v) ==> c.public_url == v@
            &&& env.newsletter_blog_url matches Some(v) ==> c.blog_url == v@
            &&& env.newsletter_blog_dir matches Some(v) ==> c.blog_dir == v@
            &&& env.turnstile_secret matches Some(v) ==> c.turnstile_secret == v@
            &&& env.newsletter_admin_token matches Some(v) ==> c.admin_token == v@
            &&& env.newsletter_from_email matches Some(v) ==> c.from_email == v@
            &&& env.newsletter_from_name matches Some(v) ==> c.from_name == v@
            &&& env.resend_api_key matches Some(v) ==> c.resend_key == v@
            &&& env.resend_api_key is None ==> (env.smtp_pass matches Some(v) ==> c.resend_key
                == v@)
            &&& env.resend_api_key is None && env.smtp_pass is None ==> c.resend_key.len() == 0
        }),
{
}

/// Each setting rests on its own variable alone; the key of the mail provider rests on its two.
pub proof fn settings_do_not_mix(a: EnvVars, b: EnvVars)
    ensures
        ({
            let c = config::configured(a);
            let d = config::configured(b);
            &&& set_alike(a.newsletter_addr, b.newsletter_addr) ==> c.addr == d.addr
            &&& set_alike(a.newsletter_db, b.newsletter_db) ==> c.db_path == d.db_path
            &&& set_alike(a.newsletter_public_url, b.newsletter_public_url) ==> c.public_url
                == d.public_url
            &&& set_alike(a.newsletter_blog_url, b.newsletter_blog_url) ==> c.blog_url
                == d.blog_url
            &&& set_alike(a.newsletter_blog_dir, b.newsletter_blog_dir) ==> c.blog_dir
                == d.blog_dir
            &&& set_alike(a.turnstile_secret, b.turnstile_secret) ==> c.turnstile_secret
                == d.turnstile_secret
            &&& set_alike(a.newsletter_admin_token, b.newsletter_admin_token) ==> c.admin_token
                == d.admin_token
            &&& set_alike(a.newsletter_from_email, b.newsletter_from_email) ==> c.from_email
                == d.from_email
            &&& set_alike(a.newsletter_from_name, b.newsletter_from_name) ==> c.from_name
                == d.from_name
            &&& set_alike(a.resend_api_key, b.resend_api_key) && set_alike(
                a.smtp_pass,
                b.smtp_pass,
            ) ==> c.resend_key == d.resend_key
        }),
{
}

/// Without a variable for it, the token of the owner and the secret for challenges are empty.
pub proof fn secrets_have_no_default(env: EnvVars)
    ensures
        env.newsletter_admin_token is None ==> config::configured(env).admin_token.len() == 0,
        env.turnstile_secret is None ==> config::configured(env).turnstile_secret.len() == 0,
{
    reveal_strlit("");
}

} // verus!
