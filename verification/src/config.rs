//! The settings of the service.
use vstd::prelude::*;
use vstd::string::*;

use crate::text;

verus! {

/// The list whose blog the settings describe, and to which whoever subscribes is added.
pub const DEFAULT_LIST: &'static str = "stephens";

/// The settings of the service.
#[derive(Debug)]
pub struct Config {
    pub addr: String,
    pub db_path: String,
    pub public_url: String,
    pub blog_url: String,
    pub blog_dir: String,
    pub resend_key: String,
    pub turnstile_secret: String,
    pub admin_token: String,
    pub from_email: String,
    pub from_name: String,
}

/// What the settings say.
#[verifier::ext_equal]
pub ghost struct ConfigView {
    pub addr: Seq<char>,
    pub db_path: Seq<char>,
    pub public_url: Seq<char>,
    pub blog_url: Seq<char>,
    pub blog_dir: Seq<char>,
    pub resend_key: Seq<char>,
    pub turnstile_secret: Seq<char>,
    pub admin_token: Seq<char>,
    pub from_email: Seq<char>,
    pub from_name: Seq<char>,
}

impl View for Config {
    type V = ConfigView;

    open spec fn view(&self) -> ConfigView {
        ConfigView {
            addr: self.addr@,
            db_path: self.db_path@,
            public_url: self.public_url@,
            blog_url: self.blog_url@,
            blog_dir: self.blog_dir@,
            resend_key: self.resend_key@,
            turnstile_secret: self.turnstile_secret@,
            admin_token: self.admin_token@,
            from_email: self.from_email@,
            from_name: self.from_name@,
        }
    }
}

/// The settings that belong to one list: its blog, and the sender of its mails.
#[derive(Debug)]
pub struct ListCfg {
    pub blog_url: String,
    pub blog_dir: String,
    pub from_email: String,
    pub from_name: String,
}

impl Config {
    /// The settings of the list that this service serves.
    pub fn list_cfg(&self) -> (r: ListCfg)
        ensures
            r.blog_url@ == self.blog_url@,
            r.blog_dir@ == self.blog_dir@,
            r.from_email@ == self.from_email@,
            r.from_name@ == self.from_name@,
    {
        ListCfg {
            blog_url: self.blog_url.clone(),
            blog_dir: self.blog_dir.clone(),
            from_email: self.from_email.clone(),
            from_name: self.from_name.clone(),
        }
    }
}

/// The environment variables that the service reads, each as far as it is set.
#[derive(Debug)]
pub struct EnvVars {
    pub newsletter_addr: Option<String>,
    pub newsletter_db: Option<String>,
    pub newsletter_public_url: Option<String>,
    pub newsletter_blog_url: Option<String>,
    pub newsletter_blog_dir: Option<String>,
    pub resend_api_key: Option<String>,
    pub smtp_pass: Option<String>,
    pub turnstile_secret: Option<String>,
    pub newsletter_admin_token: Option<String>,
    pub newsletter_from_email: Option<String>,
    pub newsletter_from_name: Option<String>,
}

/// The value of a variable, or a default.
pub open spec fn set_or(v: Option<String>, default: Seq<char>) -> Seq<char> {
    match v {
        Some(s) => s@,
        None => default,
    }
}

/// The value of a variable, or a default.
fn value_or(v: &Option<String>, default: &str) -> (r: String)
    ensures
        r@ == set_or(*v, default@),
{
    match v {
        Some(s) => s.clone(),
        None => default.to_owned(),
    }
}

/// The settings that the environment asks for.
pub open spec fn configured(env: EnvVars) -> ConfigView {
    ConfigView {
        addr: set_or(env.newsletter_addr, "127.0.0.1:3462"@),
        db_path: set_or(env.newsletter_db, "/var/lib/stephens-newsletter/newsletter.sqlite"@),
        public_url: set_or(env.newsletter_public_url, "https://newsletter.stephens.page"@),
        blog_url: set_or(env.newsletter_blog_url, "https://stephens.page/blog"@),
        blog_dir: set_or(env.newsletter_blog_dir, "/var/www/stephens.page/blog"@),
        resend_key: set_or(env.resend_api_key, set_or(env.smtp_pass, Seq::empty())),
        turnstile_secret: set_or(env.turnstile_secret, ""@),
        admin_token: set_or(env.newsletter_admin_token, ""@),
        from_email: set_or(env.newsletter_from_email, "jacob@stephens.page"@),
        from_name: set_or(env.newsletter_from_name, "Jacob Stephens"@),
    }
}

/// The settings that the environment asks for. The key of the mail provider may come under either
/// of two names; the first one wins.
pub fn config_from_env(env: &EnvVars) -> (r: Config)
    ensures
        r@ == configured(*env),
{
    let fallback: String = match &env.smtp_pass {
        Some(s) => s.clone(),
        None => String::new(),
    };
    Config {
        addr: value_or(&env.newsletter_addr, "127.0.0.1:3462"),
        db_path: value_or(&env.newsletter_db, "/var/lib/stephens-newsletter/newsletter.sqlite"),
        public_url: value_or(&env.newsletter_public_url, "https://newsletter.stephens.page"),
        blog_url: value_or(&env.newsletter_blog_url, "https://stephens.page/blog"),
        blog_dir: value_or(&env.newsletter_blog_dir, "/var/www/stephens.page/blog"),
        resend_key: value_or(&env.resend_api_key, fallback.as_str()),
        turnstile_secret: value_or(&env.turnstile_secret, ""),
        admin_token: value_or(&env.newsletter_admin_token, ""),
        from_email: value_or(&env.newsletter_from_email, "jacob@stephens.page"),
        from_name: value_or(&env.newsletter_from_name, "Jacob Stephens"),
    }
}

// ---------- The command line ----------

/// What the command line asks for.
#[derive(Debug)]
pub enum Command {
    /// Run the service.
    Serve,
    /// Send a post to the confirmed subscribers.
    Send { slug: String, force: bool },
    /// Say how the program is called.
    Usage,
}

/// What a `Command` says.
#[verifier::ext_equal]
pub ghost enum CommandView {
    Serve,
    Send { slug: Seq<char>, force: bool },
    Usage,
}

impl View for Command {
    type V = CommandView;

    open spec fn view(&self) -> CommandView {
        match self {
            Command::Serve => CommandView::Serve,
            Command::Send { slug, force } => CommandView::Send { slug: slug@, force: *force },
            Command::Usage => CommandView::Usage,
        }
    }
}

/// The first argument from place `from` on that is no option.
pub open spec fn first_plain(args: Seq<String>, from: int) -> Option<Seq<char>>
    decreases args.len() - from,
{
    if from >= args.len() {
        None
    } else if text::starts_with(args[from]@, "--"@) {
        first_plain(args, from + 1)
    } else {
        Some(args[from]@)
    }
}

/// What the command line asks for: with `send` behind the name of the program, to send the post
/// that the first further argument names which is no option, even if it was sent before where
/// `--force` stands anywhere; otherwise to run the service.
pub open spec fn asked(args: Seq<String>) -> CommandView {
    if args.len() > 1 && args[1]@ == "send"@ {
        match first_plain(args, 2) {
            Some(slug) => CommandView::Send {
                slug,
                force: exists|i: int|
                    0 <= i < args.len() && (#[trigger] args[i])@ == "--force"@,
            },
            None => CommandView::Usage,
        }
    } else {
        CommandView::Serve
    }
}

/// What the command line asks for.
pub fn parse_args(args: &Vec<String>) -> (r: Command)
    ensures
        r@ == asked(args@),
{
    if args.len() < 2 || !text::same(args[1].as_str(), "send") {
        return Command::Serve;
    }
    let mut force: bool = false;
    let mut i: usize = 0;
    while i < args.len()
        invariant
            i <= args@.len(),
            force == exists|j: int| 0 <= j < i && (#[trigger] args@[j])@ == "--force"@,
        decreases args@.len() - i,
    {
        if text::same(args[i].as_str(), "--force") {
            force = true;
        }
        i += 1;
    }
    let mut i: usize = 2;
    while i < args.len()
        invariant
            2 <= i <= args@.len(),
            args@.len() > 1,
            args@[1]@ == "send"@,
            first_plain(args@, i as int) == first_plain(args@, 2),
            force == exists|j: int| 0 <= j < args@.len() && (#[trigger] args@[j])@ == "--force"@,
        decreases args@.len() - i,
    {
        if !text::begins_with(args[i].as_str(), "--") {
            return Command::Send { slug: args[i].clone(), force };
        }
        i += 1;
    }
    Command::Usage
}

} // verus!
