use newsletter::config::{config_from_env, parse_args, Command, EnvVars, DEFAULT_LIST};

fn nothing_set() -> EnvVars {
    EnvVars {
        newsletter_addr: None,
        newsletter_db: None,
        newsletter_public_url: None,
        newsletter_blog_url: None,
        newsletter_blog_dir: None,
        resend_api_key: None,
        smtp_pass: None,
        turnstile_secret: None,
        newsletter_admin_token: None,
        newsletter_from_email: None,
        newsletter_from_name: None,
    }
}

#[test]
fn defaults_stand_where_nothing_is_set() {
    let c = config_from_env(&nothing_set());
    assert_eq!(c.addr, "127.0.0.1:3462");
    assert_eq!(c.db_path, "/var/lib/stephens-newsletter/newsletter.sqlite");
    assert_eq!(c.public_url, "https://newsletter.stephens.page");
    assert_eq!(c.blog_url, "https://stephens.page/blog");
    assert_eq!(c.blog_dir, "/var/www/stephens.page/blog");
    assert_eq!(c.resend_key, "");
    assert_eq!(c.turnstile_secret, "");
    assert_eq!(c.admin_token, "");
    assert_eq!(c.from_email, "jacob@stephens.page");
    assert_eq!(c.from_name, "Jacob Stephens");
    assert_eq!(DEFAULT_LIST, "stephens");
}

#[test]
fn what_is_set_stands() {
    let mut e = nothing_set();
    e.newsletter_addr = Some("a".to_string());
    e.newsletter_blog_dir = Some("".to_string());
    e.smtp_pass = Some("p".to_string());
    let c = config_from_env(&e);
    assert_eq!(c.addr, "a");
    assert_eq!(c.blog_dir, "");
    assert_eq!(c.resend_key, "p");
    e.resend_api_key = Some("k".to_string());
    assert_eq!(config_from_env(&e).resend_key, "k");
    e.resend_api_key = Some("".to_string());
    assert_eq!(config_from_env(&e).resend_key, "");
    e.newsletter_from_name = Some("N".to_string());
    let lc = config_from_env(&e).list_cfg();
    assert_eq!(lc.from_name, "N");
    assert_eq!(lc.from_email, "jacob@stephens.page");
    assert_eq!(lc.blog_url, "https://stephens.page/blog");
}

fn args(a: &[&str]) -> Vec<String> {
    a.iter().map(|s| s.to_string()).collect()
}

#[test]
fn without_send_the_service_runs() {
    assert!(matches!(parse_args(&args(&[])), Command::Serve));
    assert!(matches!(parse_args(&args(&["newsletter"])), Command::Serve));
    assert!(matches!(parse_args(&args(&["newsletter", "serve", "send"])), Command::Serve));
}

#[test]
fn a_send_names_a_post() {
    match parse_args(&args(&["newsletter", "send", "--x", "a-post", "b"])) {
        Command::Send { slug, force } => {
            assert_eq!(slug, "a-post");
            assert!(!force);
        }
        _ => panic!("no send"),
    }
    match parse_args(&args(&["newsletter", "send", "--force", "a-post"])) {
        Command::Send { slug, force } => {
            assert_eq!(slug, "a-post");
            assert!(force);
        }
        _ => panic!("no send"),
    }
    match parse_args(&args(&["--force", "send", "p"])) {
        Command::Send { force, .. } => assert!(force),
        _ => panic!("no send"),
    }
}

#[test]
fn a_send_without_a_post_is_explained() {
    assert!(matches!(parse_args(&args(&["newsletter", "send"])), Command::Usage));
    assert!(matches!(parse_args(&args(&["newsletter", "send", "--force"])), Command::Usage));
}
