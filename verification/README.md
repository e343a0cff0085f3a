# newsletter

A self-hosted, double opt-in newsletter service. It backs the subscribe form of a blog: it records
who asks to subscribe, mails a confirmation link, and sends new posts to confirmed subscribers only,
each with a one-click unsubscribe (RFC 8058).

The rules of the service are a library, verified with Verus. Around it stands a thin program (Axum,
SQLite, the Resend API, Cloudflare Turnstile).

## Layout

| Path | What it is |
| --- | --- |
| `src/tables.rs` | the two tables, and the journal of changes to store |
| `src/db.rs` | the rules for subscribers and sends |
| `src/service.rs` | what each request is answered, and what it does |
| `src/send.rs` | sending posts and composed mails |
| `src/posts.rs` | reading posts from the pages of a blog |
| `src/mail.rs` | the mails and pages, and the mail provider's answers |
| `src/limiter.rs` | the limit on requests to subscribe |
| `src/tokens.rs`, `src/clock.rs`, `src/json.rs` | tokens, the time, JSON answers |
| `src/config.rs` | settings and the command line |
| `src/text.rs` | operations on text |
| `src/laws.rs`, `src/escaping.rs` | what holds of the service as a whole |
| `tests/` | the tests of the library |
| `app/` | the program: handlers, storage, network |

The program loads the tables, lets the library do what a request asks for, and stores the changes
that the library lists, in one transaction. Replaying those changes on the loaded tables gives the
library's tables: that is part of the invariant of `Database`.

## Command line

```
newsletter                         run the service
newsletter send <slug> [--force]   send a post; twice only with --force
```

## Configuration (environment)

| Variable | Default |
| --- | --- |
| `NEWSLETTER_ADDR` | `127.0.0.1:3462` |
| `NEWSLETTER_DB` | `/var/lib/stephens-newsletter/newsletter.sqlite` |
| `NEWSLETTER_PUBLIC_URL` | `https://newsletter.stephens.page` |
| `NEWSLETTER_BLOG_URL` | `https://stephens.page/blog` |
| `NEWSLETTER_BLOG_DIR` | `/var/www/stephens.page/blog` |
| `NEWSLETTER_FROM_EMAIL`, `NEWSLETTER_FROM_NAME` | `jacob@stephens.page`, `Jacob Stephens` |
| `TURNSTILE_SECRET` | none |
| `NEWSLETTER_ADMIN_TOKEN` | none; without it the admin API is closed |
| `RESEND_API_KEY`, or else `SMTP_PASS` | none |
