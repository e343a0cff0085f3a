//! How escaping a text for HTML and taking the entities out of it go together.
use vstd::prelude::*;

use crate::mail;
use crate::posts;
use crate::text;

verus! {

/// A text, each character of which is written in some way.
spec fn spelled(s: Seq<char>, m: spec_fn(char) -> Seq<char>) -> Seq<char>
    decreases s.len(),
{
    if s.len() == 0 {
        Seq::empty()
    } else {
        m(s[0]) + spelled(s.skip(1), m)
    }
}

/// What one more character adds.
proof fn spelled_push(s: Seq<char>, c: char, m: spec_fn(char) -> Seq<char>)
    ensures
        spelled(s.push(c), m) == spelled(s, m) + m(c),
    decreases s.len(),
{
    if s.len() == 0 {
        reveal_with_fuel(spelled, 2);
        assert(s.push(c).skip(1) =~= Seq::<char>::empty());
        assert(s.push(c)[0] == c);
        assert(spelled(s.push(c), m) =~= m(c));
    } else {
        assert(s.push(c).skip(1) =~= s.skip(1).push(c));
        spelled_push(s.skip(1), c, m);
        assert(m(s[0]) + (spelled(s.skip(1), m) + m(c)) =~= m(s[0]) + spelled(s.skip(1), m) + m(
            c,
        ));
    }
}

/// To escape a text is to write each of its characters as an entity, where it has one.
proof fn escaped_is_spelled(s: Seq<char>)
    ensures
        mail::escaped(s) == spelled(s, |c: char| mail::entity(c)),
    decreases s.len(),
{
    if s.len() > 0 {
        escaped_is_spelled(s.drop_last());
        spelled_push(s.drop_last(), s.last(), |c: char| mail::entity(c));
        assert(s.drop_last().push(s.last()) =~= s);
    }
}

/// A text that starts with `&` and has no other.
spec fn is_entity(e: Seq<char>) -> bool {
    &&& e.len() >= 2
    &&& e[0] == '&'
    &&& forall|i: int| 1 <= i < e.len() ==> e[i] != '&'
}

/// Each character stands for itself or is written as an entity.
spec fn is_spelling(m: spec_fn(char) -> Seq<char>) -> bool {
    forall|c: char| #[trigger] m(c) == seq![c] || is_entity(m(c))
}

/// Where a text as written begins with characters other than `&`, so does the text itself.
proof fn plain_front(s: Seq<char>, m: spec_fn(char) -> Seq<char>, w: Seq<char>)
    requires
        is_spelling(m),
        forall|i: int| 0 <= i < w.len() ==> w[i] != '&',
        text::starts_with(spelled(s, m), w),
    ensures
        text::starts_with(s, w),
    decreases w.len(),
{
    if w.len() > 0 {
        let written = spelled(s, m);
        assert(written.subrange(0, w.len() as int)[0] == w[0]);
        assert(s.len() > 0);
        let rest = s.skip(1);
        assert(m(s[0]) == seq![s[0]] || is_entity(m(s[0])));
        assert(written[0] == m(s[0])[0]);
        assert(m(s[0]) == seq![s[0]]);
        assert(spelled(rest, m) =~= written.skip(1));
        assert(spelled(rest, m).subrange(0, w.len() - 1) =~= written.subrange(
            0,
            w.len() as int,
        ).skip(1));
        plain_front(rest, m, w.skip(1));
        assert(s.subrange(0, w.len() as int) =~= seq![s[0]] + rest.subrange(0, w.len() - 1));
        assert(w =~= seq![w[0]] + w.skip(1));
    } else {
        assert(s.subrange(0, 0) =~= w);
    }
}

/// An entity other than `p` stays as it is when `p` is replaced.
proof fn entity_is_passed(e: Seq<char>, k: int, tail: Seq<char>, p: Seq<char>, with: Seq<char>)
    requires
        is_entity(e),
        is_entity(p),
        e[1] != p[1],
        0 <= k <= e.len(),
    ensures
        text::replaced(e.skip(k) + tail, p, with) == e.skip(k) + text::replaced(tail, p, with),
    decreases e.len() - k,
{
    let here = e.skip(k) + tail;
    if k == e.len() {
        assert(here =~= tail);
        assert(e.skip(k) + text::replaced(tail, p, with) =~= text::replaced(tail, p, with));
    } else {
        assert(!text::starts_with(here, p)) by {
            if text::starts_with(here, p) {
                assert(here.subrange(0, p.len() as int)[0] == p[0]);
                assert(here.subrange(0, p.len() as int)[1] == p[1]);
                assert(here[0] == e[k]);
            }
        }
        entity_is_passed(e, k + 1, tail, p, with);
        assert(here.skip(1) =~= e.skip(k + 1) + tail);
        assert(seq![e[k]] + (e.skip(k + 1) + text::replaced(tail, p, with)) =~= e.skip(k)
            + text::replaced(tail, p, with));
    }
}

/// A text whose first characters stand for themselves.
proof fn spelled_behind(w: Seq<char>, t: Seq<char>, m: spec_fn(char) -> Seq<char>)
    requires
        forall|i: int| 0 <= i < w.len() ==> m(#[trigger] w[i]) == seq![w[i]],
    ensures
        spelled(w + t, m) == w + spelled(t, m),
    decreases w.len(),
{
    if w.len() == 0 {
        assert(w + t =~= t);
        assert(w + spelled(t, m) =~= spelled(t, m));
    } else {
        let rest = w.skip(1);
        assert forall|i: int| 0 <= i < rest.len() implies m(#[trigger] rest[i]) == seq![rest[i]] by {
            assert(rest[i] == w[i + 1]);
        }
        spelled_behind(rest, t, m);
        assert((w + t).skip(1) =~= rest + t);
        assert((w + t)[0] == w[0]);
        assert(seq![w[0]] + (rest + spelled(t, m)) =~= w + spelled(t, m));
    }
}

/// The text that is left when the entity of `ch` is replaced in a text as written: where `&` stands
/// for itself, an entity that the text holds goes too.
spec fn left_over(s: Seq<char>, m: spec_fn(char) -> Seq<char>, ch: char) -> Seq<char> {
    if m('&') == seq!['&'] {
        text::replaced(s, m(ch), seq![ch])
    } else {
        s
    }
}

/// To replace the entity of one character by the character is to write that character as itself,
/// in the text that is left over.
proof fn one_entity_undone(
    s: Seq<char>,
    m: spec_fn(char) -> Seq<char>,
    after: spec_fn(char) -> Seq<char>,
    ch: char,
)
    requires
        is_spelling(m),
        is_entity(m(ch)),
        forall|i: int| 1 <= i < m(ch).len() ==> m(#[trigger] m(ch)[i]) == seq![m(ch)[i]],
        forall|c: char| c != ch ==> #[trigger] m(c) == seq![c] || m(c)[1] != m(ch)[1],
        forall|c: char|
            #[trigger] after(c) == if c == ch {
                seq![c]
            } else {
                m(c)
            },
    ensures
        text::replaced(spelled(s, m), m(ch), seq![ch]) == spelled(left_over(s, m, ch), after),
    decreases s.len(),
{
    let p = m(ch);
    let raw = m('&') == seq!['&'];
    let with = seq![ch];
    if s.len() > 0 {
        let c = s[0];
        let rest = s.skip(1);
        let tail = spelled(rest, m);
        let written = spelled(s, m);
        assert(after(ch) == with);
        if raw && text::starts_with(s, p) {
            let t = s.skip(p.len() as int);
            assert(s =~= p + t);
            assert forall|i: int| 0 <= i < p.len() implies m(#[trigger] p[i]) == seq![p[i]] by {}
            spelled_behind(p, t, m);
            one_entity_undone(t, m, after, ch);
            assert(written.subrange(0, p.len() as int) =~= p);
            assert(written.skip(p.len() as int) =~= spelled(t, m));
            let left = left_over(s, m, ch);
            assert(left == with + left_over(t, m, ch));
            assert(left.skip(1) =~= left_over(t, m, ch));
        } else {
            one_entity_undone(rest, m, after, ch);
            let left = left_over(s, m, ch);
            assert(left =~= seq![c] + left_over(rest, m, ch));
            assert(left.skip(1) =~= left_over(rest, m, ch));
            assert(after(c) == if c == ch {
                seq![c]
            } else {
                m(c)
            });
            if c == ch {
                assert(written.subrange(0, p.len() as int) =~= p);
                assert(written.skip(p.len() as int) =~= tail);
            } else if m(c) == seq![c] {
                assert(!text::starts_with(written, p)) by {
                    if text::starts_with(written, p) {
                        assert(written.subrange(0, p.len() as int)[0] == p[0]);
                        assert(c == '&');
                        assert(tail.subrange(0, p.len() - 1) =~= written.subrange(
                            0,
                            p.len() as int,
                        ).skip(1));
                        plain_front(rest, m, p.skip(1));
                        assert(s.subrange(0, p.len() as int) =~= seq![c] + rest.subrange(
                            0,
                            p.len() - 1,
                        ));
                        assert(p =~= seq!['&'] + p.skip(1));
                    }
                }
                assert(written.skip(1) =~= tail);
            } else {
                assert(is_entity(m(c)));
                entity_is_passed(m(c), 0, tail, p, with);
                assert(m(c).skip(0) =~= m(c));
            }
        }
    }
}

/// How a character is written after the first `k` of the five entities were undone, in the order in
/// which that is done.
spec fn partly(k: int, c: char) -> Seq<char> {
    if (k >= 1 && c == '&') || (k >= 2 && c == '"') || (k >= 3 && c == '\'') || (k >= 4 && c
        == '<') || (k >= 5 && c == '>') {
        seq![c]
    } else {
        mail::entity(c)
    }
}

/// A text that holds no entity but `&amp;`.
pub open spec fn holds_no_entity(s: Seq<char>) -> bool {
    forall|i: int|
        0 <= i < s.len() ==> {
            &&& !(#[trigger] text::occurs_at(s, "&quot;"@, i))
            &&& !text::occurs_at(s, "&#39;"@, i)
            &&& !text::occurs_at(s, "&lt;"@, i)
            &&& !text::occurs_at(s, "&gt;"@, i)
        }
}

/// A text without the four entities other than `&amp;`, which are undone one after the other.
pub open spec fn without_entities(s: Seq<char>) -> Seq<char> {
    let a = text::replaced(s, "&quot;"@, "\""@);
    let b = text::replaced(a, "&#39;"@, "'"@);
    let c = text::replaced(b, "&lt;"@, "<"@);
    text::replaced(c, "&gt;"@, ">"@)
}

/// To take the entities out of an escaped text takes out those that the text itself holds, other
/// than `&amp;`, and nothing else.
pub proof fn unescaping_an_escaped_text(s: Seq<char>)
    ensures
        posts::unescaped(mail::escaped(s)) == without_entities(s),
{
    reveal_strlit("&amp;");
    reveal_strlit("&lt;");
    reveal_strlit("&gt;");
    reveal_strlit("&quot;");
    reveal_strlit("&#39;");
    reveal_strlit("&");
    reveal_strlit("\"");
    reveal_strlit("'");
    reveal_strlit("<");
    reveal_strlit(">");
    let m0 = |c: char| partly(0, c);
    let m1 = |c: char| partly(1, c);
    let m2 = |c: char| partly(2, c);
    let m3 = |c: char| partly(3, c);
    let m4 = |c: char| partly(4, c);
    let m5 = |c: char| partly(5, c);
    escaped_is_spelled(s);
    assert(m0 =~= |c: char| mail::entity(c));
    assert(forall|c: char| is_entity(#[trigger] mail::entity(c)) || mail::entity(c) == seq![c]);
    assert("&"@ =~= seq!['&']);
    assert("\""@ =~= seq!['"']);
    assert("'"@ =~= seq!['\'']);
    assert("<"@ =~= seq!['<']);
    assert(">"@ =~= seq!['>']);
    let a = text::replaced(s, "&quot;"@, "\""@);
    let b = text::replaced(a, "&#39;"@, "'"@);
    let c = text::replaced(b, "&lt;"@, "<"@);
    one_entity_undone(s, m0, m1, '&');
    one_entity_undone(s, m1, m2, '"');
    one_entity_undone(a, m2, m3, '\'');
    one_entity_undone(b, m3, m4, '<');
    one_entity_undone(c, m4, m5, '>');
    spelled_plainly(without_entities(s), m5);
}

/// To replace a text by a shorter one makes what it stands in shorter, or finds nothing to replace.
proof fn replacing_shortens(s: Seq<char>, p: Seq<char>, with: Seq<char>)
    requires
        with.len() < p.len(),
    ensures
        text::replaced(s, p, with).len() <= s.len(),
        text::replaced(s, p, with).len() == s.len() ==> text::replaced(s, p, with) == s,
        text::replaced(s, p, with).len() == s.len() <==> forall|i: int|
            0 <= i < s.len() ==> !#[trigger] text::occurs_at(s, p, i),
    decreases s.len(),
{
    if s.len() > 0 {
        if text::starts_with(s, p) {
            let t = s.skip(p.len() as int);
            replacing_shortens(t, p, with);
            assert(text::occurs_at(s, p, 0));
        } else {
            let rest = s.skip(1);
            replacing_shortens(rest, p, with);
            assert(seq![s[0]] + rest =~= s);
            assert forall|i: int| 0 <= i < rest.len() implies text::occurs_at(rest, p, i)
                == #[trigger] text::occurs_at(s, p, i + 1) by {
                if i + p.len() <= rest.len() {
                    assert(rest.subrange(i, i + p.len()) =~= s.subrange(i + 1, i + 1 + p.len()));
                }
            }
            assert(!text::occurs_at(s, p, 0));
            if forall|i: int| 0 <= i < rest.len() ==> !#[trigger] text::occurs_at(rest, p, i) {
                assert forall|i: int| 0 <= i < s.len() implies !#[trigger] text::occurs_at(
                    s,
                    p,
                    i,
                ) by {
                    if i > 0 {
                        assert(!text::occurs_at(rest, p, i - 1));
                        assert(text::occurs_at(rest, p, i - 1) == text::occurs_at(
                            s,
                            p,
                            i - 1 + 1,
                        ));
                    }
                }
            } else {
                let i = choose|i: int| 0 <= i < rest.len() && #[trigger] text::occurs_at(rest, p, i);
                assert(text::occurs_at(s, p, i + 1));
            }
        }
    }
}

/// A text stays as it is without its entities where it holds none, and only there.
proof fn entities_show(s: Seq<char>)
    ensures
        without_entities(s) == s <==> holds_no_entity(s),
{
    reveal_strlit("&lt;");
    reveal_strlit("&gt;");
    reveal_strlit("&quot;");
    reveal_strlit("&#39;");
    reveal_strlit("\"");
    reveal_strlit("'");
    reveal_strlit("<");
    reveal_strlit(">");
    let a = text::replaced(s, "&quot;"@, "\""@);
    let b = text::replaced(a, "&#39;"@, "'"@);
    let c = text::replaced(b, "&lt;"@, "<"@);
    replacing_shortens(s, "&quot;"@, "\""@);
    replacing_shortens(a, "&#39;"@, "'"@);
    replacing_shortens(b, "&lt;"@, "<"@);
    replacing_shortens(c, "&gt;"@, ">"@);
    if holds_no_entity(s) {
        assert forall|i: int| 0 <= i < s.len() implies {
            &&& !text::occurs_at(s, "&quot;"@, i)
            &&& !text::occurs_at(s, "&#39;"@, i)
            &&& !text::occurs_at(s, "&lt;"@, i)
            &&& !text::occurs_at(s, "&gt;"@, i)
        } by {
            assert(!text::occurs_at(s, "&quot;"@, i));
        }
    }
}

/// To take the entities out of an escaped text gives the text back, unless the text itself holds an
/// entity.
pub proof fn unescaping_undoes_escaping(s: Seq<char>)
    requires
        holds_no_entity(s),
    ensures
        posts::unescaped(mail::escaped(s)) == s,
{
    unescaping_an_escaped_text(s);
    entities_show(s);
}

/// A text that itself holds an entity other than `&amp;` does not come back when it is escaped and
/// the entities are taken out.
pub proof fn unescaping_loses_entities(s: Seq<char>)
    requires
        !holds_no_entity(s),
    ensures
        posts::unescaped(mail::escaped(s)) != s,
{
    unescaping_an_escaped_text(s);
    entities_show(s);
}

/// A text each character of which stands for itself.
proof fn spelled_plainly(s: Seq<char>, m: spec_fn(char) -> Seq<char>)
    requires
        forall|c: char| #[trigger] m(c) == seq![c],
    ensures
        spelled(s, m) == s,
    decreases s.len(),
{
    if s.len() > 0 {
        spelled_plainly(s.skip(1), m);
        assert(seq![s[0]] + s.skip(1) =~= s);
    }
}

} // verus!
