//! What the operations on text give, said place by place.
use vstd::prelude::*;
use vstd::utf8::encode_utf8;

use crate::text;

verus! {

// ---------- Addresses ----------

/// A text does not hold a character.
pub open spec fn free_of(s: Seq<char>, c: char) -> bool {
    forall|i: int| 0 <= i < s.len() ==> #[trigger] s[i] != c
}

/// The two characters are the same, or the same ASCII letter in different case.
pub open spec fn same_letter(a: char, b: char) -> bool {
    ||| a == b
    ||| ('A' <= a <= 'Z' && b as u32 == a as u32 + 32)
    ||| ('A' <= b <= 'Z' && a as u32 == b as u32 + 32)
}

/// Two characters have the same small letter where they are the same letter.
proof fn letters_compared(a: char, b: char)
    ensures
        text::lower(a) == text::lower(b) <==> same_letter(a, b),
{
}

/// Texts that agree place by place, up to the case of ASCII letters, take the same number of bytes.
proof fn as_many_bytes(a: Seq<char>, b: Seq<char>)
    requires
        a.len() == b.len(),
        forall|i: int| 0 <= i < a.len() ==> same_letter(#[trigger] a[i], b[i]),
    ensures
        encode_utf8(a).len() == encode_utf8(b).len(),
    decreases a.len(),
{
    if a.len() > 0 {
        let x = a.drop_first();
        let y = b.drop_first();
        assert forall|i: int| 0 <= i < x.len() implies same_letter(#[trigger] x[i], y[i]) by {
            assert(same_letter(a[i + 1], b[i + 1]));
        }
        as_many_bytes(x, y);
        assert(same_letter(a[0], b[0]));
    }
}

/// Two texts without a NUL are alike exactly where they are of one length and hold the same letters
/// at all places, up to the case of ASCII letters.
pub proof fn alike_place_by_place(a: Seq<char>, b: Seq<char>)
    requires
        free_of(a, '\0'),
        free_of(b, '\0'),
    ensures
        text::alike(a, b) <==> a.len() == b.len() && forall|i: int|
            0 <= i < a.len() ==> same_letter(#[trigger] a[i], b[i]),
{
    front_of_free(a, '\0');
    front_of_free(b, '\0');
    assert forall|i: int| 0 <= i < a.len() && i < b.len() implies (text::lower(a[i]) == text::lower(
        b[i],
    )) == same_letter(#[trigger] a[i], b[i]) by {
        letters_compared(a[i], b[i]);
    }
    if a.len() == b.len() && forall|i: int|
        0 <= i < a.len() ==> same_letter(#[trigger] a[i], b[i]) {
        as_many_bytes(a, b);
    }
}

/// Texts that are alike agree at every place in front of the first NUL of either, and take the same
/// number of bytes.
pub proof fn alike_in_front_of_a_nul(a: Seq<char>, b: Seq<char>, i: int)
    requires
        text::alike(a, b),
        0 <= i < a.len(),
        free_of(a.take(i + 1), '\0'),
    ensures
        i < b.len(),
        same_letter(a[i], b[i]),
        encode_utf8(a).len() == encode_utf8(b).len(),
{
    let x = text::before_first(a, '\0');
    let y = text::before_first(b, '\0');
    front_is_front(a, '\0');
    front_is_front(b, '\0');
    if x.len() <= i {
        assert(a.take(i + 1)[x.len() as int] == '\0');
    }
    assert(x[i] == a[i]);
    assert(text::lower(x[i]) == text::lower(y[i]));
    letters_compared(x[i], y[i]);
}

/// What stands behind a NUL at the same place does not matter, but for the number of bytes.
pub proof fn alike_whatever_follows_a_nul(
    a: Seq<char>,
    b: Seq<char>,
    x: Seq<char>,
    y: Seq<char>,
)
    requires
        free_of(a, '\0'),
        a.len() == b.len(),
        forall|i: int| 0 <= i < a.len() ==> same_letter(#[trigger] a[i], b[i]),
        encode_utf8(a + seq!['\0'] + x).len() == encode_utf8(b + seq!['\0'] + y).len(),
    ensures
        text::alike(a + seq!['\0'] + x, b + seq!['\0'] + y),
{
    assert(free_of(b, '\0')) by {
        assert forall|i: int| 0 <= i < b.len() implies #[trigger] b[i] != '\0' by {
            assert(same_letter(a[i], b[i]));
            assert(a[i] != '\0');
        }
    }
    front_of_joined(a, '\0', x);
    front_of_joined(b, '\0', y);
    assert forall|i: int| 0 <= i < a.len() implies text::lower(#[trigger] a[i]) == text::lower(
        b[i],
    ) by {
        letters_compared(a[i], b[i]);
    }
}

/// Every text is alike to itself, and alike goes both ways.
pub proof fn alike_is_fair(a: Seq<char>, b: Seq<char>)
    ensures
        text::alike(a, a),
        text::alike(a, b) == text::alike(b, a),
{
    let x = text::before_first(a, '\0');
    let y = text::before_first(b, '\0');
    assert(text::same_but_case(x, y) == text::same_but_case(y, x)) by {
        if text::same_but_case(x, y) {
            assert forall|i: int| 0 <= i < y.len() implies text::lower(#[trigger] y[i])
                == text::lower(x[i]) by {
                assert(text::lower(x[i]) == text::lower(y[i]));
            }
        }
        if text::same_but_case(y, x) {
            assert forall|i: int| 0 <= i < x.len() implies text::lower(#[trigger] x[i])
                == text::lower(y[i]) by {
                assert(text::lower(y[i]) == text::lower(x[i]));
            }
        }
    }
}

// ---------- Cutting at a character ----------

/// The part up to the first `c` is a front part of the text, free of `c`; behind it comes nothing or
/// a `c`.
pub proof fn front_is_front(s: Seq<char>, c: char)
    ensures
        ({
            let f = text::before_first(s, c);
            &&& f.len() <= s.len()
            &&& s.take(f.len() as int) == f
            &&& free_of(f, c)
            &&& f.len() < s.len() ==> s[f.len() as int] == c
        }),
{
    s.index_of_first_ensures(c);
    let f = text::before_first(s, c);
    assert(s.take(f.len() as int) =~= f);
    assert forall|i: int| 0 <= i < f.len() implies #[trigger] f[i] != c by {
        assert(s[i] == f[i]);
    }
}

/// The part up to the first `c` of a text in front of a `c` that holds none is that text.
pub proof fn front_of_joined(a: Seq<char>, c: char, rest: Seq<char>)
    requires
        free_of(a, c),
    ensures
        text::before_first(a + seq![c] + rest, c) == a,
{
    let s = a + seq![c] + rest;
    front_is_front(s, c);
    let f = text::before_first(s, c);
    if f.len() < a.len() {
        assert(s[f.len() as int] == a[f.len() as int]);
    }
    if f.len() > a.len() {
        assert(f[a.len() as int] == s.take(f.len() as int)[a.len() as int]);
        assert(s[a.len() as int] == c);
    }
    assert(f =~= a);
}

/// A text without a `c` is its own part up to the first `c`.
pub proof fn front_of_free(a: Seq<char>, c: char)
    requires
        free_of(a, c),
    ensures
        text::before_first(a, c) == a,
{
    a.index_of_first_ensures(c);
}

/// What is left of a text without any `c` in front: only `c`s are gone, and all that stood there.
pub proof fn leading_are_gone(s: Seq<char>, c: char)
    ensures
        ({
            let r = text::without_leading(s, c);
            &&& r.len() <= s.len()
            &&& r == s.skip(s.len() - r.len())
            &&& forall|i: int| 0 <= i < s.len() - r.len() ==> s[i] == c
            &&& r.len() > 0 ==> r[0] != c
        }),
    decreases s.len(),
{
    if s.len() > 0 && s[0] == c {
        leading_are_gone(s.skip(1), c);
        let r = text::without_leading(s, c);
        assert(r =~= s.skip(s.len() - r.len()));
        assert forall|i: int| 0 <= i < s.len() - r.len() implies s[i] == c by {
            if i > 0 {
                assert(s.skip(1)[i - 1] == s[i]);
            }
        }
    } else {
        assert(s.skip(0) =~= s);
    }
}

/// What is left of a text without any `c` behind: only `c`s are gone, and all that stood there.
pub proof fn trailing_are_gone(s: Seq<char>, c: char)
    ensures
        ({
            let r = text::without_trailing(s, c);
            &&& r.len() <= s.len()
            &&& r == s.take(r.len() as int)
            &&& forall|i: int| r.len() <= i < s.len() ==> s[i] == c
            &&& r.len() > 0 ==> r.last() != c
        }),
    decreases s.len(),
{
    if s.len() > 0 && s.last() == c {
        trailing_are_gone(s.drop_last(), c);
        let r = text::without_trailing(s, c);
        assert(r =~= s.take(r.len() as int));
        assert forall|i: int| r.len() <= i < s.len() implies s[i] == c by {
            if i < s.len() - 1 {
                assert(s.drop_last()[i] == s[i]);
            }
        }
    } else {
        assert(s.take(s.len() as int) =~= s);
    }
}

/// Some `c`s, and nothing else.
pub open spec fn only(s: Seq<char>, c: char) -> bool {
    forall|i: int| 0 <= i < s.len() ==> #[trigger] s[i] == c
}

/// A text that does not begin with `c` is found again behind any number of `c`s.
pub proof fn leading_do_not_matter(x: Seq<char>, s: Seq<char>, c: char)
    requires
        only(x, c),
        s.len() == 0 || s[0] != c,
    ensures
        text::without_leading(x + s, c) == s,
{
    let t = x + s;
    leading_are_gone(t, c);
    let r = text::without_leading(t, c);
    if r.len() < s.len() {
        assert(t[x.len() as int] == s[0]);
    }
    if r.len() > s.len() {
        assert(r[0] == t[t.len() - r.len()]);
        assert(t[t.len() - r.len()] == x[t.len() - r.len()]);
    }
    assert(r =~= s);
}

/// A text that does not end with `c` is found again in front of any number of `c`s.
pub proof fn trailing_do_not_matter(s: Seq<char>, x: Seq<char>, c: char)
    requires
        only(x, c),
        s.len() == 0 || s.last() != c,
    ensures
        text::without_trailing(s + x, c) == s,
{
    let t = s + x;
    trailing_are_gone(t, c);
    let r = text::without_trailing(t, c);
    if r.len() < s.len() {
        assert(t[s.len() - 1] == s.last());
    }
    if r.len() > s.len() {
        assert(r.last() == t[r.len() - 1]);
        assert(t[r.len() - 1] == x[r.len() - 1 - s.len()]);
    }
    assert(r =~= s);
}

/// The first piece of a text: behind any number of `c`s, what stands up to the next `c` or the end.
pub proof fn first_piece_is_found(x: Seq<char>, piece: Seq<char>, rest: Seq<char>, c: char)
    requires
        only(x, c),
        piece.len() > 0,
        free_of(piece, c),
        rest.len() == 0 || rest[0] == c,
    ensures
        text::first_piece(x + piece + rest, c) == Some(piece),
{
    let t = piece + rest;
    assert(x + piece + rest =~= x + t);
    assert(t[0] == piece[0]);
    leading_do_not_matter(x, t, c);
    if rest.len() == 0 {
        assert(t =~= piece);
        front_of_free(piece, c);
    } else {
        assert(t =~= piece + seq![c] + rest.skip(1));
        front_of_joined(piece, c, rest.skip(1));
    }
}

/// The last piece of a text: in front of any number of `c`s, what stands behind the `c` before, or
/// from the start.
pub proof fn last_piece_is_found(front: Seq<char>, piece: Seq<char>, x: Seq<char>, c: char)
    requires
        only(x, c),
        piece.len() > 0,
        free_of(piece, c),
        front.len() == 0 || front.last() == c,
    ensures
        text::last_piece(front + piece + x, c) == Some(piece),
{
    let t = front + piece;
    assert(t.last() == piece.last());
    trailing_do_not_matter(t, x, c);
    t.index_of_last_ensures(c);
    match t.index_of_last(c) {
        Some(k) => {
            if k >= front.len() {
                assert(t[k] == piece[k - front.len()]);
            }
            if front.len() == 0 {
                assert(false);
            }
            assert(t[front.len() - 1] == front.last());
            if k < front.len() - 1 {
                assert(t[front.len() - 1] != c);
            }
            assert(t.skip(k + 1) =~= piece);
        },
        None => {
            if front.len() > 0 {
                assert(t[front.len() - 1] == c);
                assert(t.contains(c));
            }
            assert(t =~= piece);
        },
    }
}

/// A text of `c`s alone has no pieces.
pub proof fn no_piece_in_separators(x: Seq<char>, c: char)
    requires
        only(x, c),
    ensures
        text::first_piece(x, c) is None,
        text::last_piece(x, c) is None,
{
    leading_are_gone(x, c);
    trailing_are_gone(x, c);
    let a = text::without_leading(x, c);
    if a.len() > 0 {
        assert(a[0] == x[x.len() - a.len()]);
    }
    let b = text::without_trailing(x, c);
    if b.len() > 0 {
        assert(b.last() == x[b.len() - 1]);
    }
}

// ---------- White space ----------

/// White space alone.
pub open spec fn blank(s: Seq<char>) -> bool {
    forall|i: int| 0 <= i < s.len() ==> text::white(#[trigger] s[i])
}

/// A text without white space at either end.
pub open spec fn tight(s: Seq<char>) -> bool {
    s.len() > 0 ==> !text::white(s[0]) && !text::white(s.last())
}

/// The white space in front is gone, and nothing else.
proof fn start_is_trimmed(s: Seq<char>)
    ensures
        ({
            let r = text::trimmed_start(s);
            &&& r.len() <= s.len()
            &&& r == s.skip(s.len() - r.len())
            &&& forall|i: int| 0 <= i < s.len() - r.len() ==> text::white(s[i])
            &&& r.len() > 0 ==> !text::white(r[0])
        }),
    decreases s.len(),
{
    if s.len() > 0 && text::white(s[0]) {
        start_is_trimmed(s.skip(1));
        let r = text::trimmed_start(s);
        assert(r =~= s.skip(s.len() - r.len()));
        assert forall|i: int| 0 <= i < s.len() - r.len() implies text::white(s[i]) by {
            if i > 0 {
                assert(s.skip(1)[i - 1] == s[i]);
            }
        }
    } else {
        assert(s.skip(0) =~= s);
    }
}

/// The white space behind is gone, and nothing else.
proof fn end_is_trimmed(s: Seq<char>)
    ensures
        ({
            let r = text::trimmed_end(s);
            &&& r.len() <= s.len()
            &&& r == s.take(r.len() as int)
            &&& forall|i: int| r.len() <= i < s.len() ==> text::white(s[i])
            &&& r.len() > 0 ==> !text::white(r.last())
        }),
    decreases s.len(),
{
    if s.len() > 0 && text::white(s.last()) {
        end_is_trimmed(s.drop_last());
        let r = text::trimmed_end(s);
        assert(r =~= s.take(r.len() as int));
        assert forall|i: int| r.len() <= i < s.len() implies text::white(s[i]) by {
            if i < s.len() - 1 {
                assert(s.drop_last()[i] == s[i]);
            }
        }
    } else {
        assert(s.take(s.len() as int) =~= s);
    }
}

/// A text that is tight is found again whole, whatever white space is put around it.
pub proof fn trimming_takes_white_space_only(a: Seq<char>, s: Seq<char>, b: Seq<char>)
    requires
        blank(a),
        blank(b),
        tight(s),
    ensures
        text::trimmed(a + s + b) == s,
{
    let t = a + s + b;
    let u = text::trimmed_start(t);
    let r = text::trimmed(t);
    start_is_trimmed(t);
    end_is_trimmed(u);
    let k = t.len() - u.len();
    if s.len() == 0 {
        if u.len() > 0 {
            assert(u[0] == t[k]);
            if k < a.len() {
                assert(t[k] == a[k]);
            } else {
                assert(t[k] == b[k - a.len()]);
            }
        }
        assert(r =~= s);
    } else {
        if k > a.len() {
            assert(t[a.len() as int] == s[0]);
        }
        if k < a.len() {
            assert(u[0] == t[k]);
            assert(t[k] == a[k]);
        }
        assert(u =~= s + b);
        if r.len() < s.len() {
            assert(u[s.len() - 1] == s.last());
        }
        if r.len() > s.len() {
            assert(r.last() == u[r.len() - 1]);
            assert(u[r.len() - 1] == b[r.len() - 1 - s.len()]);
        }
        assert(r =~= s);
    }
}

/// Of every text, white space at its ends is taken away, all of it, and nothing else.
pub proof fn trimming_splits(s: Seq<char>) -> (ends: (Seq<char>, Seq<char>))
    ensures
        s == ends.0 + text::trimmed(s) + ends.1,
        blank(ends.0),
        blank(ends.1),
        tight(text::trimmed(s)),
{
    let u = text::trimmed_start(s);
    let r = text::trimmed(s);
    start_is_trimmed(s);
    end_is_trimmed(u);
    let a = s.take(s.len() - u.len());
    let b = u.skip(r.len() as int);
    assert(s =~= a + r + b);
    assert forall|i: int| 0 <= i < b.len() implies text::white(#[trigger] b[i]) by {
        assert(b[i] == u[i + r.len()]);
    }
    if r.len() > 0 {
        assert(r[0] == u[0]);
    }
    (a, b)
}

/// A tight text is not changed by trimming.
pub proof fn tight_stays(s: Seq<char>)
    requires
        tight(s),
    ensures
        text::trimmed(s) == s,
{
    trimming_takes_white_space_only(Seq::empty(), s, Seq::empty());
    assert(Seq::<char>::empty() + s + Seq::<char>::empty() =~= s);
}

// ---------- Finding and replacing ----------

/// A pattern stands at a place where each of its characters does.
pub proof fn standing_at_a_place(s: Seq<char>, pat: Seq<char>, i: int)
    ensures
        text::occurs_at(s, pat, i) <==> 0 <= i && i + pat.len() <= s.len() && forall|k: int|
            0 <= k < pat.len() ==> s[i + k] == #[trigger] pat[k],
{
    if 0 <= i && i + pat.len() <= s.len() {
        let part = s.subrange(i, i + pat.len());
        assert forall|k: int| 0 <= k < pat.len() implies part[k] == s[i + k] by {}
        if forall|k: int| 0 <= k < pat.len() ==> s[i + k] == #[trigger] pat[k] {
            assert(part =~= pat);
        }
        if part == pat {
            assert forall|k: int| 0 <= k < pat.len() implies s[i + k] == #[trigger] pat[k] by {
                assert(part[k] == pat[k]);
            }
        }
    }
}

/// A pattern stands nowhere in a text.
pub open spec fn absent(s: Seq<char>, pat: Seq<char>) -> bool {
    forall|i: int| !#[trigger] text::occurs_at(s, pat, i)
}

/// A text begins and ends with what it is put together from.
pub proof fn joined_texts(a: Seq<char>, b: Seq<char>)
    ensures
        text::starts_with(a + b, a),
        text::ends_with(a + b, b),
        (a + b).skip(a.len() as int) == b,
{
    assert((a + b).subrange(0, a.len() as int) =~= a);
    assert((a + b).subrange(a.len() as int, (a + b).len() as int) =~= b);
    assert((a + b).skip(a.len() as int) =~= b);
}

/// What a text begins with stands in front of the rest.
pub proof fn beginning_splits(s: Seq<char>, pat: Seq<char>)
    requires
        text::starts_with(s, pat),
    ensures
        s == pat + s.skip(pat.len() as int),
{
    assert(s =~= s.subrange(0, pat.len() as int) + s.skip(pat.len() as int));
}

/// Where the pattern stands nowhere, nothing is replaced.
pub proof fn nothing_to_replace(s: Seq<char>, pat: Seq<char>, with: Seq<char>)
    requires
        absent(s, pat),
    ensures
        text::replaced(s, pat, with) == s,
    decreases s.len(),
{
    if s.len() > 0 && pat.len() > 0 {
        assert(!text::occurs_at(s, pat, 0));
        let rest = s.skip(1);
        assert forall|i: int| !#[trigger] text::occurs_at(rest, pat, i) by {
            standing_at_a_place(rest, pat, i);
            standing_at_a_place(s, pat, i + 1);
            if text::occurs_at(rest, pat, i) {
                assert forall|k: int| 0 <= k < pat.len() implies s[i + 1 + k] == #[trigger] pat[k] by {
                    assert(rest[i + k] == pat[k]);
                }
                assert(text::occurs_at(s, pat, i + 1));
            }
        }
        nothing_to_replace(rest, pat, with);
        assert(seq![s[0]] + rest =~= s);
    }
}

/// What is in front of the first place where the pattern stands is kept, the pattern gives way, and
/// the rest is treated likewise.
pub proof fn first_is_replaced(front: Seq<char>, pat: Seq<char>, rest: Seq<char>, with: Seq<char>)
    requires
        pat.len() > 0,
        forall|i: int|
            0 <= i < front.len() ==> !#[trigger] text::occurs_at(front + pat + rest, pat, i),
    ensures
        text::replaced(front + pat + rest, pat, with) == front + with + text::replaced(
            rest,
            pat,
            with,
        ),
    decreases front.len(),
{
    let s = front + pat + rest;
    if front.len() == 0 {
        assert(s.subrange(0, pat.len() as int) =~= pat);
        assert(s.skip(pat.len() as int) =~= rest);
        assert(front + with + text::replaced(rest, pat, with) =~= with + text::replaced(
            rest,
            pat,
            with,
        ));
    } else {
        let f = front.skip(1);
        let t = f + pat + rest;
        assert(s.skip(1) =~= t);
        assert(!text::occurs_at(s, pat, 0));
        assert forall|i: int| 0 <= i < f.len() implies !#[trigger] text::occurs_at(t, pat, i) by {
            assert(!text::occurs_at(s, pat, i + 1));
            if text::occurs_at(t, pat, i) {
                assert(s.subrange(i + 1, i + 1 + pat.len()) =~= t.subrange(i, i + pat.len()));
            }
        }
        first_is_replaced(f, pat, rest, with);
        assert(s[0] == front[0]);
        assert(seq![front[0]] + (f + with + text::replaced(rest, pat, with)) =~= front + with
            + text::replaced(rest, pat, with));
    }
}

/// A pattern behind a text, any number of times, is taken away; what does not end with it stays.
pub proof fn suffixes_are_gone(s: Seq<char>, pat: Seq<char>)
    requires
        pat.len() > 0,
    ensures
        text::without_suffixes(s + pat, pat) == text::without_suffixes(s, pat),
        !text::ends_with(s, pat) ==> text::without_suffixes(s, pat) == s,
{
    joined_texts(s, pat);
    assert((s + pat).take(s.len() as int) =~= s);
}

// ---------- Order and numbers ----------

/// One text comes before another where it is a front part of it, or has the smaller character at
/// the first place where they differ; and only there.
pub proof fn order_of_texts(a: Seq<char>, b: Seq<char>)
    ensures
        text::less(a, b) <==> exists|k: int|
            0 <= k <= a.len() && k < b.len() && #[trigger] a.take(k) == b.take(k) && (k == a.len()
                || a[k] < b[k]),
    decreases b.len(),
{
    if b.len() > 0 {
        if a.len() == 0 {
            assert(a.take(0) =~= b.take(0));
        } else {
            let x = a.skip(1);
            let y = b.skip(1);
            order_of_texts(x, y);
            if a[0] < b[0] {
                assert(a.take(0) =~= b.take(0));
            } else if a[0] == b[0] && text::less(x, y) {
                let k = choose|k: int|
                    0 <= k <= x.len() && k < y.len() && #[trigger] x.take(k) == y.take(k) && (k
                        == x.len() || x[k] < y[k]);
                assert(a.take(k + 1) =~= seq![a[0]] + x.take(k));
                assert(b.take(k + 1) =~= seq![b[0]] + y.take(k));
                assert(a.take(k + 1) == b.take(k + 1));
            }
            if exists|k: int|
                0 <= k <= a.len() && k < b.len() && #[trigger] a.take(k) == b.take(k) && (k
                    == a.len() || a[k] < b[k]) {
                let k = choose|k: int|
                    0 <= k <= a.len() && k < b.len() && #[trigger] a.take(k) == b.take(k) && (k
                        == a.len() || a[k] < b[k]);
                if k > 0 {
                    assert(a.take(k)[0] == b.take(k)[0]);
                    assert(x.take(k - 1) =~= a.take(k).skip(1));
                    assert(y.take(k - 1) =~= b.take(k).skip(1));
                    assert(x.take(k - 1) == y.take(k - 1));
                    if k < a.len() {
                        assert(x[k - 1] == a[k]);
                        assert(y[k - 1] == b[k]);
                    }
                }
            }
        }
    }
}

/// The number that decimal digits stand for.
pub open spec fn number(s: Seq<char>) -> int
    decreases s.len(),
{
    if s.len() == 0 {
        0
    } else {
        10 * number(s.drop_last()) + (s.last() as int - '0' as int)
    }
}

/// Decimal notation holds decimal digits only, stands for the number, and begins with `0` only where
/// that is the number.
pub proof fn decimal_stands_for_the_number(n: nat)
    ensures
        number(text::decimal(n)) == n,
        text::decimal(n).len() > 0,
        forall|i: int| 0 <= i < text::decimal(n).len() ==> '0' <= #[trigger] text::decimal(n)[i] <= '9',
        text::decimal(n)[0] == '0' ==> n == 0,
    decreases n,
{
    let d = text::decimal(n);
    if n < 10 {
        assert(d.drop_last() =~= Seq::<char>::empty());
        assert(number(d.drop_last()) == 0);
    } else {
        decimal_stands_for_the_number(n / 10);
        assert(d.drop_last() =~= text::decimal(n / 10));
        assert forall|i: int| 0 <= i < d.len() implies '0' <= #[trigger] d[i] <= '9' by {
            if i < d.len() - 1 {
                assert(d[i] == text::decimal(n / 10)[i]);
            }
        }
        assert(d[0] == text::decimal(n / 10)[0]);
    }
}

/// A negative number is its amount with a `-` in front.
pub proof fn a_sign_stands_in_front(n: int)
    ensures
        n >= 0 ==> text::decimal_int(n) == text::decimal(n as nat),
        n < 0 ==> text::decimal_int(n)[0] == '-' && text::decimal_int(n).skip(1) == text::decimal(
            (-n) as nat,
        ),
{
    if n < 0 {
        assert(text::decimal_int(n).skip(1) =~= text::decimal((-n) as nat));
    }
}

} // verus!
