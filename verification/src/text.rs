//! Operations on text, stated over sequences of characters.
use vstd::prelude::*;
use vstd::slice::slice_subrange;
use vstd::string::*;
use vstd::utf8::encode_utf8;

verus! {

/// `String::push` puts one character behind the text.
pub assume_specification[ String::push ](s: &mut String, ch: char)
    ensures
        final(s)@ == old(s)@.push(ch),
;

// ---------- Characters ----------

/// The characters with the Unicode property White_Space.
pub open spec fn white(c: char) -> bool {
    let n = c as u32;
    ||| 0x09 <= n <= 0x0d
    ||| n == 0x20
    ||| n == 0x85
    ||| n == 0xa0
    ||| n == 0x1680
    ||| 0x2000 <= n <= 0x200a
    ||| n == 0x2028
    ||| n == 0x2029
    ||| n == 0x202f
    ||| n == 0x205f
    ||| n == 0x3000
}

/// The digits of hexadecimal notation, in either case.
pub open spec fn hex_digit(c: char) -> bool {
    ||| '0' <= c <= '9'
    ||| 'a' <= c <= 'f'
    ||| 'A' <= c <= 'F'
}

/// The small letter for one of the 26 ASCII capitals, any other character itself.
pub open spec fn lower(c: char) -> char {
    if 'A' <= c <= 'Z' {
        (c as u32 + 32) as char
    } else {
        c
    }
}

/// Whether `c` has the Unicode property White_Space.
pub fn is_white(c: char) -> (r: bool)
    ensures
        r == white(c),
{
    let n: u32 = c as u32;
    (0x09 <= n && n <= 0x0d) || n == 0x20 || n == 0x85 || n == 0xa0 || n == 0x1680 || (0x2000 <= n
        && n <= 0x200a) || n == 0x2028 || n == 0x2029 || n == 0x202f || n == 0x205f || n == 0x3000
}

/// Whether `c` is a digit of hexadecimal notation.
pub fn is_hex_digit(c: char) -> (r: bool)
    ensures
        r == hex_digit(c),
{
    ('0' <= c && c <= '9') || ('a' <= c && c <= 'f') || ('A' <= c && c <= 'F')
}

/// `c` with an ASCII capital turned into its small letter.
pub fn to_lower(c: char) -> (r: char)
    ensures
        r == lower(c),
{
    if 'A' <= c && c <= 'Z' {
        (c as u8 + 32) as char
    } else {
        c
    }
}

// ---------- Texts and their characters ----------

/// The characters of a text, in order.
pub fn to_chars(s: &str) -> (r: Vec<char>)
    ensures
        r@ == s@,
{
    let mut v: Vec<char> = Vec::new();
    for c in it: s.chars()
        invariant
            it.seq() == s@,
            v@ == it.seq().take(it.index()),
    {
        v.push(c);
    }
    v
}

/// The text made of the given characters.
pub fn to_text(c: &[char]) -> (r: String)
    ensures
        r@ == c@,
{
    let mut s: String = String::new();
    let mut i: usize = 0;
    while i < c.len()
        invariant
            i <= c@.len(),
            s@ == c@.take(i as int),
        decreases c@.len() - i,
    {
        s.push(c[i]);
        i += 1;
        assert(c@.take(i as int) =~= c@.take(i - 1).push(c@[i - 1]));
    }
    assert(c@.take(i as int) =~= c@);
    s
}

/// The text in an optional text.
pub open spec fn opt_view(o: Option<String>) -> Option<Seq<char>> {
    match o {
        Some(s) => Some(s@),
        None => None,
    }
}

/// A copy of an optional text.
pub fn copy_opt(o: &Option<String>) -> (r: Option<String>)
    ensures
        opt_view(r) == opt_view(*o),
{
    match o {
        Some(s) => Some(s.clone()),
        None => None,
    }
}

/// Whether two texts are the same.
pub fn same(a: &str, b: &str) -> (r: bool)
    ensures
        r == (a@ == b@),
{
    a.to_owned() == b.to_owned()
}

/// The number of bytes that the text takes in UTF-8.
pub fn byte_len(s: &str) -> (r: usize)
    ensures
        r == encode_utf8(s@).len(),
{
    s.as_bytes().len()
}

/// Two texts that differ at most in the case of ASCII letters.
pub open spec fn same_but_case(a: Seq<char>, b: Seq<char>) -> bool {
    &&& a.len() == b.len()
    &&& forall|i: int| 0 <= i < a.len() ==> lower(#[trigger] a[i]) == lower(b[i])
}

/// Two texts that the stored tables take for one, by the `NOCASE` order of SQLite: they take the same
/// number of bytes, and up to the first NUL, if there is one, they differ at most in the case of
/// ASCII letters. What stands behind a NUL does not tell them apart.
pub open spec fn alike(a: Seq<char>, b: Seq<char>) -> bool {
    &&& encode_utf8(a).len() == encode_utf8(b).len()
    &&& same_but_case(before_first(a, '\0'), before_first(b, '\0'))
}

/// Whether two texts differ at most in the case of ASCII letters.
fn is_same_but_case(a: &str, b: &str) -> (r: bool)
    ensures
        r == same_but_case(a@, b@),
{
    let x: Vec<char> = to_chars(a);
    let y: Vec<char> = to_chars(b);
    if x.len() != y.len() {
        return false;
    }
    let mut i: usize = 0;
    while i < x.len()
        invariant
            i <= x@.len(),
            x@ == a@,
            y@ == b@,
            x@.len() == y@.len(),
            forall|j: int| 0 <= j < i ==> lower(#[trigger] x@[j]) == lower(y@[j]),
        decreases x@.len() - i,
    {
        if to_lower(x[i]) != to_lower(y[i]) {
            assert(lower(a@[i as int]) != lower(b@[i as int]));
            return false;
        }
        i += 1;
    }
    true
}

/// Whether the stored tables take two texts for one.
pub fn is_alike(a: &str, b: &str) -> (r: bool)
    ensures
        r == alike(a@, b@),
{
    byte_len(a) == byte_len(b) && is_same_but_case(
        head(a, '\0').as_str(),
        head(b, '\0').as_str(),
    )
}

// ---------- Order ----------

/// `a` comes before `b` in the order of their characters.
pub open spec fn less(a: Seq<char>, b: Seq<char>) -> bool
    decreases b.len(),
{
    b.len() > 0 && (a.len() == 0 || a[0] < b[0] || (a[0] == b[0] && less(a.skip(1), b.skip(1))))
}

/// Of two texts, one comes before the other or they are the same.
pub proof fn less_is_total(a: Seq<char>, b: Seq<char>)
    ensures
        less(a, b) || less(b, a) || a == b,
    decreases a.len(),
{
    if a.len() == 0 && b.len() == 0 {
        assert(a =~= b);
    } else if a.len() > 0 && b.len() > 0 && a[0] == b[0] {
        less_is_total(a.skip(1), b.skip(1));
        if a.skip(1) == b.skip(1) {
            assert(a =~= seq![a[0]] + a.skip(1));
            assert(b =~= seq![b[0]] + b.skip(1));
        }
    }
}

/// What comes before a text that comes before another, comes before that one too.
pub proof fn less_is_transitive(a: Seq<char>, b: Seq<char>, c: Seq<char>)
    requires
        less(a, b),
        less(b, c),
    ensures
        less(a, c),
    decreases a.len(),
{
    if a.len() > 0 && a[0] == b[0] && b[0] == c[0] {
        less_is_transitive(a.skip(1), b.skip(1), c.skip(1));
    }
}

/// No text comes before itself.
pub proof fn less_is_strict(a: Seq<char>)
    ensures
        !less(a, a),
    decreases a.len(),
{
    if a.len() > 0 {
        less_is_strict(a.skip(1));
    }
}

/// Whether `a` comes before `b` in the order of their characters.
pub fn is_less(a: &str, b: &str) -> (r: bool)
    ensures
        r == less(a@, b@),
{
    let x: Vec<char> = to_chars(a);
    let y: Vec<char> = to_chars(b);
    let mut i: usize = 0;
    assert(x@.skip(0) =~= x@);
    assert(y@.skip(0) =~= y@);
    while i < x.len() && i < y.len()
        invariant
            i <= x@.len(),
            i <= y@.len(),
            x@ == a@,
            y@ == b@,
            less(x@.skip(i as int), y@.skip(i as int)) == less(x@, y@),
        decreases x@.len() - i,
    {
        if x[i] < y[i] {
            return true;
        }
        if x[i] != y[i] {
            return false;
        }
        assert(x@.skip(i as int).skip(1) =~= x@.skip(i + 1));
        assert(y@.skip(i as int).skip(1) =~= y@.skip(i + 1));
        i += 1;
    }
    i < y.len()
}

// ---------- Trimming ----------

/// `s` without the white space in front.
pub open spec fn trimmed_start(s: Seq<char>) -> Seq<char>
    decreases s.len(),
{
    if s.len() > 0 && white(s[0]) {
        trimmed_start(s.skip(1))
    } else {
        s
    }
}

/// `s` without the white space behind.
pub open spec fn trimmed_end(s: Seq<char>) -> Seq<char>
    decreases s.len(),
{
    if s.len() > 0 && white(s.last()) {
        trimmed_end(s.drop_last())
    } else {
        s
    }
}

/// `s` without the white space around it.
pub open spec fn trimmed(s: Seq<char>) -> Seq<char> {
    trimmed_end(trimmed_start(s))
}

/// `s` without any `c` in front.
pub open spec fn without_leading(s: Seq<char>, c: char) -> Seq<char>
    decreases s.len(),
{
    if s.len() > 0 && s[0] == c {
        without_leading(s.skip(1), c)
    } else {
        s
    }
}

/// `s` without any `c` behind.
pub open spec fn without_trailing(s: Seq<char>, c: char) -> Seq<char>
    decreases s.len(),
{
    if s.len() > 0 && s.last() == c {
        without_trailing(s.drop_last(), c)
    } else {
        s
    }
}

/// The text without the white space around it.
pub fn trim(s: &str) -> (r: String)
    ensures
        r@ == trimmed(s@),
{
    let c: Vec<char> = to_chars(s);
    let n: usize = c.len();
    let mut i: usize = 0;
    assert(c@.skip(0) =~= c@);
    while i < n && is_white(c[i])
        invariant
            i <= n,
            n == c@.len(),
            trimmed_start(c@.skip(i as int)) == trimmed_start(c@),
        decreases n - i,
    {
        assert(c@.skip(i as int).skip(1) =~= c@.skip(i + 1));
        i += 1;
    }
    let mut j: usize = n;
    assert(c@.subrange(i as int, n as int) =~= c@.skip(i as int));
    while j > i && is_white(c[j - 1])
        invariant
            i <= j <= n,
            n == c@.len(),
            trimmed_end(c@.subrange(i as int, j as int)) == trimmed_end(
                c@.subrange(i as int, n as int),
            ),
        decreases j,
    {
        assert(c@.subrange(i as int, j as int).drop_last() =~= c@.subrange(i as int, j - 1));
        j -= 1;
    }
    to_text(slice_subrange(c.as_slice(), i, j))
}

/// The text without any `ch` behind.
pub fn trim_end_char(s: &str, ch: char) -> (r: String)
    ensures
        r@ == without_trailing(s@, ch),
{
    let c: Vec<char> = to_chars(s);
    let n: usize = c.len();
    let mut j: usize = n;
    assert(c@.take(n as int) =~= c@);
    while j > 0 && c[j - 1] == ch
        invariant
            j <= n,
            n == c@.len(),
            without_trailing(c@.take(j as int), ch) == without_trailing(c@, ch),
        decreases j,
    {
        assert(c@.take(j as int).drop_last() =~= c@.take(j - 1));
        j -= 1;
    }
    assert(c@.subrange(0, j as int) =~= c@.take(j as int));
    to_text(slice_subrange(c.as_slice(), 0, j))
}

// ---------- Finding ----------

/// `pat` stands in `s` at position `i`.
pub open spec fn occurs_at(s: Seq<char>, pat: Seq<char>, i: int) -> bool {
    &&& 0 <= i
    &&& i + pat.len() <= s.len()
    &&& s.subrange(i, i + pat.len()) == pat
}

/// The first position, from `from` on, at which `pat` stands in `s`.
pub open spec fn first_at(s: Seq<char>, pat: Seq<char>, from: int) -> Option<int>
    decreases s.len() - from,
{
    if from < 0 || from + pat.len() > s.len() {
        None
    } else if occurs_at(s, pat, from) {
        Some(from)
    } else if from >= s.len() {
        None
    } else {
        first_at(s, pat, from + 1)
    }
}

/// What `first_at` finds is an occurrence with none before it, and where it finds nothing there is
/// none.
pub proof fn first_at_is_first(s: Seq<char>, pat: Seq<char>, from: int)
    requires
        0 <= from,
    ensures
        match first_at(s, pat, from) {
            Some(i) => from <= i && occurs_at(s, pat, i) && forall|j: int|
                from <= j < i ==> !occurs_at(s, pat, j),
            None => forall|j: int| from <= j ==> !occurs_at(s, pat, j),
        },
    decreases s.len() - from,
{
    if from + pat.len() <= s.len() && !occurs_at(s, pat, from) && from < s.len() {
        first_at_is_first(s, pat, from + 1);
    }
}

/// `s` begins with `pat`.
pub open spec fn starts_with(s: Seq<char>, pat: Seq<char>) -> bool {
    occurs_at(s, pat, 0)
}

/// `s` ends with `pat`.
pub open spec fn ends_with(s: Seq<char>, pat: Seq<char>) -> bool {
    occurs_at(s, pat, s.len() - pat.len())
}

/// Whether `pat` stands in `c` at position `i`.
pub fn stands_at(c: &[char], pat: &[char], i: usize) -> (r: bool)
    ensures
        r == occurs_at(c@, pat@, i as int),
{
    if i > c.len() || pat.len() > c.len() - i {
        return false;
    }
    let mut k: usize = 0;
    while k < pat.len()
        invariant
            k <= pat@.len(),
            i + pat.len() <= c.len(),
            forall|j: int| 0 <= j < k ==> c@[i + j] == pat@[j],
        decreases pat@.len() - k,
    {
        if c[i + k] != pat[k] {
            assert(c@.subrange(i as int, i + pat@.len())[k as int] != pat@[k as int]);
            return false;
        }
        k += 1;
    }
    assert(c@.subrange(i as int, i + pat@.len()) =~= pat@);
    true
}

/// The first position, from `from` on, at which `pat` stands in `c`.
pub fn find_from(c: &[char], pat: &[char], from: usize) -> (r: Option<usize>)
    ensures
        match r {
            Some(i) => first_at(c@, pat@, from as int) == Some(i as int) && i + pat.len() <= c.len(),
            None => first_at(c@, pat@, from as int) is None,
        },
{
    let mut i: usize = from;
    loop
        invariant
            from <= i,
            first_at(c@, pat@, i as int) == first_at(c@, pat@, from as int),
        decreases c@.len() + 1 - i,
    {
        if i > c.len() || pat.len() > c.len() - i {
            return None;
        }
        if stands_at(c, pat, i) {
            return Some(i);
        }
        if i == c.len() {
            return None;
        }
        i += 1;
    }
}

/// Whether the text begins with `pat`.
pub fn begins_with(s: &str, pat: &str) -> (r: bool)
    ensures
        r == starts_with(s@, pat@),
{
    let c: Vec<char> = to_chars(s);
    let p: Vec<char> = to_chars(pat);
    stands_at(c.as_slice(), p.as_slice(), 0)
}

/// What follows `pat` in a text that begins with it.
pub fn strip_prefix(s: &str, pat: &str) -> (r: Option<String>)
    ensures
        match r {
            Some(rest) => starts_with(s@, pat@) && rest@ == s@.skip(pat@.len() as int),
            None => !starts_with(s@, pat@),
        },
{
    let c: Vec<char> = to_chars(s);
    let p: Vec<char> = to_chars(pat);
    if stands_at(c.as_slice(), p.as_slice(), 0) {
        assert(c@.subrange(p@.len() as int, c@.len() as int) =~= c@.skip(p@.len() as int));
        Some(to_text(slice_subrange(c.as_slice(), p.len(), c.len())))
    } else {
        None
    }
}

/// `s` without any `pat` behind, taken away as often as it stands there.
pub open spec fn without_suffixes(s: Seq<char>, pat: Seq<char>) -> Seq<char>
    decreases s.len(),
{
    if pat.len() > 0 && ends_with(s, pat) {
        without_suffixes(s.take(s.len() - pat.len()), pat)
    } else {
        s
    }
}

/// The text without any `pat` behind, taken away as often as it stands there.
pub fn trim_end_text(s: &str, pat: &str) -> (r: String)
    ensures
        r@ == without_suffixes(s@, pat@),
{
    let c: Vec<char> = to_chars(s);
    let p: Vec<char> = to_chars(pat);
    let mut j: usize = c.len();
    assert(c@.take(j as int) =~= c@);
    if p.len() > 0 {
        loop
            invariant
                j <= c@.len(),
                p@.len() > 0,
                without_suffixes(c@.take(j as int), p@) == without_suffixes(c@, p@),
            ensures
                j <= c@.len(),
                c@.take(j as int) == without_suffixes(c@, p@),
            decreases j,
        {
            if p.len() > j {
                break ;
            }
            let head: &[char] = slice_subrange(c.as_slice(), 0, j);
            assert(head@ =~= c@.take(j as int));
            if !stands_at(head, p.as_slice(), j - p.len()) {
                break ;
            }
            assert(c@.take(j as int).take(j - p@.len()) =~= c@.take(j - p@.len()));
            j -= p.len();
        }
    }
    assert(c@.subrange(0, j as int) =~= c@.take(j as int));
    to_text(slice_subrange(c.as_slice(), 0, j))
}

// ---------- Segments ----------

/// Where `ch` stands for the first time in `c`, from `from` on.
fn char_from(c: &[char], ch: char, from: usize) -> (r: Option<usize>)
    requires
        from <= c@.len(),
    ensures
        match r {
            Some(i) => from <= i < c@.len() && c@[i as int] == ch && forall|j: int|
                from <= j < i ==> c@[j] != ch,
            None => forall|j: int| from <= j < c@.len() ==> c@[j] != ch,
        },
{
    let mut i: usize = from;
    while i < c.len()
        invariant
            from <= i <= c@.len(),
            forall|j: int| from <= j < i ==> c@[j] != ch,
        decreases c@.len() - i,
    {
        if c[i] == ch {
            return Some(i);
        }
        i += 1;
    }
    None
}

/// Where `ch` stands for the first time in `c`.
pub fn find_char(c: &[char], ch: char) -> (r: Option<usize>)
    ensures
        match r {
            Some(i) => c@.index_of_first(ch) == Some(i as int) && i < c@.len() && c@[i as int]
                == ch,
            None => c@.index_of_first(ch) is None && !c@.contains(ch),
        },
{
    proof {
        c@.index_of_first_ensures(ch);
    }
    char_from(c, ch, 0)
}

/// `s` up to the first `c`, or all of it.
pub open spec fn before_first(s: Seq<char>, c: char) -> Seq<char> {
    match s.index_of_first(c) {
        Some(i) => s.take(i),
        None => s,
    }
}

/// `s` behind the last `c`, or all of it.
pub open spec fn after_last(s: Seq<char>, c: char) -> Seq<char> {
    match s.index_of_last(c) {
        Some(i) => s.skip(i + 1),
        None => s,
    }
}

/// The first piece that is not empty when `s` is cut at each `c`.
pub open spec fn first_piece(s: Seq<char>, c: char) -> Option<Seq<char>> {
    let t = without_leading(s, c);
    if t.len() == 0 {
        None
    } else {
        Some(before_first(t, c))
    }
}

/// The last piece that is not empty when `s` is cut at each `c`.
pub open spec fn last_piece(s: Seq<char>, c: char) -> Option<Seq<char>> {
    let t = without_trailing(s, c);
    if t.len() == 0 {
        None
    } else {
        Some(after_last(t, c))
    }
}

/// The text up to the first `ch`, or all of it.
pub fn head(s: &str, ch: char) -> (r: String)
    ensures
        r@ == before_first(s@, ch),
{
    let c: Vec<char> = to_chars(s);
    match find_char(c.as_slice(), ch) {
        Some(i) => {
            assert(c@.subrange(0, i as int) =~= c@.take(i as int));
            to_text(slice_subrange(c.as_slice(), 0, i))
        },
        None => to_text(c.as_slice()),
    }
}

/// The first piece that is not empty when the text is cut at each `ch`.
pub fn first_segment(s: &str, ch: char) -> (r: Option<String>)
    ensures
        match r {
            Some(p) => first_piece(s@, ch) == Some(p@),
            None => first_piece(s@, ch) is None,
        },
{
    let c: Vec<char> = to_chars(s);
    let n: usize = c.len();
    let mut i: usize = 0;
    assert(c@.skip(0) =~= c@);
    while i < n && c[i] == ch
        invariant
            i <= n,
            n == c@.len(),
            without_leading(c@.skip(i as int), ch) == without_leading(c@, ch),
        decreases n - i,
    {
        assert(c@.skip(i as int).skip(1) =~= c@.skip(i + 1));
        i += 1;
    }
    if i == n {
        return None;
    }
    let t: &[char] = slice_subrange(c.as_slice(), i, n);
    assert(t@ =~= c@.skip(i as int));
    match find_char(t, ch) {
        Some(k) => {
            assert(t@.subrange(0, k as int) =~= t@.take(k as int));
            Some(to_text(slice_subrange(t, 0, k)))
        },
        None => Some(to_text(t)),
    }
}

/// The last piece that is not empty when the text is cut at each `ch`.
pub fn last_segment(s: &str, ch: char) -> (r: Option<String>)
    ensures
        match r {
            Some(p) => last_piece(s@, ch) == Some(p@),
            None => last_piece(s@, ch) is None,
        },
{
    let t: String = trim_end_char(s, ch);
    let c: Vec<char> = to_chars(t.as_str());
    let n: usize = c.len();
    if n == 0 {
        return None;
    }
    proof {
        c@.index_of_last_ensures(ch);
    }
    let mut i: usize = n;
    while i > 0 && c[i - 1] != ch
        invariant
            i <= n,
            n == c@.len(),
            forall|j: int| i <= j < n ==> c@[j] != ch,
        decreases i,
    {
        i -= 1;
    }
    assert(c@.subrange(i as int, n as int) =~= c@.skip(i as int));
    assert(c@.skip(0) =~= c@);
    Some(to_text(slice_subrange(c.as_slice(), i, n)))
}

// ---------- Replacing ----------

/// `s` with every `pat`, from the left and without overlap, replaced by `with`.
pub open spec fn replaced(s: Seq<char>, pat: Seq<char>, with: Seq<char>) -> Seq<char>
    decreases s.len(),
{
    if pat.len() == 0 || s.len() == 0 {
        s
    } else if starts_with(s, pat) {
        with + replaced(s.skip(pat.len() as int), pat, with)
    } else {
        seq![s[0]] + replaced(s.skip(1), pat, with)
    }
}

/// The text with every `pat`, from the left and without overlap, replaced by `with`.
pub fn replace(s: &str, pat: &str, with: &str) -> (r: String)
    requires
        pat@.len() > 0,
    ensures
        r@ == replaced(s@, pat@, with@),
{
    let c: Vec<char> = to_chars(s);
    let p: Vec<char> = to_chars(pat);
    let mut out: String = String::new();
    let mut i: usize = 0;
    assert(c@.skip(0) =~= c@);
    while i < c.len()
        invariant
            i <= c@.len(),
            p@ == pat@,
            p@.len() > 0,
            replaced(c@, pat@, with@) =~= out@ + replaced(c@.skip(i as int), pat@, with@),
        decreases c@.len() - i,
    {
        let ghost rest = c@.skip(i as int);
        let ghost before = out@;
        if stands_at(c.as_slice(), p.as_slice(), i) {
            assert(rest.subrange(0, p@.len() as int) =~= c@.subrange(i as int, i + p@.len()));
            assert(starts_with(rest, pat@));
            out.append(with);
            assert(rest.skip(p@.len() as int) =~= c@.skip(i + p@.len()));
            i += p.len();
        } else {
            assert(!starts_with(rest, pat@)) by {
                if starts_with(rest, pat@) {
                    assert(rest.subrange(0, p@.len() as int) =~= c@.subrange(
                        i as int,
                        i + p@.len(),
                    ));
                }
            }
            out.push(c[i]);
            assert(rest.skip(1) =~= c@.skip(i + 1));
            assert(before.push(c@[i as int]) =~= before + seq![c@[i as int]]);
            i += 1;
        }
    }
    assert(c@.skip(i as int).len() == 0);
    out
}

// ---------- Numbers ----------

/// The decimal digit for a number below ten.
pub open spec fn digit(d: nat) -> char {
    (48 + d) as char
}

/// A natural number in decimal notation.
pub open spec fn decimal(n: nat) -> Seq<char>
    decreases n,
{
    if n < 10 {
        seq![digit(n)]
    } else {
        decimal(n / 10).push(digit(n % 10))
    }
}

/// An integer in decimal notation, with a `-` in front of a negative one.
pub open spec fn decimal_int(n: int) -> Seq<char> {
    if n < 0 {
        seq!['-'] + decimal((-n) as nat)
    } else {
        decimal(n as nat)
    }
}

/// Puts a natural number in decimal notation behind the text.
fn push_decimal(out: &mut String, n: u64)
    ensures
        final(out)@ == old(out)@ + decimal(n as nat),
    decreases n,
{
    let ghost before = out@;
    if n >= 10 {
        push_decimal(out, n / 10);
    }
    let ghost middle = out@;
    out.push((48u8 + (n % 10) as u8) as char);
    if n >= 10 {
        assert(middle.push(digit((n % 10) as nat)) =~= before + decimal(n as nat));
    } else {
        assert(middle.push(digit(n as nat)) =~= before + decimal(n as nat));
    }
}

/// An integer in decimal notation.
pub fn int_text(n: i64) -> (r: String)
    ensures
        r@ == decimal_int(n as int),
{
    let mut out: String = String::new();
    if n < 0 {
        out.push('-');
        let magnitude: u64 = if n == i64::MIN {
            9223372036854775808u64
        } else {
            (-n) as u64
        };
        push_decimal(&mut out, magnitude);
        assert(Seq::<char>::empty().push('-') =~= seq!['-']);
    } else {
        push_decimal(&mut out, n as u64);
        assert(Seq::<char>::empty() + decimal(n as nat) =~= decimal(n as nat));
    }
    out
}

} // verus!
