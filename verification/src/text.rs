//! Text primitives over character sequences. Each operation is defined over
//! `Seq<char>` by a spec function that says what the matching std operation on
//! `str` does, and is implemented by a verified loop over a `Vec<char>`.
use vstd::prelude::*;

verus! {

broadcast use vstd::string::group_string_axioms;

// ---------------------------------------------------------------------------
// Specifications
// ---------------------------------------------------------------------------

/// `char::is_whitespace`: the Unicode `White_Space` property.
pub open spec fn is_ws(c: char) -> bool {
    let u = c as u32;
    ||| 0x09 <= u <= 0x0D
    ||| u == 0x20
    ||| u == 0x85
    ||| u == 0xA0
    ||| u == 0x1680
    ||| 0x2000 <= u <= 0x200A
    ||| u == 0x2028
    ||| u == 0x2029
    ||| u == 0x202F
    ||| u == 0x205F
    ||| u == 0x3000
}

/// `p` occurs in `s` starting at index `i`.
pub open spec fn occurs_at(s: Seq<char>, p: Seq<char>, i: int) -> bool {
    &&& 0 <= i
    &&& i + p.len() <= s.len()
    &&& s.subrange(i, i + p.len()) == p
}

/// `str::contains` with a string pattern.
pub open spec fn contains(s: Seq<char>, p: Seq<char>) -> bool {
    exists|i: int| occurs_at(s, p, i)
}

/// `str::starts_with` with a string pattern.
pub open spec fn starts_with(s: Seq<char>, p: Seq<char>) -> bool {
    occurs_at(s, p, 0)
}

/// `str::ends_with` with a string pattern.
pub open spec fn ends_with(s: Seq<char>, p: Seq<char>) -> bool {
    p.len() <= s.len() && occurs_at(s, p, s.len() - p.len())
}

/// `str::strip_prefix` with a string pattern.
pub open spec fn strip_prefix(s: Seq<char>, p: Seq<char>) -> Option<Seq<char>> {
    if starts_with(s, p) {
        Some(s.skip(p.len() as int))
    } else {
        None
    }
}

/// `str::trim_start_matches` with a single character.
pub open spec fn trim_start_char(s: Seq<char>, c: char) -> Seq<char>
    decreases s.len(),
{
    if s.len() > 0 && s[0] == c {
        trim_start_char(s.drop_first(), c)
    } else {
        s
    }
}

/// `str::trim_end_matches` with a non-empty string pattern: the suffix is
/// removed as long as it is there.
pub open spec fn trim_end_pattern(s: Seq<char>, p: Seq<char>) -> Seq<char>
    decreases s.len(),
{
    if p.len() > 0 && ends_with(s, p) {
        trim_end_pattern(s.take(s.len() - p.len()), p)
    } else {
        s
    }
}

/// `str::trim_start`: leading whitespace removed.
pub open spec fn trim_start(s: Seq<char>) -> Seq<char>
    decreases s.len(),
{
    if s.len() > 0 && is_ws(s[0]) {
        trim_start(s.drop_first())
    } else {
        s
    }
}

/// `str::trim_end`: trailing whitespace removed.
pub open spec fn trim_end(s: Seq<char>) -> Seq<char>
    decreases s.len(),
{
    if s.len() > 0 && is_ws(s.last()) {
        trim_end(s.drop_last())
    } else {
        s
    }
}

/// `str::trim`.
pub open spec fn trim(s: Seq<char>) -> Seq<char> {
    trim_end(trim_start(s))
}

/// Number of characters before the first `c` (the whole length if none).
pub open spec fn len_before(s: Seq<char>, c: char) -> nat
    decreases s.len(),
{
    if s.len() == 0 || s[0] == c {
        0
    } else {
        1 + len_before(s.drop_first(), c)
    }
}

/// A line as `str::lines` gives it: the `\n` is gone, and a `\r` just
/// before it too.
pub open spec fn strip_cr(l: Seq<char>) -> Seq<char> {
    if l.len() > 0 && l.last() == '\r' {
        l.drop_last()
    } else {
        l
    }
}

/// `str::lines`.
pub open spec fn lines(s: Seq<char>) -> Seq<Seq<char>>
    decreases s.len(),
{
    if s.len() == 0 {
        seq![]
    } else {
        let k = len_before(s, '\n');
        if k < s.len() {
            seq![strip_cr(s.take(k as int))] + lines(s.skip(k + 1 as int))
        } else {
            seq![s]
        }
    }
}

/// Length of the leading run of non-whitespace characters.
pub open spec fn word_len(s: Seq<char>) -> nat
    decreases s.len(),
{
    if s.len() == 0 || is_ws(s[0]) {
        0
    } else {
        1 + word_len(s.drop_first())
    }
}

/// `str::split_whitespace`.
pub open spec fn words(s: Seq<char>) -> Seq<Seq<char>>
    decreases s.len(),
{
    if s.len() == 0 {
        seq![]
    } else if is_ws(s[0]) {
        words(s.drop_first())
    } else {
        proof {
            lemma_word_len_bound(s);
        }
        let n = word_len(s);
        seq![s.take(n as int)] + words(s.skip(n as int))
    }
}

/// `[String]::join`.
pub open spec fn join(parts: Seq<Seq<char>>, sep: Seq<char>) -> Seq<char>
    decreases parts.len(),
{
    if parts.len() == 0 {
        seq![]
    } else if parts.len() == 1 {
        parts[0]
    } else {
        join(parts.drop_last(), sep) + sep + parts.last()
    }
}

/// `str::split_once` on a character, keeping what follows the first `c`
/// (as `splitn(2, c).nth(1)` does).
pub open spec fn after_first(s: Seq<char>, c: char) -> Option<Seq<char>> {
    let k = len_before(s, c);
    if k < s.len() {
        Some(s.skip(k + 1 as int))
    } else {
        None
    }
}

/// The view of an optional string.
pub open spec fn opt_view(o: Option<String>) -> Option<Seq<char>> {
    match o {
        Some(s) => Some(s@),
        None => None,
    }
}

/// The views of a vector of character vectors.
pub open spec fn views(v: Seq<Vec<char>>) -> Seq<Seq<char>> {
    v.map_values(|x: Vec<char>| x@)
}

// ---------------------------------------------------------------------------
// Lemmas
// ---------------------------------------------------------------------------

pub proof fn lemma_len_before(s: Seq<char>, c: char, k: int)
    requires
        0 <= k <= s.len(),
        forall|j: int| 0 <= j < k ==> s[j] != c,
        k == s.len() || s[k] == c,
    ensures
        len_before(s, c) == k,
    decreases k,
{
    if k > 0 {
        lemma_len_before(s.drop_first(), c, k - 1);
    }
}

pub proof fn lemma_len_before_bound(s: Seq<char>, c: char)
    ensures
        len_before(s, c) <= s.len(),
        len_before(s, c) < s.len() ==> s[len_before(s, c) as int] == c,
        forall|j: int| 0 <= j < len_before(s, c) ==> s[j] != c,
    decreases s.len(),
{
    if s.len() > 0 && s[0] != c {
        lemma_len_before_bound(s.drop_first(), c);
        assert forall|j: int| 0 <= j < len_before(s, c) implies s[j] != c by {
            if j > 0 {
                assert(s[j] == s.drop_first()[j - 1]);
            }
        }
    }
}

pub proof fn lemma_word_len_bound(s: Seq<char>)
    ensures
        word_len(s) <= s.len(),
        s.len() > 0 && !is_ws(s[0]) ==> word_len(s) >= 1,
    decreases s.len(),
{
    if s.len() > 0 && !is_ws(s[0]) {
        lemma_word_len_bound(s.drop_first());
    }
}

pub proof fn lemma_word_len(s: Seq<char>, k: int)
    requires
        0 <= k <= s.len(),
        forall|j: int| 0 <= j < k ==> !is_ws(s[j]),
        k == s.len() || is_ws(s[k]),
    ensures
        word_len(s) == k,
    decreases k,
{
    if k > 0 {
        lemma_word_len(s.drop_first(), k - 1);
    }
}

pub proof fn lemma_trim_start_skip(s: Seq<char>, a: int)
    requires
        0 <= a <= s.len(),
        forall|j: int| 0 <= j < a ==> is_ws(s[j]),
    ensures
        trim_start(s) == trim_start(s.skip(a)),
    decreases a,
{
    if a > 0 {
        assert(s.skip(a) =~= s.drop_first().skip(a - 1));
        lemma_trim_start_skip(s.drop_first(), a - 1);
    } else {
        assert(s.skip(0) =~= s);
    }
}

pub proof fn lemma_trim_end_take(s: Seq<char>, b: int)
    requires
        0 <= b <= s.len(),
        forall|j: int| b <= j < s.len() ==> is_ws(s[j]),
    ensures
        trim_end(s) == trim_end(s.take(b)),
    decreases s.len() - b,
{
    if b < s.len() {
        assert(s.take(b) =~= s.drop_last().take(b));
        lemma_trim_end_take(s.drop_last(), b);
    } else {
        assert(s.take(b) =~= s);
    }
}

/// The leading word of `s` is made of non-whitespace characters and is
/// followed by whitespace or the end.
pub proof fn lemma_word_len_props(s: Seq<char>)
    ensures
        word_len(s) <= s.len(),
        forall|j: int| 0 <= j < word_len(s) ==> !is_ws(#[trigger] s[j]),
        word_len(s) < s.len() ==> is_ws(s[word_len(s) as int]),
    decreases s.len(),
{
    if s.len() > 0 && !is_ws(s[0]) {
        let t = s.drop_first();
        lemma_word_len_props(t);
        assert forall|j: int| 0 <= j < word_len(s) implies !is_ws(#[trigger] s[j]) by {
            if j > 0 {
                assert(s[j] == t[j - 1]);
            }
        }
        if word_len(s) < s.len() {
            assert(s[word_len(s) as int] == t[word_len(t) as int]);
        }
    }
}

/// Appending to a string whose leading word ends before its end does not
/// change that word.
pub proof fn lemma_word_len_prefix(a: Seq<char>, b: Seq<char>)
    requires
        word_len(a) < a.len(),
    ensures
        word_len(a + b) == word_len(a),
    decreases a.len(),
{
    if !is_ws(a[0]) {
        assert((a + b)[0] == a[0]);
        assert((a + b).drop_first() =~= a.drop_first() + b);
        lemma_word_len_prefix(a.drop_first(), b);
    } else {
        assert((a + b)[0] == a[0]);
    }
}

/// Splitting at whitespace goes word by word across a break made of
/// whitespace: `a` ends with whitespace (or is empty).
pub proof fn lemma_words_concat(a: Seq<char>, b: Seq<char>)
    requires
        a.len() == 0 || is_ws(a.last()),
    ensures
        words(a + b) == words(a) + words(b),
    decreases a.len(),
{
    if a.len() == 0 {
        assert(a + b =~= b);
        assert(words(a) + words(b) =~= words(b));
    } else if is_ws(a[0]) {
        assert((a + b)[0] == a[0]);
        assert((a + b).drop_first() =~= a.drop_first() + b);
        lemma_words_concat(a.drop_first(), b);
    } else {
        lemma_word_len_props(a);
        lemma_word_len_bound(a);
        if word_len(a) == a.len() {
            assert(!is_ws(a[a.len() - 1]));
        }
        let n = word_len(a) as int;
        lemma_word_len_prefix(a, b);
        assert((a + b)[0] == a[0]);
        assert((a + b).take(n) =~= a.take(n));
        assert((a + b).skip(n) =~= a.skip(n) + b);
        assert(a.skip(n).last() == a.last());
        lemma_words_concat(a.skip(n), b);
        assert(words(a + b) =~= words(a) + words(b));
    }
}

/// A whitespace character at the end of a string adds no word.
pub proof fn lemma_words_trailing_ws(x: Seq<char>, c: char)
    requires
        is_ws(c),
    ensures
        words(x.push(c)) == words(x),
    decreases x.len(),
{
    let y = x.push(c);
    if x.len() == 0 {
        assert(y[0] == c);
        assert(y.drop_first() =~= Seq::<char>::empty());
        assert(words(y.drop_first()) =~= Seq::<Seq<char>>::empty());
        assert(words(x) =~= Seq::<Seq<char>>::empty());
    } else if is_ws(x[0]) {
        assert(y[0] == x[0]);
        assert(y.drop_first() =~= x.drop_first().push(c));
        lemma_words_trailing_ws(x.drop_first(), c);
    } else {
        lemma_word_len_props(x);
        lemma_word_len_bound(x);
        let n = word_len(x) as int;
        if n < x.len() {
            lemma_word_len_prefix(x, seq![c]);
            assert(x + seq![c] =~= y);
        } else {
            assert forall|j: int| 0 <= j < n implies !is_ws(#[trigger] y[j]) by {
                assert(y[j] == x[j]);
            }
            lemma_word_len(y, n);
        }
        assert(y[0] == x[0]);
        assert(y.take(n) =~= x.take(n));
        assert(y.skip(n) =~= x.skip(n).push(c));
        lemma_words_trailing_ws(x.skip(n), c);
        assert(words(y) == seq![y.take(n)] + words(y.skip(n)));
        assert(words(x) == seq![x.take(n)] + words(x.skip(n)));
    }
}

/// A non-empty string without whitespace is one word.
pub proof fn lemma_words_single(p: Seq<char>)
    requires
        p.len() > 0,
        forall|j: int| 0 <= j < p.len() ==> !is_ws(#[trigger] p[j]),
    ensures
        words(p) == seq![p],
{
    lemma_word_len(p, p.len() as int);
    assert(p.take(p.len() as int) =~= p);
    assert(p.skip(p.len() as int) =~= Seq::<char>::empty());
    assert(words(p.skip(p.len() as int)) =~= Seq::<Seq<char>>::empty());
    assert(words(p) == seq![p.take(p.len() as int)] + words(p.skip(p.len() as int)));
    assert(words(p) =~= seq![p]);
}

/// Splitting at whitespace gives back words joined with a space.
pub proof fn lemma_words_of_join(ps: Seq<Seq<char>>)
    requires
        forall|i: int| 0 <= i < ps.len() ==> (#[trigger] ps[i]).len() > 0,
        forall|i: int, j: int| 0 <= i < ps.len() && 0 <= j < ps[i].len() ==> !is_ws(#[trigger] ps[i][j]),
    ensures
        words(join(ps, " "@)) == ps,
    decreases ps.len(),
{
    reveal_strlit(" ");
    if ps.len() == 1 {
        assert(ps[0].len() > 0);
        assert forall|j: int| 0 <= j < ps[0].len() implies !is_ws(#[trigger] ps[0][j]) by {}
        lemma_words_single(ps[0]);
        assert(seq![ps[0]] =~= ps);
    } else if ps.len() > 1 {
        let front = ps.drop_last();
        let last = ps.last();
        assert forall|i: int| 0 <= i < front.len() implies (#[trigger] front[i]).len() > 0 by {
            assert(front[i] == ps[i]);
        }
        assert forall|i: int, j: int| 0 <= i < front.len() && 0 <= j < front[i].len() implies !is_ws(
            #[trigger] front[i][j],
        ) by {
            assert(front[i] == ps[i]);
        }
        lemma_words_of_join(front);
        let x = join(front, " "@);
        assert(ps[ps.len() - 1] == last);
        assert(last.len() > 0);
        assert forall|j: int| 0 <= j < last.len() implies !is_ws(#[trigger] last[j]) by {
            assert(ps[ps.len() - 1][j] == last[j]);
        }
        lemma_words_single(last);
        let xs = x.push(' ');
        assert(x + " "@ =~= xs);
        lemma_words_concat(xs, last);
        lemma_words_trailing_ws(x, ' ');
        assert(join(ps, " "@) == xs + last);
        assert(words(join(ps, " "@)) =~= ps);
    }
}

pub proof fn lemma_trim_start_char_skip(s: Seq<char>, c: char, a: int)
    requires
        0 <= a <= s.len(),
        forall|j: int| 0 <= j < a ==> s[j] == c,
    ensures
        trim_start_char(s, c) == trim_start_char(s.skip(a), c),
    decreases a,
{
    if a > 0 {
        assert(s.skip(a) =~= s.drop_first().skip(a - 1));
        lemma_trim_start_char_skip(s.drop_first(), c, a - 1);
    } else {
        assert(s.skip(0) =~= s);
    }
}

// ---------------------------------------------------------------------------
// Executable operations
// ---------------------------------------------------------------------------

/// Appends one character to a string (std `String::push`).
/// Claimed: the string afterwards is the old one followed by `c`.
#[verifier::external_body]
pub(crate) fn push_char(s: &mut String, c: char)
    ensures
        final(s)@ == old(s)@.push(c),
{
    s.push(c);
}

/// The characters of `s`, in order.
pub fn chars_of(s: &str) -> (v: Vec<char>)
    ensures
        v@ == s@,
{
    let mut v: Vec<char> = Vec::new();
    for c in it: s.chars()
        invariant
            it.seq() == s@,
            v@ == it.seq().take(it.index() as int),
    {
        v.push(c);
        assert(it.seq().take(it.index() + 1) == v@);
    }
    v
}

/// The string made of `v[from..to]`.
pub fn string_of_range(v: &Vec<char>, from: usize, to: usize) -> (s: String)
    requires
        from <= to <= v.len(),
    ensures
        s@ == v@.subrange(from as int, to as int),
{
    let mut s = String::new();
    let mut i = from;
    while i < to
        invariant
            from <= i <= to <= v.len(),
            s@ == v@.subrange(from as int, i as int),
        decreases to - i,
    {
        push_char(&mut s, v[i]);
        i = i + 1;
        assert(s@ =~= v@.subrange(from as int, i as int));
    }
    s
}

/// The string made of all of `v`.
pub fn string_of(v: &Vec<char>) -> (s: String)
    ensures
        s@ == v@,
{
    let s = string_of_range(v, 0, v.len());
    assert(v@.subrange(0, v@.len() as int) =~= v@);
    s
}

/// The characters of `v[from..to]` as a vector.
pub fn slice_vec(v: &Vec<char>, from: usize, to: usize) -> (r: Vec<char>)
    requires
        from <= to <= v.len(),
    ensures
        r@ == v@.subrange(from as int, to as int),
{
    let mut r: Vec<char> = Vec::new();
    let mut i = from;
    while i < to
        invariant
            from <= i <= to <= v.len(),
            r@ == v@.subrange(from as int, i as int),
        decreases to - i,
    {
        r.push(v[i]);
        i = i + 1;
        assert(r@ =~= v@.subrange(from as int, i as int));
    }
    r
}

/// Appends the characters of `v` to `s`.
pub fn push_all(s: &mut String, v: &Vec<char>)
    ensures
        final(s)@ == old(s)@ + v@,
{
    let ghost s0 = s@;
    let mut i: usize = 0;
    while i < v.len()
        invariant
            i <= v.len(),
            s@ == s0 + v@.take(i as int),
        decreases v.len() - i,
    {
        push_char(s, v[i]);
        i = i + 1;
        assert(s@ =~= s0 + v@.take(i as int));
    }
    assert(v@.take(v.len() as int) =~= v@);
}

/// `char::is_whitespace`.
pub fn is_whitespace(c: char) -> (b: bool)
    ensures
        b == is_ws(c),
{
    let u = c as u32;
    (0x09 <= u && u <= 0x0D) || u == 0x20 || u == 0x85 || u == 0xA0 || u == 0x1680 || (0x2000
        <= u && u <= 0x200A) || u == 0x2028 || u == 0x2029 || u == 0x202F || u == 0x205F || u
        == 0x3000
}

/// Does `p` occur in `s` at index `i`?
pub fn occurs_at_exec(s: &Vec<char>, p: &Vec<char>, i: usize) -> (b: bool)
    ensures
        b == occurs_at(s@, p@, i as int),
{
    if i > s.len() || p.len() > s.len() - i {
        return false;
    }
    let mut k: usize = 0;
    while k < p.len()
        invariant
            k <= p.len(),
            i + p.len() <= s.len(),
            forall|j: int| 0 <= j < k ==> s@[i + j] == p@[j],
        decreases p.len() - k,
    {
        if s[i + k] != p[k] {
            assert(s@.subrange(i as int, i + p.len())[k as int] != p@[k as int]);
            return false;
        }
        k = k + 1;
    }
    assert(s@.subrange(i as int, i + p.len()) =~= p@);
    true
}

/// `str::contains`.
pub fn contains_exec(s: &Vec<char>, p: &Vec<char>) -> (b: bool)
    ensures
        b == contains(s@, p@),
{
    if p.len() > s.len() {
        assert forall|i: int| !occurs_at(s@, p@, i) by {}
        return false;
    }
    let last = s.len() - p.len();
    let mut i: usize = 0;
    loop
        invariant
            last == s.len() - p.len(),
            i <= last,
            forall|j: int| 0 <= j < i ==> !occurs_at(s@, p@, j),
        ensures
            forall|j: int| 0 <= j <= last ==> !occurs_at(s@, p@, j),
        decreases last - i,
    {
        if occurs_at_exec(s, p, i) {
            return true;
        }
        if i == last {
            break;
        }
        i = i + 1;
    }
    assert forall|j: int| !occurs_at(s@, p@, j) by {
        if 0 <= j && j + p@.len() <= s@.len() {
            assert(j <= last);
        }
    }
    false
}

/// `str::contains` on strings.
pub fn str_contains(s: &str, p: &str) -> (b: bool)
    ensures
        b == contains(s@, p@),
{
    let sv = chars_of(s);
    let pv = chars_of(p);
    contains_exec(&sv, &pv)
}

/// `str::starts_with` on strings.
pub fn str_starts_with(s: &str, p: &str) -> (b: bool)
    ensures
        b == starts_with(s@, p@),
{
    let sv = chars_of(s);
    let pv = chars_of(p);
    occurs_at_exec(&sv, &pv, 0)
}

/// `str::ends_with` on strings.
pub fn str_ends_with(s: &str, p: &str) -> (b: bool)
    ensures
        b == ends_with(s@, p@),
{
    let sv = chars_of(s);
    let pv = chars_of(p);
    if pv.len() > sv.len() {
        false
    } else {
        occurs_at_exec(&sv, &pv, sv.len() - pv.len())
    }
}

/// Equality of two strings by their characters.
pub fn str_eq(a: &str, b: &str) -> (r: bool)
    ensures
        r == (a@ == b@),
{
    let av = chars_of(a);
    let bv = chars_of(b);
    if av.len() != bv.len() {
        return false;
    }
    let r = occurs_at_exec(&av, &bv, 0);
    assert(av@.subrange(0, bv@.len() as int) =~= av@);
    r
}

/// `str::trim`.
pub fn trim_exec(v: &Vec<char>) -> (r: Vec<char>)
    ensures
        r@ == trim(v@),
{
    let mut a: usize = 0;
    while a < v.len() && is_whitespace(v[a])
        invariant
            a <= v.len(),
            forall|j: int| 0 <= j < a ==> is_ws(v@[j]),
        decreases v.len() - a,
    {
        a = a + 1;
    }
    proof {
        lemma_trim_start_skip(v@, a as int);
    }
    let ghost t = v@.skip(a as int);
    assert(trim_start(t) == t);
    let mut b: usize = v.len();
    while b > a && is_whitespace(v[b - 1])
        invariant
            a <= b <= v.len(),
            forall|j: int| b <= j < v.len() ==> is_ws(v@[j]),
        decreases b - a,
    {
        b = b - 1;
    }
    proof {
        lemma_trim_end_take(t, b - a);
        assert(t.take(b - a) =~= v@.subrange(a as int, b as int));
        let u = t.take(b - a);
        assert(u.len() == 0 || !is_ws(u.last()));
    }
    slice_vec(v, a, b)
}

/// `str::trim` on strings.
pub fn str_trim(s: &str) -> (r: String)
    ensures
        r@ == trim(s@),
{
    let v = chars_of(s);
    let t = trim_exec(&v);
    string_of(&t)
}

/// The index of the first `c` in `v[from..]`, or `v.len()`.
pub fn index_of_from(v: &Vec<char>, c: char, from: usize) -> (k: usize)
    requires
        from <= v.len(),
    ensures
        from <= k <= v.len(),
        k - from == len_before(v@.skip(from as int), c),
        k < v.len() ==> v@[k as int] == c,
{
    let mut k = from;
    while k < v.len() && v[k] != c
        invariant
            from <= k <= v.len(),
            forall|j: int| from <= j < k ==> v@[j] != c,
        decreases v.len() - k,
    {
        k = k + 1;
    }
    proof {
        lemma_len_before(v@.skip(from as int), c, k - from);
    }
    k
}

/// `str::lines`.
pub fn lines_exec(v: &Vec<char>) -> (r: Vec<Vec<char>>)
    ensures
        views(r@) == lines(v@),
{
    let mut r: Vec<Vec<char>> = Vec::new();
    let mut start: usize = 0;
    assert(v@.skip(0) =~= v@);
    while start < v.len()
        invariant
            start <= v.len(),
            lines(v@) == views(r@) + lines(v@.skip(start as int)),
        decreases v.len() - start,
    {
        let ghost rest = v@.skip(start as int);
        let k = index_of_from(v, '\n', start);
        if k < v.len() {
            let end = if k > start && v[k - 1] == '\r' {
                k - 1
            } else {
                k
            };
            let line = slice_vec(v, start, end);
            proof {
                assert(rest.take(k - start) =~= v@.subrange(start as int, k as int));
                assert(strip_cr(rest.take(k - start)) =~= line@);
                assert(rest.skip(k - start + 1) =~= v@.skip(k + 1));
            }
            r.push(line);
            start = k + 1;
            assert(views(r@) =~= views(r@.drop_last()).push(line@));
        } else {
            let line = slice_vec(v, start, v.len());
            assert(line@ =~= rest);
            r.push(line);
            assert(views(r@) =~= views(r@.drop_last()).push(line@));
            start = v.len();
            assert(v@.skip(start as int) =~= Seq::<char>::empty());
        }
    }
    assert(v@.skip(start as int) =~= Seq::<char>::empty());
    assert(views(r@) + lines(Seq::<char>::empty()) =~= views(r@));
    r
}

/// `str::split_whitespace`.
pub fn words_exec(v: &Vec<char>) -> (r: Vec<Vec<char>>)
    ensures
        views(r@) == words(v@),
{
    let mut r: Vec<Vec<char>> = Vec::new();
    let mut start: usize = 0;
    assert(v@.skip(0) =~= v@);
    while start < v.len()
        invariant
            start <= v.len(),
            words(v@) == views(r@) + words(v@.skip(start as int)),
        decreases v.len() - start,
    {
        let ghost rest = v@.skip(start as int);
        if is_whitespace(v[start]) {
            assert(rest.drop_first() =~= v@.skip(start + 1));
            start = start + 1;
        } else {
            let mut k = start + 1;
            while k < v.len() && !is_whitespace(v[k])
                invariant
                    start < k <= v.len(),
                    forall|j: int| start <= j < k ==> !is_ws(v@[j]),
                decreases v.len() - k,
            {
                k = k + 1;
            }
            proof {
                lemma_word_len(rest, k - start);
                assert(rest.take(k - start) =~= v@.subrange(start as int, k as int));
                assert(rest.skip(k - start) =~= v@.skip(k as int));
            }
            let w = slice_vec(v, start, k);
            r.push(w);
            assert(views(r@) =~= views(r@.drop_last()).push(w@));
            start = k;
        }
    }
    assert(v@.skip(start as int) =~= Seq::<char>::empty());
    assert(views(r@) + words(Seq::<char>::empty()) =~= views(r@));
    r
}

/// `str::trim_start_matches` with a single character.
pub fn trim_start_char_exec(v: &Vec<char>, c: char) -> (r: Vec<char>)
    ensures
        r@ == trim_start_char(v@, c),
{
    let mut a: usize = 0;
    while a < v.len() && v[a] == c
        invariant
            a <= v.len(),
            forall|j: int| 0 <= j < a ==> v@[j] == c,
        decreases v.len() - a,
    {
        a = a + 1;
    }
    proof {
        lemma_trim_start_char_skip(v@, c, a as int);
    }
    let r = slice_vec(v, a, v.len());
    assert(r@ =~= v@.skip(a as int));
    r
}

/// `str::trim_end_matches` with a string pattern.
pub fn trim_end_pattern_exec(v: &Vec<char>, p: &Vec<char>) -> (r: Vec<char>)
    ensures
        r@ == trim_end_pattern(v@, p@),
{
    let mut b: usize = v.len();
    assert(v@.take(b as int) =~= v@);
    if p.len() > 0 {
        while p.len() <= b && occurs_at_exec(v, p, b - p.len())
            invariant
                b <= v.len(),
                p.len() > 0,
                trim_end_pattern(v@, p@) == trim_end_pattern(v@.take(b as int), p@),
            decreases b,
        {
            let ghost t = v@.take(b as int);
            assert(t.subrange(b - p.len(), b as int) =~= v@.subrange(b - p.len(), b as int));
            assert(t.take(t.len() - p.len()) =~= v@.take(b - p.len()));
            b = b - p.len();
        }
        proof {
            let t = v@.take(b as int);
            if p@.len() <= t.len() {
                assert(t.subrange(b - p.len(), b as int) =~= v@.subrange(b - p.len(), b as int));
            }
        }
    }
    slice_vec(v, 0, b)
}

/// `str::strip_prefix` with a string pattern.
pub fn strip_prefix_exec(v: &Vec<char>, p: &Vec<char>) -> (r: Option<Vec<char>>)
    ensures
        r matches Some(x) ==> strip_prefix(v@, p@) == Some(x@),
        r is None ==> strip_prefix(v@, p@) is None,
{
    if occurs_at_exec(v, p, 0) {
        let x = slice_vec(v, p.len(), v.len());
        assert(x@ =~= v@.skip(p@.len() as int));
        Some(x)
    } else {
        None
    }
}

/// What follows the first `c` in `v`, if `c` occurs.
pub fn after_first_exec(v: &Vec<char>, c: char) -> (r: Option<Vec<char>>)
    ensures
        r matches Some(x) ==> after_first(v@, c) == Some(x@),
        r is None ==> after_first(v@, c) is None,
{
    let k = index_of_from(v, c, 0);
    assert(v@.skip(0) =~= v@);
    if k < v.len() {
        let x = slice_vec(v, k + 1, v.len());
        assert(x@ =~= v@.skip(k + 1));
        Some(x)
    } else {
        None
    }
}

/// `[String]::join`.
pub fn join_strings(parts: &[String], sep: &str) -> (r: String)
    ensures
        r@ == join(parts@.map_values(|x: String| x@), sep@),
{
    let ghost pv = parts@.map_values(|x: String| x@);
    let mut r = String::new();
    let sv = chars_of(sep);
    let mut i: usize = 0;
    assert(pv.take(0) =~= Seq::<Seq<char>>::empty());
    while i < parts.len()
        invariant
            i <= parts.len(),
            pv == parts@.map_values(|x: String| x@),
            sv@ == sep@,
            r@ == join(pv.take(i as int), sep@),
        decreases parts.len() - i,
    {
        let part = chars_of(parts[i].as_str());
        if i > 0 {
            push_all(&mut r, &sv);
        }
        push_all(&mut r, &part);
        proof {
            let t = pv.take(i + 1);
            assert(t.drop_last() =~= pv.take(i as int));
            assert(t.last() == part@);
            if i == 0 {
                assert(r@ =~= part@);
            }
        }
        i = i + 1;
    }
    assert(pv.take(parts.len() as int) =~= pv);
    r
}

} // verus!
