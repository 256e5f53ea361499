//! Text normalisation applied to what the crawler pulls out of a page:
//! removing line breaks and trimming surrounding white space, the way
//! `str::replace('\n', "")` and `str::trim` do it.
use vstd::prelude::*;

verus! {

/// The characters that `char::is_whitespace` accepts: those with the
/// Unicode `White_Space` property.
pub open spec fn is_white_space(c: char) -> bool {
    let n = c as u32;
    ||| 0x9 <= n <= 0xd
    ||| n == 0x20
    ||| n == 0x85
    ||| n == 0xa0
    ||| n == 0x1680
    ||| 0x2000 <= n <= 0x200a
    ||| n == 0x2028
    ||| n == 0x2029
    ||| n == 0x202f
    ||| n == 0x205f
    ||| n == 0x3000
}

/// `s` without its leading white space.
pub open spec fn trim_start(s: Seq<char>) -> Seq<char>
    decreases s.len(),
{
    if s.len() > 0 && is_white_space(s[0]) {
        trim_start(s.drop_first())
    } else {
        s
    }
}

/// `s` without its trailing white space.
pub open spec fn trim_end(s: Seq<char>) -> Seq<char>
    decreases s.len(),
{
    if s.len() > 0 && is_white_space(s.last()) {
        trim_end(s.drop_last())
    } else {
        s
    }
}

/// `s` without leading and trailing white space (`str::trim`).
pub open spec fn trimmed(s: Seq<char>) -> Seq<char> {
    trim_end(trim_start(s))
}

/// `s` with every line feed removed (`str::replace('\n', "")`).
pub open spec fn without_newlines(s: Seq<char>) -> Seq<char>
    decreases s.len(),
{
    if s.len() == 0 {
        s
    } else if s.last() == '\n' {
        without_newlines(s.drop_last())
    } else {
        without_newlines(s.drop_last()).push(s.last())
    }
}

/// A selected node's markup as the crawler keeps it: one line, trimmed.
pub open spec fn cleaned_markup(s: Seq<char>) -> Seq<char> {
    trimmed(without_newlines(s))
}

/// Appends one character to a string.
/// Calls `String::push`, whose documentation says that it appends the
/// character to the end of the string; the contract says exactly that.
#[verifier::external_body]
fn push_char(s: &mut String, c: char)
    ensures
        final(s)@ == old(s)@.push(c),
{
    s.push(c);
}

/// Whether `c` is white space (`char::is_whitespace`).
pub fn is_whitespace_char(c: char) -> (r: bool)
    ensures
        r == is_white_space(c),
{
    let n: u32 = c as u32;
    (0x9 <= n && n <= 0xd) || n == 0x20 || n == 0x85 || n == 0xa0 || n == 0x1680 || (0x2000 <= n
        && n <= 0x200a) || n == 0x2028 || n == 0x2029 || n == 0x202f || n == 0x205f || n == 0x3000
}

/// The characters of `s`, in order.
pub fn chars_of(s: &str) -> (v: Vec<char>)
    ensures
        v@ == s@,
{
    let mut v: Vec<char> = Vec::new();
    for c in it: s.chars()
        invariant
            v@ == it.seq().take(it.index() as int),
    {
        v.push(c);
    }
    v
}

/// The string made of `v[from..to]`.
fn string_of(v: &Vec<char>, from: usize, to: usize) -> (s: String)
    requires
        from <= to <= v.len(),
    ensures
        s@ == v@.subrange(from as int, to as int),
{
    let mut s = String::new();
    let mut i = from;
    while i < to
        invariant
            from <= i <= to <= v.len(),
            s@ == v@.subrange(from as int, i as int),
        decreases to - i,
    {
        push_char(&mut s, v[i]);
        assert(v@.subrange(from as int, i + 1) == v@.subrange(from as int, i as int).push(v@[i as int]));
        i = i + 1;
    }
    s
}

proof fn lemma_trim_start_skip(s: Seq<char>, k: int)
    requires
        0 <= k <= s.len(),
        forall|i: int| 0 <= i < k ==> is_white_space(#[trigger] s[i]),
        k == s.len() || !is_white_space(s[k]),
    ensures
        trim_start(s) == s.skip(k),
    decreases k,
{
    if k == 0 {
        assert(s.skip(0) == s);
    } else {
        let t = s.drop_first();
        assert forall|i: int| 0 <= i < k - 1 implies is_white_space(#[trigger] t[i]) by {
            assert(t[i] == s[i + 1]);
        }
        if k - 1 < t.len() {
            assert(t[k - 1] == s[k]);
        }
        lemma_trim_start_skip(t, k - 1);
        assert(t.skip(k - 1) == s.skip(k));
    }
}

proof fn lemma_trim_end_take(s: Seq<char>, e: int)
    requires
        0 <= e <= s.len(),
        forall|i: int| e <= i < s.len() ==> is_white_space(#[trigger] s[i]),
        e == 0 || !is_white_space(s[e - 1]),
    ensures
        trim_end(s) == s.take(e),
    decreases s.len() - e,
{
    if e == s.len() {
        assert(s.take(e) == s);
    } else {
        let t = s.drop_last();
        assert forall|i: int| e <= i < t.len() implies is_white_space(#[trigger] t[i]) by {
            assert(t[i] == s[i]);
        }
        if e > 0 {
            assert(t[e - 1] == s[e - 1]);
        }
        lemma_trim_end_take(t, e);
        assert(t.take(e) == s.take(e));
    }
}

/// `v` without leading and trailing white space, as a string.
pub fn trim_chars(v: &Vec<char>) -> (s: String)
    ensures
        s@ == trimmed(v@),
{
    let n = v.len();
    let mut k: usize = 0;
    while k < n && is_whitespace_char(v[k])
        invariant
            k <= n == v.len(),
            forall|i: int| 0 <= i < k ==> is_white_space(#[trigger] v@[i]),
        decreases n - k,
    {
        k = k + 1;
    }
    let mut e: usize = n;
    while e > k && is_whitespace_char(v[e - 1])
        invariant
            k <= e <= n == v.len(),
            forall|i: int| e <= i < n ==> is_white_space(#[trigger] v@[i]),
        decreases e,
    {
        e = e - 1;
    }
    proof {
        lemma_trim_start_skip(v@, k as int);
        let t = v@.skip(k as int);
        assert forall|i: int| e - k <= i < t.len() implies is_white_space(#[trigger] t[i]) by {
            assert(t[i] == v@[i + k]);
        }
        if e > k {
            assert(t[e - k - 1] == v@[e - 1]);
        }
        lemma_trim_end_take(t, e - k);
        assert(t.take(e - k) == v@.subrange(k as int, e as int));
    }
    string_of(v, k, e)
}

/// `s` without leading and trailing white space (`str::trim`).
pub fn trim(s: &str) -> (r: String)
    ensures
        r@ == trimmed(s@),
{
    let v = chars_of(s);
    trim_chars(&v)
}

/// The characters of `v` other than line feeds.
fn drop_newlines(v: &Vec<char>) -> (r: Vec<char>)
    ensures
        r@ == without_newlines(v@),
{
    let mut r: Vec<char> = Vec::new();
    let mut i: usize = 0;
    while i < v.len()
        invariant
            i <= v.len(),
            r@ == without_newlines(v@.take(i as int)),
        decreases v.len() - i,
    {
        assert(v@.take(i + 1).drop_last() == v@.take(i as int));
        if v[i] != '\n' {
            r.push(v[i]);
        }
        i = i + 1;
    }
    assert(v@.take(v.len() as int) == v@);
    r
}

/// A node's markup on one line and trimmed, as
/// `html.replace('\n', "").trim().to_owned()` gives it.
pub fn clean_markup(html: &str) -> (r: String)
    ensures
        r@ == cleaned_markup(html@),
{
    let v = chars_of(html);
    let w = drop_newlines(&v);
    trim_chars(&w)
}

proof fn lemma_trim_start_shape(s: Seq<char>)
    ensures
        trim_start(s).len() > 0 ==> !is_white_space(trim_start(s)[0]),
        exists|k: int| 0 <= k <= s.len() && trim_start(s) == #[trigger] s.skip(k),
    decreases s.len(),
{
    if s.len() > 0 && is_white_space(s[0]) {
        lemma_trim_start_shape(s.drop_first());
        let k = choose|k: int| 0 <= k <= s.drop_first().len() && trim_start(s.drop_first()) == #[trigger] s.drop_first().skip(k);
        assert(s.drop_first().skip(k) == s.skip(k + 1));
    } else {
        assert(s.skip(0) == s);
    }
}

proof fn lemma_trim_end_shape(s: Seq<char>)
    ensures
        trim_end(s).len() > 0 ==> !is_white_space(trim_end(s).last()),
        exists|e: int| 0 <= e <= s.len() && trim_end(s) == #[trigger] s.take(e),
    decreases s.len(),
{
    if s.len() > 0 && is_white_space(s.last()) {
        lemma_trim_end_shape(s.drop_last());
        let e = choose|e: int| 0 <= e <= s.drop_last().len() && trim_end(s.drop_last()) == #[trigger] s.drop_last().take(e);
        assert(s.drop_last().take(e) == s.take(e));
    } else {
        assert(s.take(s.len() as int) == s);
    }
}

proof fn lemma_trim_end_keeps_start(s: Seq<char>)
    requires
        s.len() > 0 ==> !is_white_space(s[0]),
    ensures
        trim_end(s).len() > 0 ==> !is_white_space(trim_end(s)[0]),
    decreases s.len(),
{
    if s.len() > 0 && is_white_space(s.last()) {
        if s.drop_last().len() > 0 {
            assert(s.drop_last()[0] == s[0]);
        }
        lemma_trim_end_keeps_start(s.drop_last());
    }
}

/// Trimming leaves neither leading nor trailing white space, and what it
/// returns is a contiguous piece of its input.
pub proof fn lemma_trimmed_shape(s: Seq<char>)
    ensures
        trimmed(s).len() > 0 ==> !is_white_space(trimmed(s)[0]),
        trimmed(s).len() > 0 ==> !is_white_space(trimmed(s).last()),
        exists|k: int, e: int| 0 <= k <= e <= s.len() && trimmed(s) == #[trigger] s.subrange(k, e),
{
    lemma_trim_start_shape(s);
    let k = choose|k: int| 0 <= k <= s.len() && trim_start(s) == #[trigger] s.skip(k);
    let t = s.skip(k);
    lemma_trim_end_shape(t);
    lemma_trim_end_keeps_start(t);
    let e = choose|e: int| 0 <= e <= t.len() && trim_end(t) == #[trigger] t.take(e);
    assert(t.take(e) == s.subrange(k, k + e));
}

/// Trimming twice gives what trimming once gives.
pub proof fn lemma_trimmed_idempotent(s: Seq<char>)
    ensures
        trimmed(trimmed(s)) == trimmed(s),
{
    lemma_trimmed_shape(s);
    let t = trimmed(s);
    if t.len() > 0 {
        lemma_trim_start_skip(t, 0);
        lemma_trim_end_take(t, t.len() as int);
        assert(t.skip(0) == t);
        assert(t.take(t.len() as int) == t);
    } else {
        assert(trim_start(t) == t);
    }
}

proof fn lemma_without_newlines_has_none(s: Seq<char>)
    ensures
        forall|i: int| 0 <= i < without_newlines(s).len() ==> #[trigger] without_newlines(s)[i] != '\n',
    decreases s.len(),
{
    if s.len() > 0 {
        let p = without_newlines(s.drop_last());
        lemma_without_newlines_has_none(s.drop_last());
        if s.last() != '\n' {
            assert forall|i: int| 0 <= i < p.push(s.last()).len() implies #[trigger] p.push(
                s.last(),
            )[i] != '\n' by {
                if i < p.len() {
                    assert(p.push(s.last())[i] == p[i]);
                }
            }
        }
    }
}

/// Markup as the crawler keeps it holds no line feed and starts and ends
/// with a character other than white space.
pub proof fn lemma_cleaned_markup_shape(s: Seq<char>)
    ensures
        forall|i: int| 0 <= i < cleaned_markup(s).len() ==> #[trigger] cleaned_markup(s)[i] != '\n',
        cleaned_markup(s).len() > 0 ==> !is_white_space(cleaned_markup(s)[0]),
        cleaned_markup(s).len() > 0 ==> !is_white_space(cleaned_markup(s).last()),
{
    let w = without_newlines(s);
    lemma_without_newlines_has_none(s);
    lemma_trimmed_shape(w);
    let (k, e) = choose|k: int, e: int| 0 <= k <= e <= w.len() && trimmed(w) == #[trigger] w.subrange(k, e);
    assert forall|i: int| 0 <= i < cleaned_markup(s).len() implies #[trigger] cleaned_markup(s)[i] != '\n' by {
        assert(cleaned_markup(s)[i] == w[i + k]);
    }
}

} // verus!
