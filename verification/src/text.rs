//! Text as a sequence of characters: trimming, splitting, searching and joining.

use vstd::prelude::*;
use vstd::string::*;

verus! {

/// Appends one character.
///
/// Stands for `String::push` of the standard library: the text afterwards is
/// the text before, followed by `c`.
pub assume_specification[ String::push ](s: &mut String, c: char)
    ensures
        final(s)@ == old(s)@.push(c),
;

/// The Unicode property `White_Space`.
pub open spec fn is_space(c: char) -> bool {
    ||| 0x09 <= c as u32 <= 0x0d
    ||| c as u32 == 0x20
    ||| c as u32 == 0x85
    ||| c as u32 == 0xa0
    ||| c as u32 == 0x1680
    ||| 0x2000 <= c as u32 <= 0x200a
    ||| c as u32 == 0x2028
    ||| c as u32 == 0x2029
    ||| c as u32 == 0x202f
    ||| c as u32 == 0x205f
    ||| c as u32 == 0x3000
}

/// Whether `c` is white space.
pub fn is_whitespace(c: char) -> (res: bool)
    ensures
        res == is_space(c),
{
    let u: u32 = c as u32;
    (0x09 <= u && u <= 0x0d) || u == 0x20 || u == 0x85 || u == 0xa0 || u == 0x1680 || (0x2000 <= u
        && u <= 0x200a) || u == 0x2028 || u == 0x2029 || u == 0x202f || u == 0x205f || u == 0x3000
}

/// `s` without its leading white space.
pub open spec fn trim_start(s: Seq<char>) -> Seq<char>
    decreases s.len(),
{
    if s.len() > 0 && is_space(s[0]) {
        trim_start(s.drop_first())
    } else {
        s
    }
}

/// `s` without its trailing white space.
pub open spec fn trim_end(s: Seq<char>) -> Seq<char>
    decreases s.len(),
{
    if s.len() > 0 && is_space(s.last()) {
        trim_end(s.drop_last())
    } else {
        s
    }
}

/// `s` without the white space around it.
pub open spec fn trimmed(s: Seq<char>) -> Seq<char> {
    trim_end(trim_start(s))
}

pub proof fn lemma_trim_start_at(s: Seq<char>, i: int)
    requires
        0 <= i <= s.len(),
        forall|k: int| 0 <= k < i ==> is_space(#[trigger] s[k]),
        i == s.len() || !is_space(s[i]),
    ensures
        trim_start(s) == s.skip(i),
    decreases i,
{
    if i > 0 {
        assert forall|k: int| 0 <= k < i - 1 implies is_space(#[trigger] s.drop_first()[k]) by {
            assert(is_space(s[k + 1]));
        }
        assert(is_space(s[0]));
        lemma_trim_start_at(s.drop_first(), i - 1);
        assert(s.drop_first().skip(i - 1) =~= s.skip(i));
    } else {
        assert(s.skip(0) =~= s);
    }
}

pub proof fn lemma_trim_end_at(s: Seq<char>, j: int)
    requires
        0 <= j <= s.len(),
        forall|k: int| j <= k < s.len() ==> is_space(#[trigger] s[k]),
        j == 0 || !is_space(s[j - 1]),
    ensures
        trim_end(s) == s.take(j),
    decreases s.len() - j,
{
    if j < s.len() {
        assert(is_space(s[s.len() - 1]));
        assert forall|k: int| j <= k < s.drop_last().len() implies is_space(
            #[trigger] s.drop_last()[k],
        ) by {
            assert(is_space(s[k]));
        }
        lemma_trim_end_at(s.drop_last(), j);
        assert(s.drop_last().take(j) =~= s.take(j));
    } else {
        assert(s.take(j) =~= s);
    }
}

/// The characters of `s`.
pub fn chars_of(s: &str) -> (v: Vec<char>)
    ensures
        v@ == s@,
{
    let mut v: Vec<char> = Vec::new();
    for c in it: s.chars()
        invariant
            v@ == it.seq().take(it.index() as int),
            it.seq() == s@,
    {
        v.push(c);
    }
    v
}

/// The text made of `v[from..to]`.
pub fn text_of(v: &Vec<char>, from: usize, to: usize) -> (s: String)
    requires
        from <= to <= v@.len(),
    ensures
        s@ == v@.subrange(from as int, to as int),
{
    let mut s: String = String::new();
    let mut i: usize = from;
    while i < to
        invariant
            from <= i <= to <= v@.len(),
            s@ == v@.subrange(from as int, i as int),
        decreases to - i,
    {
        s.push(v[i]);
        i = i + 1;
    }
    s
}

/// `s` without the white space around it.
pub fn trim(s: &str) -> (res: String)
    ensures
        res@ == trimmed(s@),
{
    let v: Vec<char> = chars_of(s);
    let mut i: usize = 0;
    while i < v.len() && is_whitespace(v[i])
        invariant
            0 <= i <= v@.len(),
            forall|k: int| 0 <= k < i ==> is_space(#[trigger] v@[k]),
        decreases v@.len() - i,
    {
        i = i + 1;
    }
    let mut j: usize = v.len();
    while j > i && is_whitespace(v[j - 1])
        invariant
            i <= j <= v@.len(),
            forall|k: int| j <= k < v@.len() ==> is_space(#[trigger] v@[k]),
        decreases j,
    {
        j = j - 1;
    }
    proof {
        lemma_trim_start_at(v@, i as int);
        let t = v@.skip(i as int);
        assert forall|k: int| j - i <= k < t.len() implies is_space(#[trigger] t[k]) by {
            assert(is_space(v@[k + i]));
        }
        lemma_trim_end_at(t, j - i);
        assert(t.take(j - i) =~= v@.subrange(i as int, j as int));
    }
    text_of(&v, i, j)
}

/// The length of the run of non-space characters that `s` begins with.
pub open spec fn word_end(s: Seq<char>) -> int
    decreases s.len(),
{
    if s.len() == 0 || is_space(s[0]) {
        0
    } else {
        1 + word_end(s.drop_first())
    }
}

proof fn lemma_word_end_bounds(s: Seq<char>)
    ensures
        0 <= word_end(s) <= s.len(),
        s.len() > 0 && !is_space(s[0]) ==> word_end(s) > 0,
    decreases s.len(),
{
    if s.len() > 0 && !is_space(s[0]) {
        lemma_word_end_bounds(s.drop_first());
    }
}

proof fn lemma_trim_start_len(s: Seq<char>)
    ensures
        trim_start(s).len() <= s.len(),
        trim_start(s).len() > 0 ==> !is_space(trim_start(s)[0]),
    decreases s.len(),
{
    if s.len() > 0 && is_space(s[0]) {
        lemma_trim_start_len(s.drop_first());
    }
}

proof fn lemma_word_end_at(s: Seq<char>, n: int)
    requires
        0 <= n <= s.len(),
        forall|k: int| 0 <= k < n ==> !is_space(#[trigger] s[k]),
        n == s.len() || is_space(s[n]),
    ensures
        word_end(s) == n,
    decreases n,
{
    if n > 0 {
        assert(!is_space(s[0]));
        assert forall|k: int| 0 <= k < n - 1 implies !is_space(#[trigger] s.drop_first()[k]) by {
            assert(!is_space(s[k + 1]));
        }
        lemma_word_end_at(s.drop_first(), n - 1);
    }
}

/// The words of `s`: its maximal runs of non-space characters, in order.
pub open spec fn words(s: Seq<char>) -> Seq<Seq<char>>
    decreases s.len(),
    via words_decreases
{
    let t = trim_start(s);
    if t.len() == 0 {
        Seq::empty()
    } else {
        seq![t.take(word_end(t))] + words(t.skip(word_end(t)))
    }
}

#[via_fn]
proof fn words_decreases(s: Seq<char>) {
    lemma_trim_start_len(s);
    lemma_word_end_bounds(trim_start(s));
}

/// The texts of a list of strings.
pub open spec fn texts(v: Seq<String>) -> Seq<Seq<char>> {
    v.map_values(|s: String| s@)
}

/// The words of `s`, in order.
pub fn split_words(s: &str) -> (res: Vec<String>)
    ensures
        texts(res@) == words(s@),
{
    let v: Vec<char> = chars_of(s);
    let mut res: Vec<String> = Vec::new();
    let mut i: usize = 0;
    proof {
        assert(v@.skip(0) =~= v@);
        assert(texts(res@) + words(v@) =~= words(v@));
    }
    while i < v.len()
        invariant
            0 <= i <= v@.len(),
            v@ == s@,
            words(s@) == texts(res@) + words(v@.skip(i as int)),
        decreases v@.len() - i,
    {
        let ghost start = i as int;
        while i < v.len() && is_whitespace(v[i])
            invariant
                start <= i <= v@.len(),
                forall|k: int| start <= k < i ==> is_space(#[trigger] v@[k]),
            decreases v@.len() - i,
        {
            i = i + 1;
        }
        let from: usize = i;
        proof {
            let r = v@.skip(start);
            assert forall|k: int| 0 <= k < from - start implies is_space(#[trigger] r[k]) by {
                assert(is_space(v@[k + start]));
            }
            lemma_trim_start_at(r, from - start);
            assert(r.skip(from - start) =~= v@.skip(from as int));
        }
        while i < v.len() && !is_whitespace(v[i])
            invariant
                from <= i <= v@.len(),
                forall|k: int| from <= k < i ==> !is_space(#[trigger] v@[k]),
            decreases v@.len() - i,
        {
            i = i + 1;
        }
        let ghost before = texts(res@);
        let ghost t = v@.skip(from as int);
        proof {
            assert forall|k: int| 0 <= k < i - from implies !is_space(#[trigger] t[k]) by {
                assert(!is_space(v@[k + from]));
            }
            lemma_word_end_at(t, i - from);
            assert(t.skip(i - from) =~= v@.skip(i as int));
            assert(t.take(i - from) =~= v@.subrange(from as int, i as int));
        }
        if i > from {
            let w: String = text_of(&v, from, i);
            res.push(w);
            proof {
                assert(texts(res@) =~= before.push(w@));
                assert(before + (seq![w@] + words(v@.skip(i as int))) =~= before.push(w@) + words(
                    v@.skip(i as int),
                ));
            }
        } else {
            proof {
                assert(t.len() == 0);
                assert(words(v@.skip(i as int)) =~= Seq::<Seq<char>>::empty()) by {
                    assert(trim_start(v@.skip(i as int)).len() == 0);
                }
            }
        }
    }
    proof {
        assert(v@.skip(i as int).len() == 0);
        assert(words(v@.skip(i as int)) =~= Seq::<Seq<char>>::empty());
        assert(texts(res@) + Seq::<Seq<char>>::empty() =~= texts(res@));
    }
    res
}

/// `sub` stands in `s` at position `i`.
pub open spec fn occurs_at(s: Seq<char>, sub: Seq<char>, i: int) -> bool {
    &&& 0 <= i
    &&& i + sub.len() <= s.len()
    &&& s.subrange(i, i + sub.len()) == sub
}

/// `sub` stands somewhere in `s`.
pub open spec fn has_text(s: Seq<char>, sub: Seq<char>) -> bool {
    exists|i: int| occurs_at(s, sub, i)
}

/// `s` begins with `prefix`.
pub open spec fn begins(s: Seq<char>, prefix: Seq<char>) -> bool {
    prefix.len() <= s.len() && s.take(prefix.len() as int) == prefix
}

/// `s` ends with `suffix`.
pub open spec fn ends(s: Seq<char>, suffix: Seq<char>) -> bool {
    suffix.len() <= s.len() && s.skip(s.len() - suffix.len()) == suffix
}

/// Whether `sub` stands in `s` at position `i`.
pub fn stands_at(s: &Vec<char>, sub: &Vec<char>, i: usize) -> (res: bool)
    ensures
        res == occurs_at(s@, sub@, i as int),
{
    if i > s.len() || s.len() - i < sub.len() {
        return false;
    }
    let mut k: usize = 0;
    while k < sub.len()
        invariant
            0 <= k <= sub@.len(),
            i + sub@.len() <= s@.len() <= usize::MAX,
            forall|m: int| 0 <= m < k ==> s@[i + m] == sub@[m],
        decreases sub@.len() - k,
    {
        if s[i + k] != sub[k] {
            assert(s@.subrange(i as int, i + sub@.len())[k as int] != sub@[k as int]);
            return false;
        }
        k = k + 1;
    }
    assert(s@.subrange(i as int, i + sub@.len()) =~= sub@);
    true
}

/// The first position at which `sub` stands in `s`.
pub fn position(s: &Vec<char>, sub: &Vec<char>) -> (res: Option<usize>)
    ensures
        match res {
            Some(i) => occurs_at(s@, sub@, i as int) && forall|j: int|
                0 <= j < i ==> !occurs_at(s@, sub@, j),
            None => !has_text(s@, sub@),
        },
{
    if sub.len() > s.len() {
        return None;
    }
    let last: usize = s.len() - sub.len();
    let mut i: usize = 0;
    loop
        invariant
            i <= last,
            last + sub@.len() == s@.len(),
            forall|j: int| 0 <= j < i ==> !occurs_at(s@, sub@, j),
        decreases last - i,
    {
        if stands_at(s, sub, i) {
            return Some(i);
        }
        if i == last {
            return None;
        }
        i = i + 1;
    }
}

/// Whether `sub` stands somewhere in `s`.
pub fn contains(s: &str, sub: &str) -> (res: bool)
    ensures
        res == has_text(s@, sub@),
{
    position(&chars_of(s), &chars_of(sub)).is_some()
}

/// Whether `s` begins with `prefix`.
pub fn starts_with(s: &str, prefix: &str) -> (res: bool)
    ensures
        res == begins(s@, prefix@),
{
    let r: bool = stands_at(&chars_of(s), &chars_of(prefix), 0);
    assert(prefix@.len() <= s@.len() ==> s@.subrange(0, prefix@.len() as int) =~= s@.take(
        prefix@.len() as int,
    ));
    r
}

/// What follows `prefix` in `s`, where `s` begins with it.
pub fn strip_prefix(s: &str, prefix: &str) -> (res: Option<String>)
    ensures
        match res {
            Some(t) => begins(s@, prefix@) && t@ == s@.skip(prefix@.len() as int),
            None => !begins(s@, prefix@),
        },
{
    if !starts_with(s, prefix) {
        return None;
    }
    let v: Vec<char> = chars_of(s);
    let p: Vec<char> = chars_of(prefix);
    let t: String = text_of(&v, p.len(), v.len());
    assert(t@ =~= s@.skip(prefix@.len() as int));
    Some(t)
}

/// What precedes `suffix` in `s`, where `s` ends with it.
pub fn strip_suffix(s: &str, suffix: &str) -> (res: Option<String>)
    ensures
        match res {
            Some(t) => ends(s@, suffix@) && t@ == s@.take(s@.len() - suffix@.len()),
            None => !ends(s@, suffix@),
        },
{
    let v: Vec<char> = chars_of(s);
    let p: Vec<char> = chars_of(suffix);
    if p.len() > v.len() {
        return None;
    }
    let at: usize = v.len() - p.len();
    assert(s@.subrange(at as int, at + suffix@.len()) =~= s@.skip(at as int));
    if stands_at(&v, &p, at) {
        let t: String = text_of(&v, 0, at);
        assert(t@ =~= s@.take(at as int));
        Some(t)
    } else {
        None
    }
}

/// Whether the two texts are the same.
pub fn same(a: &str, b: &str) -> (res: bool)
    ensures
        res == (a@ == b@),
{
    let v: Vec<char> = chars_of(a);
    let w: Vec<char> = chars_of(b);
    let res: bool = v.len() == w.len() && stands_at(&v, &w, 0);
    assert(a@.len() == b@.len() ==> a@.subrange(0, b@.len() as int) =~= a@);
    res
}

/// The lower-case form of an ASCII capital; any other character as it is.
pub open spec fn ascii_lower(c: char) -> char {
    if 'A' <= c <= 'Z' {
        (c as u32 + 32) as char
    } else {
        c
    }
}

/// `s` with its ASCII capitals in lower case.
pub open spec fn ascii_lowered(s: Seq<char>) -> Seq<char> {
    s.map_values(|c: char| ascii_lower(c))
}

fn lower_char(c: char) -> (res: char)
    ensures
        res == ascii_lower(c),
{
    if 'A' <= c && c <= 'Z' {
        (c as u8 + 32) as char
    } else {
        c
    }
}

/// `s` with its ASCII capitals in lower case.
pub fn to_ascii_lowercase(s: &str) -> (res: String)
    ensures
        res@ == ascii_lowered(s@),
{
    let v: Vec<char> = chars_of(s);
    let mut res: String = String::new();
    let mut i: usize = 0;
    while i < v.len()
        invariant
            0 <= i <= v@.len(),
            res@ == ascii_lowered(v@.take(i as int)),
        decreases v@.len() - i,
    {
        res.push(lower_char(v[i]));
        i = i + 1;
        assert(res@ =~= ascii_lowered(v@.take(i as int)));
    }
    assert(v@.take(i as int) =~= s@);
    res
}

/// The first `n` of `parts`, with `sep` between neighbours.
pub open spec fn joined_upto(parts: Seq<Seq<char>>, sep: Seq<char>, n: int) -> Seq<char>
    decreases n,
{
    if n <= 0 {
        Seq::empty()
    } else if n == 1 {
        parts[0]
    } else {
        joined_upto(parts, sep, n - 1) + sep + parts[n - 1]
    }
}

/// All of `parts`, with `sep` between neighbours.
pub open spec fn joined(parts: Seq<Seq<char>>, sep: Seq<char>) -> Seq<char> {
    joined_upto(parts, sep, parts.len() as int)
}

/// All of `parts`, with `sep` between neighbours.
pub fn join(parts: &Vec<String>, sep: &str) -> (res: String)
    ensures
        res@ == joined(texts(parts@), sep@),
{
    let mut res: String = String::new();
    let mut i: usize = 0;
    while i < parts.len()
        invariant
            0 <= i <= parts@.len(),
            res@ == joined_upto(texts(parts@), sep@, i as int),
        decreases parts@.len() - i,
    {
        if i > 0 {
            res.append(sep);
        }
        res.append(parts[i].as_str());
        i = i + 1;
        assert(res@ =~= joined_upto(texts(parts@), sep@, i as int));
    }
    res
}

/// `s` without the `c` at its end, however many there are.
pub open spec fn without_end(s: Seq<char>, c: char) -> Seq<char>
    decreases s.len(),
{
    if s.len() > 0 && s.last() == c {
        without_end(s.drop_last(), c)
    } else {
        s
    }
}

/// `s` without the `c` at its end, however many there are.
pub fn trim_end_char(s: &str, c: char) -> (res: String)
    ensures
        res@ == without_end(s@, c),
{
    let v: Vec<char> = chars_of(s);
    let mut n: usize = v.len();
    assert(s@.take(n as int) =~= s@);
    while n > 0 && v[n - 1] == c
        invariant
            0 <= n <= v@.len(),
            v@ == s@,
            without_end(s@, c) == without_end(s@.take(n as int), c),
        decreases n,
    {
        assert(s@.take(n as int).drop_last() =~= s@.take(n - 1));
        n = n - 1;
    }
    assert(s@.take(n as int) =~= s@.subrange(0, n as int));
    text_of(&v, 0, n)
}

/// The same texts once more.
pub fn copy_texts(v: &Vec<String>) -> (res: Vec<String>)
    ensures
        res@ == v@,
{
    let mut copy: Vec<String> = Vec::new();
    let mut i: usize = 0;
    while i < v.len()
        invariant
            0 <= i <= v@.len(),
            copy@ == v@.take(i as int),
        decreases v@.len() - i,
    {
        copy.push(v[i].clone());
        assert(v@.take(i + 1) =~= v@.take(i as int).push(v@[i as int]));
        i = i + 1;
    }
    assert(v@.take(i as int) =~= v@);
    copy
}

/// Every character is white space.
pub open spec fn all_space(s: Seq<char>) -> bool {
    forall|i: int| 0 <= i < s.len() ==> is_space(#[trigger] s[i])
}

/// White space around a text that has none at its ends is trimmed away.
pub proof fn lemma_trimmed_between(lead: Seq<char>, body: Seq<char>, tail: Seq<char>)
    requires
        all_space(lead),
        all_space(tail),
        body.len() > 0,
        !is_space(body[0]),
        !is_space(body.last()),
    ensures
        trimmed(lead + body + tail) == body,
{
    let s = lead + body + tail;
    assert forall|k: int| 0 <= k < lead.len() implies is_space(#[trigger] s[k]) by {
        assert(s[k] == lead[k]);
    }
    assert(s[lead.len() as int] == body[0]);
    lemma_trim_start_at(s, lead.len() as int);
    let r = s.skip(lead.len() as int);
    assert(r =~= body + tail);
    assert forall|k: int| body.len() <= k < r.len() implies is_space(#[trigger] r[k]) by {
        assert(r[k] == tail[k - body.len()]);
    }
    assert(r[body.len() - 1] == body.last());
    lemma_trim_end_at(r, body.len() as int);
    assert(r.take(body.len() as int) =~= body);
}

/// The first word of a text occurs in it.
pub proof fn lemma_first_word_occurs(s: Seq<char>)
    requires
        words(s).len() > 0,
    ensures
        has_text(s, words(s)[0]),
{
    let t = trim_start(s);
    let k = lemma_trim_start_is_skip(s);
    lemma_word_end_bounds(t);
    let w = t.take(word_end(t));
    assert(words(s)[0] == w);
    assert(s.subrange(k, k + w.len()) =~= w);
    assert(occurs_at(s, w, k));
}

/// Leading white space is a prefix; gives its length.
proof fn lemma_trim_start_is_skip(s: Seq<char>) -> (k: int)
    ensures
        0 <= k <= s.len(),
        trim_start(s) == s.skip(k),
    decreases s.len(),
{
    if s.len() > 0 && is_space(s[0]) {
        let k = lemma_trim_start_is_skip(s.drop_first());
        assert(s.drop_first().skip(k) =~= s.skip(k + 1));
        k + 1
    } else {
        assert(s.skip(0) =~= s);
        0
    }
}

proof fn lemma_trim_end_is_take(s: Seq<char>) -> (k: int)
    ensures
        0 <= k <= s.len(),
        trim_end(s) == s.take(k),
        k > 0 ==> !is_space(s[k - 1]),
    decreases s.len(),
{
    if s.len() > 0 && is_space(s.last()) {
        let k = lemma_trim_end_is_take(s.drop_last());
        assert(s.drop_last().take(k) =~= s.take(k));
        k
    } else {
        assert(s.take(s.len() as int) =~= s);
        s.len() as int
    }
}

/// What was trimmed is trimmed.
pub proof fn law_trimmed_once(s: Seq<char>)
    ensures
        trimmed(trimmed(s)) == trimmed(s),
        trimmed(s).len() > 0 ==> !is_space(trimmed(s)[0]) && !is_space(trimmed(s).last()),
{
    let t = trim_start(s);
    lemma_trim_start_len(s);
    let k = lemma_trim_end_is_take(t);
    let u = trimmed(s);
    if k > 0 {
        assert(u[0] == t[0]);
        assert(u.last() == t[k - 1]);
    }
}

/// A text occurs in what it stands in the middle of.
pub proof fn lemma_occurs_between(lead: Seq<char>, body: Seq<char>, tail: Seq<char>)
    ensures
        has_text(lead + body + tail, body),
{
    let whole = lead + body + tail;
    let at = lead.len() as int;
    assert(whole.subrange(at, at + body.len()) =~= body);
    assert(occurs_at(whole, body, at));
}

/// What occurs in a part occurs in the whole.
pub proof fn lemma_has_trans(whole: Seq<char>, part: Seq<char>, sub: Seq<char>)
    requires
        has_text(whole, part),
        has_text(part, sub),
    ensures
        has_text(whole, sub),
{
    let i = choose|i: int| occurs_at(whole, part, i);
    let j = choose|j: int| occurs_at(part, sub, j);
    assert(whole.subrange(i + j, i + j + sub.len()) =~= whole.subrange(
        i,
        i + part.len(),
    ).subrange(j, j + sub.len()));
    assert(occurs_at(whole, sub, i + j));
}

/// Every part occurs in what the parts are joined to.
pub proof fn lemma_joined_has(parts: Seq<Seq<char>>, sep: Seq<char>, n: int, i: int)
    requires
        0 <= i < n <= parts.len(),
    ensures
        has_text(joined_upto(parts, sep, n), parts[i]),
    decreases n,
{
    let whole = joined_upto(parts, sep, n);
    if n == 1 {
        assert(whole =~= Seq::<char>::empty() + parts[0] + Seq::<char>::empty());
        lemma_occurs_between(Seq::empty(), parts[0], Seq::empty());
    } else {
        let before = joined_upto(parts, sep, n - 1);
        if i == n - 1 {
            assert(whole =~= (before + sep) + parts[i] + Seq::<char>::empty());
            lemma_occurs_between(before + sep, parts[i], Seq::empty());
        } else {
            lemma_joined_has(parts, sep, n - 1, i);
            assert(whole =~= Seq::<char>::empty() + before + (sep + parts[n - 1]));
            lemma_occurs_between(Seq::empty(), before, sep + parts[n - 1]);
            lemma_has_trans(whole, before, parts[i]);
        }
    }
}

/// White space is what Unicode calls so: the blanks of every width, tabs, and
/// the ends of lines and paragraphs. Nothing else is, and so no letter or digit.
pub proof fn law_white_space(c: char)
    ensures
        is_space(c) <==> {
            ||| c == ' '
            ||| '\t' <= c <= '\r'
            ||| c == '\u{85}'
            ||| c == '\u{a0}'
            ||| c == '\u{1680}'
            ||| '\u{2000}' <= c <= '\u{200a}'
            ||| c == '\u{2028}'
            ||| c == '\u{2029}'
            ||| c == '\u{202f}'
            ||| c == '\u{205f}'
            ||| c == '\u{3000}'
        },
{
}

/// Trimming takes white space from both ends, as much as there is, and nothing
/// else: what is left stands in the text between `from` and `to`.
pub proof fn law_trimming_takes_spaces_only(s: Seq<char>) -> (res: (int, int))
    ensures
        ({
            let (from, to) = res;
            &&& 0 <= from <= to <= s.len()
            &&& trimmed(s) == s.subrange(from, to)
            &&& forall|k: int| 0 <= k < from ==> is_space(#[trigger] s[k])
            &&& forall|k: int| to <= k < s.len() ==> is_space(#[trigger] s[k])
            &&& from < to ==> !is_space(s[from]) && !is_space(s[to - 1])
        }),
{
    let t = trim_start(s);
    let from = lemma_trim_start_spaces(s);
    let n = lemma_trim_end_spaces(t);
    let to = from + n;
    assert(trimmed(s) =~= s.subrange(from, to));
    assert forall|k: int| to <= k < s.len() implies is_space(#[trigger] s[k]) by {
        assert(t[k - from] == s[k]);
    }
    if from < to {
        assert(t[0] == s[from]);
        assert(t[n - 1] == s[to - 1]);
    }
    (from, to)
}

proof fn lemma_trim_start_spaces(s: Seq<char>) -> (k: int)
    ensures
        0 <= k <= s.len(),
        trim_start(s) == s.skip(k),
        forall|i: int| 0 <= i < k ==> is_space(#[trigger] s[i]),
        k < s.len() ==> !is_space(s[k]),
    decreases s.len(),
{
    if s.len() > 0 && is_space(s[0]) {
        let t = s.drop_first();
        let k = lemma_trim_start_spaces(t);
        assert(t.skip(k) =~= s.skip(k + 1));
        assert forall|i: int| 0 <= i < k + 1 implies is_space(#[trigger] s[i]) by {
            if i > 0 {
                assert(t[i - 1] == s[i]);
            }
        }
        k + 1
    } else {
        assert(s.skip(0) =~= s);
        0
    }
}

proof fn lemma_trim_end_spaces(s: Seq<char>) -> (k: int)
    ensures
        0 <= k <= s.len(),
        trim_end(s) == s.take(k),
        forall|i: int| k <= i < s.len() ==> is_space(#[trigger] s[i]),
        k > 0 ==> !is_space(s[k - 1]),
    decreases s.len(),
{
    if s.len() > 0 && is_space(s.last()) {
        let t = s.drop_last();
        let k = lemma_trim_end_spaces(t);
        assert(t.take(k) =~= s.take(k));
        assert forall|i: int| k <= i < s.len() implies is_space(#[trigger] s[i]) by {
            if i < s.len() - 1 {
                assert(t[i] == s[i]);
            }
        }
        k
    } else {
        assert(s.take(s.len() as int) =~= s);
        s.len() as int
    }
}

/// The words `w` stand in `s` from the places `at` on, one after the other: each
/// is a run of characters without white space that cannot be made longer, and no
/// other character of `s` is anything but white space.
pub open spec fn stand_in(w: Seq<Seq<char>>, s: Seq<char>, at: Seq<int>) -> bool {
    &&& at.len() == w.len()
    &&& forall|i: int|
        0 <= i < w.len() ==> {
            &&& (#[trigger] w[i]).len() > 0
            &&& 0 <= at[i]
            &&& at[i] + w[i].len() <= s.len()
            &&& s.subrange(at[i], at[i] + w[i].len()) == w[i]
            &&& at[i] > 0 ==> is_space(s[at[i] - 1])
            &&& at[i] + w[i].len() < s.len() ==> is_space(s[at[i] + w[i].len()])
        }
    &&& forall|i: int, k: int|
        0 <= i < w.len() && 0 <= k < w[i].len() ==> !is_space(#[trigger] w[i][k])
    &&& forall|i: int, j: int|
        0 <= i < j < w.len() ==> (#[trigger] at[i]) + w[i].len() <= #[trigger] at[j]
    &&& forall|k: int|
        0 <= k < s.len() && !is_space(#[trigger] s[k]) ==> exists|i: int|
            0 <= i < w.len() && #[trigger] at[i] <= k < at[i] + w[i].len()
}

/// A text is split at its white space: its words stand in it in order, none is
/// empty or holds white space, and no other part of it is anything else.
pub proof fn law_words_are_the_runs(s: Seq<char>) -> (at: Seq<int>)
    ensures
        stand_in(words(s), s, at),
    decreases s.len(),
{
    let k = lemma_trim_start_spaces(s);
    let t = trim_start(s);
    if t.len() == 0 {
        Seq::empty()
    } else {
        let n = word_end(t);
        lemma_word_end_bounds(t);
        lemma_word_end_run(t);
        let rest = t.skip(n);
        let later = law_words_are_the_runs(rest);
        let w = words(s);
        let v = words(rest);
        let off = k + n;
        let at = Seq::new(w.len(), |i: int| if i == 0 { k } else { later[i - 1] + off });
        assert(w[0] == t.take(n));
        assert(forall|i: int| 0 < i < w.len() ==> (#[trigger] w[i]) == v[i - 1]);
        assert(rest =~= s.skip(off));
        assert forall|i: int| 0 <= i < w.len() implies {
            &&& (#[trigger] w[i]).len() > 0
            &&& 0 <= at[i]
            &&& at[i] + w[i].len() <= s.len()
            &&& s.subrange(at[i], at[i] + w[i].len()) == w[i]
            &&& at[i] > 0 ==> is_space(s[at[i] - 1])
            &&& at[i] + w[i].len() < s.len() ==> is_space(s[at[i] + w[i].len()])
        } by {
            if i == 0 {
                assert(s.subrange(k, k + n) =~= w[0]);
                if k + n < s.len() {
                    assert(t[n] == s[k + n]);
                }
            } else {
                let u = v[i - 1];
                assert(w[i] == u);
                let p = later[i - 1];
                assert(s.subrange(p + off, p + off + u.len()) =~= rest.subrange(p, p + u.len()));
                if p > 0 {
                    assert(rest[p - 1] == s[p + off - 1]);
                } else {
                    assert(rest[0] == u[0]) by {
                        assert(rest.subrange(0, u.len() as int)[0] == u[0]);
                    }
                    assert(!is_space(u[0]));
                    assert(t[n] == rest[0]);
                    assert(false);
                }
                if p + u.len() < rest.len() {
                    assert(rest[p + u.len()] == s[p + off + u.len()]);
                }
            }
        }
        assert forall|i: int, m: int| 0 <= i < w.len() && 0 <= m < w[i].len() implies !is_space(
            #[trigger] w[i][m],
        ) by {
            if i == 0 {
                assert(w[0][m] == t[m]);
            } else {
                assert(w[i] == v[i - 1]);
                assert(!is_space(v[i - 1][m]));
            }
        }
        assert forall|i: int, j: int| 0 <= i < j < w.len() implies (#[trigger] at[i]) + w[i].len()
            <= #[trigger] at[j] by {
            assert(w[j] == v[j - 1]);
            assert(0 <= later[j - 1]);
            if i > 0 {
                assert(w[i] == v[i - 1]);
                assert(later[i - 1] + v[i - 1].len() <= later[j - 1]);
            }
        }
        assert forall|m: int| 0 <= m < s.len() && !is_space(#[trigger] s[m]) implies exists|i: int|
            0 <= i < w.len() && #[trigger] at[i] <= m < at[i] + w[i].len() by {
            if m < off {
                assert(m >= k);
                assert(at[0] <= m < at[0] + w[0].len());
            } else {
                assert(rest[m - off] == s[m]);
                let i = choose|i: int|
                    0 <= i < v.len() && #[trigger] later[i] <= m - off < later[i] + v[i].len();
                assert(w[i + 1] == v[i]);
                assert(at[i + 1] <= m < at[i + 1] + w[i + 1].len());
            }
        }
        at
    }
}

proof fn lemma_word_end_run(s: Seq<char>)
    ensures
        0 <= word_end(s) <= s.len(),
        forall|k: int| 0 <= k < word_end(s) ==> !is_space(#[trigger] s[k]),
        word_end(s) < s.len() ==> is_space(s[word_end(s)]),
    decreases s.len(),
{
    if s.len() > 0 && !is_space(s[0]) {
        let t = s.drop_first();
        lemma_word_end_run(t);
        assert forall|k: int| 0 <= k < word_end(s) implies !is_space(#[trigger] s[k]) by {
            if k > 0 {
                assert(t[k - 1] == s[k]);
            }
        }
        if word_end(s) < s.len() {
            assert(t[word_end(t)] == s[word_end(s)]);
        }
    }
}

/// A text stands in another exactly where the other is something before it, the
/// text, and something behind it; it begins or ends the other where there is
/// nothing before or behind it.
pub proof fn law_occurrence_is_between(s: Seq<char>, sub: Seq<char>)
    ensures
        has_text(s, sub) <==> exists|lead: Seq<char>, tail: Seq<char>|
            s == #[trigger] (lead + sub + tail),
        begins(s, sub) <==> exists|tail: Seq<char>| s == #[trigger] (sub + tail),
        ends(s, sub) <==> exists|lead: Seq<char>| s == #[trigger] (lead + sub),
{
    if has_text(s, sub) {
        let i = choose|i: int| occurs_at(s, sub, i);
        let lead = s.take(i);
        let tail = s.skip(i + sub.len());
        assert(s =~= lead + sub + tail);
    }
    if exists|lead: Seq<char>, tail: Seq<char>| s == #[trigger] (lead + sub + tail) {
        let (lead, tail) = choose|lead: Seq<char>, tail: Seq<char>|
            s == #[trigger] (lead + sub + tail);
        lemma_occurs_between(lead, sub, tail);
    }
    if begins(s, sub) {
        assert(s =~= sub + s.skip(sub.len() as int));
    }
    if exists|tail: Seq<char>| s == #[trigger] (sub + tail) {
        let tail = choose|tail: Seq<char>| s == #[trigger] (sub + tail);
        assert((sub + tail).take(sub.len() as int) =~= sub);
    }
    if ends(s, sub) {
        assert(s =~= s.take(s.len() - sub.len()) + sub);
    }
    if exists|lead: Seq<char>| s == #[trigger] (lead + sub) {
        let lead = choose|lead: Seq<char>| s == #[trigger] (lead + sub);
        assert((lead + sub).skip(lead.len() as int) =~= sub);
    }
}

/// Lists that are joined one after the other give their texts, with the
/// separator between them; one part is joined to itself, and none to nothing.
pub proof fn law_joining_splits(a: Seq<Seq<char>>, b: Seq<Seq<char>>, x: Seq<char>, sep: Seq<char>)
    ensures
        joined(Seq::empty(), sep).len() == 0,
        joined(seq![x], sep) == x,
        a.len() > 0 && b.len() > 0 ==> joined(a + b, sep) == joined(a, sep) + sep + joined(b, sep),
    decreases b.len(),
{
    if a.len() > 0 && b.len() > 0 {
        let n = a.len() as int;
        let m = b.len() as int;
        lemma_joined_prefix(a, b, sep, n);
        if m == 1 {
            assert((a + b)[n] == b[0]);
            assert(joined(a + b, sep) =~= joined(a, sep) + sep + b[0]);
        } else {
            let c = b.drop_last();
            law_joining_splits(a, c, x, sep);
            assert(a + b =~= (a + c).push(b.last()));
            let d = a + c;
            assert(d + seq![b.last()] =~= a + b);
            lemma_joined_prefix(d, seq![b.last()], sep, d.len() as int);
            assert(c + seq![b.last()] =~= b);
            lemma_joined_prefix(c, seq![b.last()], sep, c.len() as int);
            assert((a + b)[n + m - 1] == b.last());
            assert(joined(a + b, sep) =~= joined(d, sep) + sep + b.last());
            assert(joined(b, sep) =~= joined(c, sep) + sep + b.last());
            assert(joined(a + b, sep) =~= joined(a, sep) + sep + joined(b, sep));
        }
    }
}

proof fn lemma_joined_prefix(a: Seq<Seq<char>>, b: Seq<Seq<char>>, sep: Seq<char>, n: int)
    requires
        0 <= n <= a.len(),
    ensures
        joined_upto(a + b, sep, n) == joined_upto(a, sep, n),
    decreases n,
{
    if n > 0 {
        lemma_joined_prefix(a, b, sep, n - 1);
        assert((a + b)[n - 1] == a[n - 1]);
        assert((a + b)[0] == a[0]);
    }
}

/// In lower case an ASCII capital is the letter that lies 32 code points on, and
/// every other character is what it was; no capital is left.
pub proof fn law_lower_case_of_ascii(s: Seq<char>, i: int)
    requires
        0 <= i < s.len(),
    ensures
        ascii_lowered(s).len() == s.len(),
        'A' <= s[i] <= 'Z' ==> ascii_lowered(s)[i] as u32 == s[i] as u32 + 32,
        !('A' <= s[i] <= 'Z') ==> ascii_lowered(s)[i] == s[i],
        !('A' <= ascii_lowered(s)[i] <= 'Z'),
{
}

/// Taking a character from the end of a text leaves a text that does not end
/// with it, and takes nothing but that character: `n` of them.
pub proof fn law_end_is_taken(s: Seq<char>, c: char) -> (n: nat)
    ensures
        s == without_end(s, c) + Seq::new(n, |i: int| c),
        without_end(s, c).len() > 0 ==> without_end(s, c).last() != c,
    decreases s.len(),
{
    if s.len() > 0 && s.last() == c {
        let n = law_end_is_taken(s.drop_last(), c);
        let rest = Seq::new(n, |i: int| c);
        assert(s =~= s.drop_last().push(c));
        assert(rest.push(c) =~= Seq::new(n + 1, |i: int| c));
        assert(s =~= without_end(s, c) + rest.push(c));
        n + 1
    } else {
        assert(s =~= s + Seq::new(0, |i: int| c));
        0
    }
}

/// Neighbouring parts stand next to each other, with the separator between them.
pub proof fn lemma_joined_neighbours(parts: Seq<Seq<char>>, sep: Seq<char>, n: int, i: int)
    requires
        0 <= i,
        i + 1 < n <= parts.len(),
    ensures
        has_text(joined_upto(parts, sep, n), parts[i] + sep + parts[i + 1]),
    decreases n,
{
    let whole = joined_upto(parts, sep, n);
    let before = joined_upto(parts, sep, n - 1);
    let pair = parts[i] + sep + parts[i + 1];
    if i + 1 == n - 1 {
        if n == 2 {
            assert(whole =~= Seq::<char>::empty() + pair + Seq::<char>::empty());
            lemma_occurs_between(Seq::empty(), pair, Seq::empty());
        } else {
            let lead = joined_upto(parts, sep, n - 2) + sep;
            assert(whole =~= lead + pair + Seq::<char>::empty());
            lemma_occurs_between(lead, pair, Seq::empty());
        }
    } else {
        lemma_joined_neighbours(parts, sep, n - 1, i);
        assert(whole =~= Seq::<char>::empty() + before + (sep + parts[n - 1]));
        lemma_occurs_between(Seq::empty(), before, sep + parts[n - 1]);
        lemma_has_trans(whole, before, pair);
    }
}

/// White space in front of a text makes no difference to what is left of it.
pub proof fn lemma_trimmed_behind_space(s: Seq<char>)
    ensures
        trimmed(seq![' '] + s) == trimmed(s),
{
    assert((seq![' '] + s).drop_first() =~= s);
}

/// Of a text that begins with something else than white space, and has more of
/// it behind `lead`, only the end is trimmed.
pub proof fn lemma_trimmed_at_end(lead: Seq<char>, s: Seq<char>)
    requires
        lead.len() > 0,
        !is_space(lead[0]),
        trimmed(s).len() > 0,
    ensures
        trimmed(lead + s) == lead + trim_end(s),
{
    let whole = lead + s;
    assert(trim_start(whole) == whole);
    let (from, to) = law_trimming_takes_spaces_only(s);
    assert(!is_space(s[to - 1]));
    lemma_trim_end_at(s, to);
    assert forall|k: int| lead.len() + to <= k < whole.len() implies is_space(#[trigger] whole[k]) by {
        assert(whole[k] == s[k - lead.len()]);
    }
    assert(whole[lead.len() + to - 1] == s[to - 1]);
    lemma_trim_end_at(whole, lead.len() + to);
    assert(whole.take(lead.len() + to) =~= lead + s.take(to));
}

/// Something is left of a text exactly where it holds more than white space.
pub proof fn law_something_is_left(s: Seq<char>)
    ensures
        trimmed(s).len() > 0 <==> exists|k: int| 0 <= k < s.len() && !is_space(#[trigger] s[k]),
{
    let (from, to) = law_trimming_takes_spaces_only(s);
    if trimmed(s).len() > 0 {
        assert(!is_space(s[from]));
    }
}

} // verus!
