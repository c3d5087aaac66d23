//! Project names as labels that a host name can hold.

use vstd::prelude::*;
use crate::text::{chars_of, joined, lemma_joined_push, lemma_span, lemma_span_is, span};

verus! {

/// An ASCII letter or digit.
pub open spec fn is_alphanumeric(c: char) -> bool {
    'a' <= c <= 'z' || 'A' <= c <= 'Z' || '0' <= c <= '9'
}

/// A lower-case ASCII letter or a digit.
pub open spec fn is_slug_char(c: char) -> bool {
    'a' <= c <= 'z' || '0' <= c <= '9'
}

/// `c`, in lower case if it is an ASCII letter.
pub open spec fn lowered(c: char) -> char {
    if 'A' <= c <= 'Z' {
        (c as int + 32) as char
    } else {
        c
    }
}

/// The longest runs of ASCII letters and digits in `t`, in order.
pub open spec fn words(t: Seq<char>) -> Seq<Seq<char>>
    decreases t.len(),
{
    let n = span(t, |c: char| is_alphanumeric(c)) as int;
    if t.len() == 0 {
        seq![]
    } else if n == 0 {
        words(t.skip(1))
    } else {
        proof {
            lemma_span(t, |c: char| is_alphanumeric(c));
        }
        seq![t.take(n)] + words(t.skip(n))
    }
}

/// The words of `t` in lower case with hyphens between them, or `app` where it has
/// none.
pub open spec fn slug(t: Seq<char>) -> Seq<char> {
    let parts = words(t.map_values(|c: char| lowered(c)));
    if parts.len() == 0 {
        seq!['a', 'p', 'p']
    } else {
        joined(parts, '-')
    }
}

/// A label that a host name can hold: lower-case letters, digits and hyphens, with a
/// letter or digit at both ends and no two hyphens in a row.
pub open spec fn is_label(t: Seq<char>) -> bool {
    &&& t.len() > 0
    &&& forall|i: int| 0 <= i < t.len() ==> is_slug_char(#[trigger] t[i]) || t[i] == '-'
    &&& t[0] != '-'
    &&& t.last() != '-'
    &&& forall|i: int| 0 < i < t.len() && #[trigger] t[i] == '-' ==> t[i - 1] != '-'
}

spec fn are_words(parts: Seq<Seq<char>>) -> bool {
    forall|i: int|
        #![trigger parts[i]]
        0 <= i < parts.len() ==> parts[i].len() > 0 && forall|k: int|
            0 <= k < parts[i].len() ==> is_slug_char(#[trigger] parts[i][k])
}

proof fn lemma_words(t: Seq<char>)
    requires
        forall|i: int| 0 <= i < t.len() ==> !('A' <= #[trigger] t[i] <= 'Z'),
    ensures
        are_words(words(t)),
    decreases t.len(),
{
    let p = |c: char| is_alphanumeric(c);
    let n = span(t, p) as int;
    lemma_span(t, p);
    if t.len() > 0 {
        if n == 0 {
            lemma_words(t.skip(1));
        } else {
            let rest = words(t.skip(n));
            lemma_words(t.skip(n));
            let all = seq![t.take(n)] + rest;
            assert forall|i: int| #![trigger all[i]] 0 <= i < all.len() implies all[i].len() > 0
                && forall|k: int| 0 <= k < all[i].len() ==> is_slug_char(#[trigger] all[i][k]) by {
                if i == 0 {
                    assert forall|k: int| 0 <= k < all[0].len() implies is_slug_char(
                        #[trigger] all[0][k],
                    ) by {
                        assert(p(t[k]));
                    }
                } else {
                    assert(all[i] == rest[i - 1]);
                }
            }
        }
    }
}

proof fn lemma_joined_is_label(parts: Seq<Seq<char>>)
    requires
        parts.len() > 0,
        are_words(parts),
    ensures
        is_label(joined(parts, '-')),
    decreases parts.len(),
{
    let head = parts[0];
    assert(is_slug_char(head[0]) && is_slug_char(head[head.len() - 1]));
    if parts.len() > 1 {
        let rest = parts.skip(1);
        assert forall|i: int| #![trigger rest[i]] 0 <= i < rest.len() implies rest[i].len() > 0
            && forall|k: int| 0 <= k < rest[i].len() ==> is_slug_char(#[trigger] rest[i][k]) by {
            assert(rest[i] == parts[i + 1]);
        }
        lemma_joined_is_label(rest);
        let tail = joined(rest, '-');
        let all = head + seq!['-'] + tail;
        assert forall|i: int| 0 <= i < all.len() implies is_slug_char(#[trigger] all[i]) || all[i]
            == '-' by {
            if i < head.len() {
                assert(all[i] == head[i]);
            } else if i > head.len() {
                assert(all[i] == tail[i - head.len() - 1]);
            }
        }
        assert forall|i: int| 0 < i < all.len() && #[trigger] all[i] == '-' implies all[i - 1]
            != '-' by {
            if i < head.len() {
                assert(all[i] == head[i]);
            } else if i == head.len() {
                assert(all[i - 1] == head[i - 1]);
            } else {
                let k = i - head.len() - 1;
                assert(all[i] == tail[k]);
                if k > 0 {
                    assert(all[i - 1] == tail[k - 1]);
                }
            }
        }
        assert(all.last() == tail.last());
    } else {
        assert(joined(parts, '-') == head);
    }
}

/// Joining words with hyphens loses none of them.
proof fn lemma_words_of_joined(parts: Seq<Seq<char>>)
    requires
        are_words(parts),
    ensures
        words(joined(parts, '-')) == parts,
    decreases parts.len(),
{
    let p = |c: char| is_alphanumeric(c);
    let t = joined(parts, '-');
    if parts.len() > 0 {
        let head = parts[0];
        let n = head.len() as int;
        let rest = parts.skip(1);
        assert(is_slug_char(head[0]));
        assert forall|i: int| #![trigger rest[i]] 0 <= i < rest.len() implies rest[i].len() > 0
            && forall|k: int| 0 <= k < rest[i].len() ==> is_slug_char(#[trigger] rest[i][k]) by {
            assert(rest[i] == parts[i + 1]);
        }
        lemma_words_of_joined(rest);
        assert forall|i: int| 0 <= i < n implies p(#[trigger] t[i]) by {
            assert(t[i] == head[i]);
        }
        if parts.len() > 1 {
            assert(t[n] == '-');
        }
        lemma_span_is(t, p, n);
        assert(t.take(n) =~= head);
        if parts.len() > 1 {
            let tail = t.skip(n);
            assert(tail[0] == '-');
            lemma_span_is(tail, p, 0);
            assert(tail.skip(1) =~= joined(rest, '-'));
            assert(words(tail) == rest);
        } else {
            assert(words(t.skip(n)) =~= rest);
        }
        assert(words(t) =~= parts);
    } else {
        assert(words(t) =~= parts);
    }
}

proof fn lemma_lowered_words(t: Seq<char>)
    ensures
        are_words(words(t.map_values(|c: char| lowered(c)))),
{
    let low = t.map_values(|c: char| lowered(c));
    assert forall|i: int| 0 <= i < low.len() implies !('A' <= #[trigger] low[i] <= 'Z') by {}
    lemma_words(low);
}

proof fn lemma_app_is_word()
    ensures
        are_words(seq![seq!['a', 'p', 'p']]),
        joined(seq![seq!['a', 'p', 'p']], '-') == seq!['a', 'p', 'p'],
{
}

/// Every slug is a label that a host name can hold.
pub proof fn law_slug_is_label(t: Seq<char>)
    ensures
        is_label(slug(t)),
{
    lemma_lowered_words(t);
    lemma_app_is_word();
    let parts = words(t.map_values(|c: char| lowered(c)));
    if parts.len() == 0 {
        lemma_joined_is_label(seq![seq!['a', 'p', 'p']]);
    } else {
        lemma_joined_is_label(parts);
    }
}

/// The slug of a slug is that slug.
pub proof fn law_slug_is_idempotent(t: Seq<char>)
    ensures
        slug(slug(t)) == slug(t),
{
    law_slug_is_label(t);
    lemma_lowered_words(t);
    lemma_app_is_word();
    let s = slug(t);
    assert(s.map_values(|c: char| lowered(c)) =~= s);
    let parts = words(t.map_values(|c: char| lowered(c)));
    if parts.len() == 0 {
        lemma_words_of_joined(seq![seq!['a', 'p', 'p']]);
    } else {
        lemma_words_of_joined(parts);
    }
}

/// The case of ASCII letters makes no difference to a slug: texts that differ in nothing
/// else have one slug, and it is that of either text in lower case.
pub proof fn law_slug_ignores_case(t: Seq<char>, t2: Seq<char>)
    requires
        t.map_values(|c: char| lowered(c)) == t2.map_values(|c: char| lowered(c)),
    ensures
        slug(t) == slug(t2),
        slug(t) == slug(t.map_values(|c: char| lowered(c))),
{
    let low = t.map_values(|c: char| lowered(c));
    assert(low.map_values(|c: char| lowered(c)) =~= low);
}

/// Some ASCII letter or digit is in the text.
pub open spec fn has_word(t: Seq<char>) -> bool {
    exists|i: int| 0 <= i < t.len() && is_alphanumeric(#[trigger] t[i])
}

proof fn lemma_words_split(a: Seq<char>, c: char, b: Seq<char>)
    requires
        !is_alphanumeric(c),
    ensures
        words(a + seq![c] + b) == words(a) + words(b),
    decreases a.len(),
{
    let p = |c: char| is_alphanumeric(c);
    let t = a + seq![c] + b;
    if a.len() == 0 {
        assert(t[0] == c);
        lemma_span_is(t, p, 0);
        assert(t.skip(1) =~= b);
        assert(words(t) =~= words(a) + words(b));
    } else {
        let n = span(a, p) as int;
        lemma_span(a, p);
        assert forall|i: int| 0 <= i < n implies p(#[trigger] t[i]) by {
            assert(t[i] == a[i]);
        }
        if n < a.len() {
            assert(t[n] == a[n]);
        } else {
            assert(t[n] == c);
        }
        lemma_span_is(t, p, n);
        if n == 0 {
            lemma_words_split(a.skip(1), c, b);
            assert(t.skip(1) =~= a.skip(1) + seq![c] + b);
        } else {
            lemma_words_split(a.skip(n), c, b);
            assert(t.skip(n) =~= a.skip(n) + seq![c] + b);
            assert(t.take(n) =~= a.take(n));
            assert(words(t) =~= words(a) + words(b));
        }
    }
}

proof fn lemma_joined_split(a: Seq<Seq<char>>, b: Seq<Seq<char>>, sep: char)
    requires
        a.len() > 0,
        b.len() > 0,
    ensures
        joined(a + b, sep) == joined(a, sep) + seq![sep] + joined(b, sep),
    decreases a.len(),
{
    let all = a + b;
    if a.len() == 1 {
        assert(all.skip(1) =~= b);
    } else {
        lemma_joined_split(a.skip(1), b, sep);
        assert(all.skip(1) =~= a.skip(1) + b);
    }
    assert(joined(all, sep) =~= joined(a, sep) + seq![sep] + joined(b, sep));
}

proof fn lemma_no_words(t: Seq<char>)
    ensures
        words(t).len() > 0 <==> has_word(t),
    decreases t.len(),
{
    let p = |c: char| is_alphanumeric(c);
    lemma_span(t, p);
    if t.len() > 0 {
        let n = span(t, p) as int;
        if n == 0 {
            lemma_no_words(t.skip(1));
            if has_word(t) {
                let i = choose|i: int| 0 <= i < t.len() && is_alphanumeric(#[trigger] t[i]);
                assert(!p(t[0]));
                assert(t.skip(1)[i - 1] == t[i]);
            }
            if has_word(t.skip(1)) {
                let i = choose|i: int|
                    0 <= i < t.skip(1).len() && is_alphanumeric(#[trigger] t.skip(1)[i]);
                assert(t[i + 1] == t.skip(1)[i]);
            }
        } else {
            assert(p(t[0]));
        }
    }
}

proof fn lemma_lowered_keeps_words(t: Seq<char>)
    ensures
        has_word(t) <==> has_word(t.map_values(|c: char| lowered(c))),
{
    let low = t.map_values(|c: char| lowered(c));
    if has_word(t) {
        let i = choose|i: int| 0 <= i < t.len() && is_alphanumeric(#[trigger] t[i]);
        assert(is_alphanumeric(low[i]));
    }
    if has_word(low) {
        let i = choose|i: int| 0 <= i < low.len() && is_alphanumeric(#[trigger] low[i]);
        assert(is_alphanumeric(t[i]));
    }
}

/// A text without letters and digits becomes `app`.
pub proof fn law_slug_of_nothing(t: Seq<char>)
    requires
        !has_word(t),
    ensures
        slug(t) == "app"@,
{
    reveal_strlit("app");
    lemma_lowered_keeps_words(t);
    lemma_no_words(t.map_values(|c: char| lowered(c)));
    assert("app"@ =~= seq!['a', 'p', 'p']);
}

/// A text of letters and digits keeps them all, the letters in lower case.
pub proof fn law_slug_of_a_word(t: Seq<char>)
    requires
        t.len() > 0,
        forall|i: int| 0 <= i < t.len() ==> is_alphanumeric(#[trigger] t[i]),
    ensures
        slug(t).len() == t.len(),
        forall|i: int|
            0 <= i < t.len() ==> #[trigger] slug(t)[i] == if 'A' <= t[i] <= 'Z' {
                (t[i] as int + 32) as char
            } else {
                t[i]
            },
{
    let low = t.map_values(|c: char| lowered(c));
    let p = |c: char| is_alphanumeric(c);
    assert forall|i: int| 0 <= i < low.len() implies p(#[trigger] low[i]) by {
        assert(is_alphanumeric(t[i]));
    }
    lemma_span_is(low, p, low.len() as int);
    assert(low.take(low.len() as int) =~= low);
    assert(words(low.skip(low.len() as int)) =~= seq![]);
    assert(words(low) =~= seq![low]);
}

/// Around any other character a slug falls in two, with a hyphen between what the sides become.
/// A side without letters and digits leaves nothing, not even the hyphen.
pub proof fn law_slug_splits(a: Seq<char>, c: char, b: Seq<char>)
    requires
        !is_alphanumeric(c),
    ensures
        has_word(a) && has_word(b) ==> slug(a + seq![c] + b) == slug(a) + seq!['-'] + slug(b),
        !has_word(a) ==> slug(a + seq![c] + b) == slug(b),
        !has_word(b) ==> slug(a + seq![c] + b) == slug(a),
{
    let low = |t: Seq<char>| t.map_values(|c: char| lowered(c));
    let (x, y) = (low(a), low(b));
    assert(low(a + seq![c] + b) =~= x + seq![c] + y);
    lemma_words_split(x, c, y);
    lemma_lowered_keeps_words(a);
    lemma_lowered_keeps_words(b);
    lemma_no_words(x);
    lemma_no_words(y);
    let (p, q) = (words(x), words(y));
    if p.len() == 0 {
        assert(p + q =~= q);
    } else if q.len() == 0 {
        assert(p + q =~= p);
    } else {
        lemma_joined_split(p, q, '-');
    }
}

fn alphanumeric(c: char) -> (result: bool)
    ensures
        result == is_alphanumeric(c),
{
    ('a' <= c && c <= 'z') || ('A' <= c && c <= 'Z') || ('0' <= c && c <= '9')
}

fn lower(c: char) -> (result: char)
    ensures
        result == lowered(c),
{
    if 'A' <= c && c <= 'Z' {
        ((c as u8) + 32u8) as char
    } else {
        c
    }
}

/// A host name label for a project name.
pub fn slugify(value: &str) -> (result: String)
    ensures
        result@ == slug(value@),
{
    let chars = chars_of(value);
    let ghost low = value@.map_values(|c: char| lowered(c));
    let ghost p = |c: char| is_alphanumeric(c);
    let ghost mut done: Seq<Seq<char>> = seq![];
    let mut result = String::new();
    let mut i: usize = 0;
    let mut first = true;
    assert(low.skip(0) =~= low);
    assert(done + words(low) =~= words(low));
    while i < chars.len()
        invariant
            i <= chars@.len(),
            chars@ == value@,
            low == value@.map_values(|c: char| lowered(c)),
            p == (|c: char| is_alphanumeric(c)),
            first == (done.len() == 0),
            result@ =~= joined(done, '-'),
            done + words(low.skip(i as int)) =~= words(low),
        decreases chars@.len() - i,
    {
        let ghost t = low.skip(i as int);
        if !alphanumeric(chars[i]) {
            proof {
                lemma_span_is(t, p, 0);
                assert(t.skip(1) =~= low.skip(i + 1));
            }
            i += 1;
        } else {
            let ghost start = i as int;
            if !first {
                result.push('-');
            }
            let ghost before = result@;
            while i < chars.len() && alphanumeric(chars[i])
                invariant
                    0 <= start <= i <= chars@.len(),
                    chars@ == value@,
                    low == value@.map_values(|c: char| lowered(c)),
                    result@ =~= before + low.subrange(start, i as int),
                    forall|k: int| start <= k < i ==> is_alphanumeric(#[trigger] low[k]),
                decreases chars@.len() - i,
            {
                result.push(lower(chars[i]));
                i += 1;
            }
            first = false;
            proof {
                let n = i - start;
                assert(is_alphanumeric(low[start]));
                assert forall|k: int| 0 <= k < n implies p(#[trigger] t[k]) by {
                    assert(t[k] == low[k + start]);
                }
                lemma_span_is(t, p, n);
                let word = t.take(n);
                assert(word =~= low.subrange(start, i as int));
                lemma_joined_push(done, '-', word);
                assert(t.skip(n) =~= low.skip(i as int));
                done = done.push(word);
            }
        }
    }
    assert(words(low.skip(i as int)) =~= seq![]);
    if first {
        let app = "app";
        proof {
            reveal_strlit("app");
            assert(app@ =~= seq!['a', 'p', 'p']);
        }
        return app.to_owned();
    }
    result
}

} // verus!
