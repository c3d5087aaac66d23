//! Text as sequences of characters: decimal numbers, white space, lines, paths.

use vstd::prelude::*;

verus! {

/// `String::push` appends the given character to the end of the string.
pub assume_specification[ String::push ](text: &mut String, c: char)
    ensures
        final(text)@ == old(text)@.push(c),
;

// ---------------------------------------------------------------------------
// Meaning
// ---------------------------------------------------------------------------

/// The texts held by a sequence of strings.
pub open spec fn texts(list: Seq<String>) -> Seq<Seq<char>> {
    list.map_values(|s: String| s@)
}

/// The digit that stands for `d`.
pub open spec fn digit(d: int) -> char {
    (48 + d) as char
}

/// `n` in base ten, without leading zeros.
pub open spec fn digits(n: nat) -> Seq<char>
    decreases n,
{
    if n < 10 {
        seq![digit(n as int)]
    } else {
        digits(n / 10).push(digit((n % 10) as int))
    }
}

/// `i` in base ten, with a leading minus sign when it is negative.
pub open spec fn decimal(i: int) -> Seq<char> {
    if i < 0 {
        seq!['-'] + digits((-i) as nat)
    } else {
        digits(i as nat)
    }
}

/// The Unicode property `White_Space`.
pub open spec fn is_white_space(c: char) -> bool {
    ||| 0x09 <= c as int <= 0x0d
    ||| c as int == 0x20
    ||| c as int == 0x85
    ||| c as int == 0xa0
    ||| c as int == 0x1680
    ||| 0x2000 <= c as int <= 0x200a
    ||| 0x2028 <= c as int <= 0x2029
    ||| c as int == 0x202f
    ||| c as int == 0x205f
    ||| c as int == 0x3000
}

/// How many of the first characters of `t` satisfy `p`, up to the first that does not.
pub open spec fn span(t: Seq<char>, p: spec_fn(char) -> bool) -> nat
    decreases t.len(),
{
    if t.len() == 0 || !p(t[0]) {
        0
    } else {
        1 + span(t.skip(1), p)
    }
}

/// `t` without the last characters that satisfy `p`.
pub open spec fn without_last(t: Seq<char>, p: spec_fn(char) -> bool) -> Seq<char>
    decreases t.len(),
{
    if t.len() > 0 && p(t.last()) {
        without_last(t.drop_last(), p)
    } else {
        t
    }
}

/// `t` without white space at either end.
pub open spec fn trimmed(t: Seq<char>) -> Seq<char> {
    let white = |c: char| is_white_space(c);
    without_last(t.skip(span(t, white) as int), white)
}

/// Nothing is left of `t` once the white space at its ends is gone.
pub open spec fn is_blank(t: Seq<char>) -> bool {
    trimmed(t).len() == 0
}

/// A line that ended in a line feed, without a carriage return before it.
pub open spec fn without_return(line: Seq<char>) -> Seq<char> {
    if line.len() > 0 && line.last() == '\r' {
        line.drop_last()
    } else {
        line
    }
}

/// The lines of `t`. Each ends in a line feed or in a carriage return and a line
/// feed; the last may end with the text instead.
pub open spec fn lines_of(t: Seq<char>) -> Seq<Seq<char>>
    decreases t.len(),
{
    let n = span(t, |c: char| c != '\n') as int;
    if t.len() == 0 {
        seq![]
    } else if n >= t.len() {
        seq![t]
    } else {
        seq![without_return(t.take(n))] + lines_of(t.skip(n + 1))
    }
}

/// `parts` one after the other, with `sep` between them.
pub open spec fn joined(parts: Seq<Seq<char>>, sep: char) -> Seq<char>
    decreases parts.len(),
{
    if parts.len() == 0 {
        seq![]
    } else if parts.len() == 1 {
        parts[0]
    } else {
        parts[0] + seq![sep] + joined(parts.skip(1), sep)
    }
}

/// Each of `lines` followed by a line feed.
pub open spec fn newline_terminated(lines: Seq<Seq<char>>) -> Seq<char>
    decreases lines.len(),
{
    if lines.len() == 0 {
        seq![]
    } else {
        newline_terminated(lines.drop_last()) + lines.last().push('\n')
    }
}

/// The Unix path of the entry `name` of directory `dir`, where `name` is relative.
pub open spec fn path_in(dir: Seq<char>, name: Seq<char>) -> Seq<char> {
    if dir.len() == 0 || dir.last() == '/' {
        dir + name
    } else {
        dir + seq!['/'] + name
    }
}

/// `path` is `dir` or lies in it.
pub open spec fn is_inside(dir: Seq<char>, path: Seq<char>) -> bool {
    path == dir || (dir + seq!['/']).is_prefix_of(path)
}

// ---------------------------------------------------------------------------
// Facts
// ---------------------------------------------------------------------------

pub proof fn lemma_span(t: Seq<char>, p: spec_fn(char) -> bool)
    ensures
        span(t, p) <= t.len(),
        forall|i: int| 0 <= i < span(t, p) ==> p(#[trigger] t[i]),
        span(t, p) < t.len() ==> !p(t[span(t, p) as int]),
    decreases t.len(),
{
    if t.len() > 0 && p(t[0]) {
        let rest = t.skip(1);
        lemma_span(rest, p);
        assert forall|i: int| 0 <= i < span(t, p) implies p(#[trigger] t[i]) by {
            if i > 0 {
                assert(rest[i - 1] == t[i]);
            }
        }
    }
}

/// The span is the only length with the properties of [`lemma_span`].
pub proof fn lemma_span_is(t: Seq<char>, p: spec_fn(char) -> bool, n: int)
    requires
        0 <= n <= t.len(),
        forall|i: int| 0 <= i < n ==> p(#[trigger] t[i]),
        n < t.len() ==> !p(t[n]),
    ensures
        span(t, p) == n,
    decreases t.len(),
{
    if n > 0 {
        assert(p(t[0]));
        assert forall|i: int| 0 <= i < n - 1 implies p(#[trigger] t.skip(1)[i]) by {
            assert(t.skip(1)[i] == t[i + 1]);
        }
        lemma_span_is(t.skip(1), p, n - 1);
    }
}

pub proof fn lemma_without_last_is(t: Seq<char>, p: spec_fn(char) -> bool, n: int)
    requires
        0 <= n <= t.len(),
        forall|i: int| n <= i < t.len() ==> p(#[trigger] t[i]),
        n > 0 ==> !p(t[n - 1]),
    ensures
        without_last(t, p) == t.take(n),
    decreases t.len(),
{
    if n < t.len() {
        assert(p(t[t.len() - 1]));
        lemma_without_last_is(t.drop_last(), p, n);
        assert(t.drop_last().take(n) =~= t.take(n));
    } else {
        assert(t.take(n) =~= t);
    }
}

pub proof fn lemma_same_prefix(prefix: Seq<char>, a: Seq<char>, b: Seq<char>)
    requires
        prefix + a == prefix + b,
    ensures
        a == b,
{
    assert((prefix + a).skip(prefix.len() as int) =~= a);
    assert((prefix + b).skip(prefix.len() as int) =~= b);
}

/// A text is blank exactly when every character of it is white space.
pub proof fn law_blank_is_all_white_space(t: Seq<char>)
    ensures
        is_blank(t) <==> forall|i: int| 0 <= i < t.len() ==> is_white_space(#[trigger] t[i]),
{
    let white = |c: char| is_white_space(c);
    let n = span(t, white) as int;
    lemma_span(t, white);
    let rest = t.skip(n);
    if n == t.len() {
        assert(rest.len() == 0);
        assert forall|i: int| 0 <= i < t.len() implies is_white_space(#[trigger] t[i]) by {
            assert(white(t[i]));
        }
    } else {
        assert(rest[0] == t[n]);
        lemma_without_last_keeps_first(rest, white);
        assert(!is_white_space(t[n]));
    }
}

proof fn lemma_without_last_keeps_first(t: Seq<char>, p: spec_fn(char) -> bool)
    requires
        t.len() > 0,
        !p(t[0]),
    ensures
        without_last(t, p).len() > 0,
    decreases t.len(),
{
    if p(t.last()) {
        assert(t.len() > 1);
        lemma_without_last_keeps_first(t.drop_last(), p);
    }
}

pub proof fn lemma_joined_push(parts: Seq<Seq<char>>, sep: char, last: Seq<char>)
    ensures
        joined(parts.push(last), sep) == if parts.len() == 0 {
            last
        } else {
            joined(parts, sep) + seq![sep] + last
        },
    decreases parts.len(),
{
    let all = parts.push(last);
    if parts.len() == 1 {
        assert(all.skip(1) =~= seq![last]);
        assert(joined(all.skip(1), sep) == last);
        assert(joined(all, sep) =~= parts[0] + seq![sep] + last);
    } else if parts.len() > 1 {
        assert(all.skip(1) =~= parts.skip(1).push(last));
        lemma_joined_push(parts.skip(1), sep, last);
        assert(joined(all, sep) =~= joined(parts, sep) + seq![sep] + last);
    }
}

pub proof fn lemma_digits(n: nat)
    ensures
        digits(n).len() > 0,
        forall|i: int| 0 <= i < digits(n).len() ==> '0' <= #[trigger] digits(n)[i] <= '9',
    decreases n,
{
    if n >= 10 {
        lemma_digits(n / 10);
    }
}

pub proof fn lemma_digits_injective(a: nat, b: nat)
    requires
        digits(a) == digits(b),
    ensures
        a == b,
    decreases a,
{
    lemma_digits(a / 10);
    lemma_digits(b / 10);
    let (da, db) = (digits(a), digits(b));
    assert(da.last() == db.last());
    if a >= 10 && b >= 10 {
        assert(da.drop_last() =~= digits(a / 10));
        assert(db.drop_last() =~= digits(b / 10));
        lemma_digits_injective(a / 10, b / 10);
    }
}

/// The text of a number has a sign at most in front; the rest of it is digits.
pub proof fn lemma_decimal(i: int)
    ensures
        decimal(i).len() > 0,
        i < 0 <==> decimal(i)[0] == '-',
        i < 0 ==> decimal(i).len() > 1,
        forall|k: int| 1 <= k < decimal(i).len() ==> '0' <= #[trigger] decimal(i)[k] <= '9',
        i >= 0 ==> '0' <= decimal(i)[0] <= '9',
{
    lemma_digits(if i < 0 { (-i) as nat } else { i as nat });
}

/// Two numbers with the same text are the same number.
pub proof fn law_decimal_is_injective(a: int, b: int)
    requires
        decimal(a) == decimal(b),
    ensures
        a == b,
{
    lemma_decimal(a);
    lemma_decimal(b);
    if a < 0 {
        let (da, db) = (digits((-a) as nat), digits((-b) as nat));
        assert(decimal(a).skip(1) =~= da);
        assert(decimal(b).skip(1) =~= db);
        lemma_digits_injective((-a) as nat, (-b) as nat);
    } else {
        lemma_digits_injective(a as nat, b as nat);
    }
}

/// What is trimmed off is white space, all of it and nothing else: a text that has none at
/// its ends comes back from between any white space.
pub proof fn law_trimming_takes_white_space_only(
    before: Seq<char>,
    text: Seq<char>,
    behind: Seq<char>,
)
    requires
        text.len() > 0,
        !is_white_space(text[0]),
        !is_white_space(text.last()),
        forall|i: int| 0 <= i < before.len() ==> is_white_space(#[trigger] before[i]),
        forall|i: int| 0 <= i < behind.len() ==> is_white_space(#[trigger] behind[i]),
    ensures
        trimmed(before + text + behind) == text,
{
    let white = |c: char| is_white_space(c);
    let t = before + text + behind;
    let n = before.len() as int;
    assert forall|i: int| 0 <= i < n implies white(#[trigger] t[i]) by {
        assert(t[i] == before[i]);
    }
    assert(t[n] == text[0]);
    lemma_span_is(t, white, n);
    let rest = t.skip(n);
    let m = text.len() as int;
    assert forall|i: int| m <= i < rest.len() implies white(#[trigger] rest[i]) by {
        assert(rest[i] == behind[i - m]);
    }
    assert(rest[m - 1] == text.last());
    lemma_without_last_is(rest, white, m);
    assert(rest.take(m) =~= text);
}

/// Cutting characters off the end of a text takes all of them and leaves the rest: what is
/// left and what was cut make up the text.
pub proof fn law_cutting_takes_the_end_only(t: Seq<char>, p: spec_fn(char) -> bool)
    ensures
        ({
            let rest = without_last(t, p);
            &&& rest.is_prefix_of(t)
            &&& rest.len() > 0 ==> !p(rest.last())
            &&& forall|i: int| rest.len() <= i < t.len() ==> p(#[trigger] t[i])
        }),
    decreases t.len(),
{
    if t.len() > 0 && p(t.last()) {
        let shorter = t.drop_last();
        law_cutting_takes_the_end_only(shorter, p);
        let rest = without_last(shorter, p);
        assert(t.subrange(0, rest.len() as int) =~= rest) by {
            assert forall|i: int| 0 <= i < rest.len() implies t[i] == rest[i] by {
                assert(shorter.subrange(0, rest.len() as int)[i] == rest[i]);
            }
        }
        assert forall|i: int| rest.len() <= i < t.len() implies p(#[trigger] t[i]) by {
            if i < shorter.len() {
                assert(shorter[i] == t[i]);
            }
        }
    } else {
        assert(t.subrange(0, t.len() as int) =~= t);
    }
}

/// A line that can stand between line feeds.
pub open spec fn is_line(line: Seq<char>) -> bool {
    &&& forall|i: int| 0 <= i < line.len() ==> #[trigger] line[i] != '\n'
    &&& line.len() > 0 ==> line.last() != '\r'
}

proof fn lemma_first_line(line: Seq<char>, rest: Seq<char>)
    requires
        is_line(line),
    ensures
        lines_of(line + seq!['\n'] + rest) == seq![line] + lines_of(rest),
{
    let t = line + seq!['\n'] + rest;
    let p = |c: char| c != '\n';
    let n = line.len() as int;
    assert forall|i: int| 0 <= i < n implies p(#[trigger] t[i]) by {
        assert(t[i] == line[i]);
    }
    assert(t[n] == '\n');
    lemma_span_is(t, p, n);
    assert(t.take(n) =~= line);
    assert(t.skip(n + 1) =~= rest);
}

proof fn lemma_newline_first(lines: Seq<Seq<char>>)
    requires
        lines.len() > 0,
    ensures
        newline_terminated(lines) == lines[0] + seq!['\n'] + newline_terminated(lines.skip(1)),
    decreases lines.len(),
{
    if lines.len() == 1 {
        assert(lines.drop_last() =~= seq![]);
        assert(lines.skip(1) =~= seq![]);
        assert(newline_terminated(lines) =~= lines[0] + seq!['\n'] + newline_terminated(
            lines.skip(1),
        ));
    } else {
        let shorter = lines.drop_last();
        lemma_newline_first(shorter);
        assert(shorter.skip(1) =~= lines.skip(1).drop_last());
        assert(lines.skip(1).last() == lines.last());
        assert(newline_terminated(lines) =~= lines[0] + seq!['\n'] + newline_terminated(
            lines.skip(1),
        ));
    }
}

/// Lines that are written one after the other, each with a line feed, read back as they were.
pub proof fn law_lines_read_back(lines: Seq<Seq<char>>)
    requires
        forall|i: int| 0 <= i < lines.len() ==> is_line(#[trigger] lines[i]),
    ensures
        lines_of(newline_terminated(lines)) == lines,
    decreases lines.len(),
{
    if lines.len() == 0 {
        assert(lines_of(newline_terminated(lines)) =~= lines);
    } else {
        let rest = lines.skip(1);
        assert forall|i: int| 0 <= i < rest.len() implies is_line(#[trigger] rest[i]) by {
            assert(rest[i] == lines[i + 1]);
        }
        lemma_newline_first(lines);
        lemma_first_line(lines[0], newline_terminated(rest));
        law_lines_read_back(rest);
        assert(seq![lines[0]] + rest =~= lines);
    }
}

/// A carriage return before a line feed belongs to the end of the line, and the last line
/// needs no line feed.
pub proof fn law_lines_end_in_either_way(line: Seq<char>, rest: Seq<char>)
    requires
        is_line(line),
    ensures
        lines_of(line + seq!['\r', '\n'] + rest) == seq![line] + lines_of(rest),
        line.len() > 0 ==> lines_of(line) == seq![line],
        lines_of(seq![]) == Seq::<Seq<char>>::empty(),
{
    let p = |c: char| c != '\n';
    let t = line + seq!['\r', '\n'] + rest;
    let n = line.len() as int;
    assert forall|i: int| 0 <= i < n + 1 implies p(#[trigger] t[i]) by {
        if i < n {
            assert(t[i] == line[i]);
        } else {
            assert(t[i] == '\r');
        }
    }
    assert(t[n + 1] == '\n');
    lemma_span_is(t, p, n + 1);
    assert(t.take(n + 1) =~= line.push('\r'));
    assert(line.push('\r').drop_last() =~= line);
    assert(t.skip(n + 2) =~= rest);
    assert forall|i: int| 0 <= i < n implies p(#[trigger] line[i]) by {}
    lemma_span_is(line, p, n);
}

proof fn lemma_joined_head(parts: Seq<Seq<char>>, sep: char)
    requires
        parts.len() > 0,
        !parts[0].contains(sep),
    ensures
        ({
            let t = joined(parts, sep);
            let n = parts[0].len() as int;
            &&& span(t, |c: char| c != sep) == n
            &&& t.take(n) == parts[0]
            &&& parts.len() == 1 <==> t.len() == n
            &&& parts.len() > 1 ==> t.skip(n + 1) == joined(parts.skip(1), sep)
        }),
{
    let t = joined(parts, sep);
    let p = |c: char| c != sep;
    let n = parts[0].len() as int;
    assert forall|i: int| 0 <= i < n implies p(#[trigger] t[i]) by {
        assert(t[i] == parts[0][i]);
        assert(parts[0].contains(parts[0][i]));
    }
    if parts.len() > 1 {
        assert(t[n] == sep);
        assert(t.skip(n + 1) =~= joined(parts.skip(1), sep));
    }
    lemma_span_is(t, p, n);
    assert(t.take(n) =~= parts[0]);
}

/// Parts that do not hold the separator can be told from the text that they are joined to.
pub proof fn law_joined_is_injective(a: Seq<Seq<char>>, b: Seq<Seq<char>>, sep: char)
    requires
        a.len() > 0,
        b.len() > 0,
        forall|i: int| 0 <= i < a.len() ==> !(#[trigger] a[i]).contains(sep),
        forall|i: int| 0 <= i < b.len() ==> !(#[trigger] b[i]).contains(sep),
        joined(a, sep) == joined(b, sep),
    ensures
        a == b,
    decreases a.len(),
{
    lemma_joined_head(a, sep);
    lemma_joined_head(b, sep);
    assert(a[0] == b[0]);
    if a.len() > 1 {
        let (x, y) = (a.skip(1), b.skip(1));
        assert forall|i: int| 0 <= i < x.len() implies !(#[trigger] x[i]).contains(sep) by {
            assert(x[i] == a[i + 1]);
        }
        assert forall|i: int| 0 <= i < y.len() implies !(#[trigger] y[i]).contains(sep) by {
            assert(y[i] == b[i + 1]);
        }
        law_joined_is_injective(x, y, sep);
        assert(a =~= seq![a[0]] + x);
        assert(b =~= seq![b[0]] + y);
    } else {
        assert(a =~= b);
    }
}

/// The path of an entry begins with its directory and ends with its name, and what is between
/// is one slash, unless the directory brings its own or is the current one.
pub proof fn law_path_joins_directory_and_name(dir: Seq<char>, name: Seq<char>)
    ensures
        ({
            let path = path_in(dir, name);
            let own = dir.len() == 0 || dir.last() == '/';
            &&& dir.is_prefix_of(path)
            &&& path.skip(path.len() - name.len()) == name
            &&& path.len() == dir.len() + name.len() + if own {
                0int
            } else {
                1
            }
            &&& !own ==> path[dir.len() as int] == '/'
        }),
{
    let path = path_in(dir, name);
    assert(path.subrange(0, dir.len() as int) =~= dir);
    assert(path.skip(path.len() - name.len()) =~= name);
}

// ---------------------------------------------------------------------------
// Computation
// ---------------------------------------------------------------------------

/// The characters of a string.
pub fn chars_of(text: &str) -> (chars: Vec<char>)
    ensures
        chars@ == text@,
{
    let mut chars: Vec<char> = Vec::new();
    for c in it: text.chars()
        invariant
            it.seq() == text@,
            chars@ =~= text@.take(it.index()),
    {
        chars.push(c);
    }
    chars
}

/// The string made of `chars[from..to]`.
pub fn string_of(chars: &Vec<char>, from: usize, to: usize) -> (text: String)
    requires
        from <= to <= chars@.len(),
    ensures
        text@ == chars@.subrange(from as int, to as int),
{
    let mut text = String::new();
    let mut i: usize = from;
    while i < to
        invariant
            from <= i <= to <= chars@.len(),
            text@ =~= chars@.subrange(from as int, i as int),
        decreases to - i,
    {
        text.push(chars[i]);
        i += 1;
    }
    text
}

/// Whether two strings hold the same text.
pub fn same_text(a: &str, b: &str) -> (same: bool)
    ensures
        same == (a@ == b@),
{
    a.to_owned() == b.to_owned()
}

/// Copies of the given strings.
pub fn strings(list: &[&str]) -> (copies: Vec<String>)
    ensures
        texts(copies@) == list@.map_values(|s: &str| s@),
{
    let mut copies: Vec<String> = Vec::new();
    for i in 0..list.len()
        invariant
            texts(copies@) =~= list@.take(i as int).map_values(|s: &str| s@),
    {
        let ghost before = copies@;
        copies.push(list[i].to_owned());
        assert(texts(copies@) =~= texts(before).push(list@[i as int]@));
    }
    assert(list@.take(list@.len() as int) =~= list@);
    copies
}

fn unsigned_text(n: u32) -> (text: String)
    ensures
        text@ == digits(n as nat),
    decreases n,
{
    let mut text = if n < 10 {
        String::new()
    } else {
        unsigned_text(n / 10)
    };
    text.push((48u8 + (n % 10) as u8) as char);
    assert(text@ =~= digits(n as nat));
    text
}

/// The text of a signed number.
pub fn i32_text(i: i32) -> (text: String)
    ensures
        text@ == decimal(i as int),
{
    if i < 0 {
        let digits_text = unsigned_text((-(i as i64)) as u32);
        let mut text = String::new();
        text.push('-');
        let text = text.concat(digits_text.as_str());
        assert(text@ =~= decimal(i as int));
        text
    } else {
        unsigned_text(i as u32)
    }
}

/// The text of a port number.
pub fn u16_text(n: u16) -> (text: String)
    ensures
        text@ == decimal(n as int),
{
    unsigned_text(n as u32)
}

fn white_space(c: char) -> (white: bool)
    ensures
        white == is_white_space(c),
{
    let n: u32 = c as u32;
    (0x09 <= n && n <= 0x0d) || n == 0x20 || n == 0x85 || n == 0xa0 || n == 0x1680 || (0x2000 <= n
        && n <= 0x200a) || n == 0x2028 || n == 0x2029 || n == 0x202f || n == 0x205f || n == 0x3000
}

/// The text without white space at either end.
pub fn trim(text: &str) -> (result: String)
    ensures
        result@ == trimmed(text@),
{
    let chars = chars_of(text);
    let ghost white = |c: char| is_white_space(c);
    let mut from: usize = 0;
    while from < chars.len() && white_space(chars[from])
        invariant
            from <= chars@.len(),
            forall|i: int| 0 <= i < from ==> is_white_space(#[trigger] chars@[i]),
        decreases chars@.len() - from,
    {
        from += 1;
    }
    let mut to: usize = chars.len();
    while to > from && white_space(chars[to - 1])
        invariant
            from <= to <= chars@.len(),
            forall|i: int| to <= i < chars@.len() ==> is_white_space(#[trigger] chars@[i]),
        decreases to,
    {
        to -= 1;
    }
    proof {
        let t = chars@;
        assert forall|i: int| 0 <= i < from implies white(#[trigger] t[i]) by {}
        lemma_span_is(t, white, from as int);
        let rest = t.skip(from as int);
        assert forall|i: int| to - from <= i < rest.len() implies white(#[trigger] rest[i]) by {
            assert(rest[i] == t[i + from]);
        }
        lemma_without_last_is(rest, white, to - from);
        assert(rest.take(to - from) =~= t.subrange(from as int, to as int));
    }
    string_of(&chars, from, to)
}

/// Whether nothing but white space is in the text.
pub fn blank(text: &str) -> (result: bool)
    ensures
        result == is_blank(text@),
{
    trim(text).as_str().is_empty()
}

/// The text without slashes at its end.
pub fn trim_slashes(text: &str) -> (result: String)
    ensures
        result@ == without_last(text@, |c: char| c == '/'),
{
    let chars = chars_of(text);
    let mut to: usize = chars.len();
    while to > 0 && chars[to - 1] == '/'
        invariant
            to <= chars@.len(),
            forall|i: int| to <= i < chars@.len() ==> #[trigger] chars@[i] == '/',
        decreases to,
    {
        to -= 1;
    }
    proof {
        lemma_without_last_is(chars@, |c: char| c == '/', to as int);
    }
    string_of(&chars, 0, to)
}

/// The lines of the text.
pub fn lines(text: &str) -> (result: Vec<String>)
    ensures
        texts(result@) == lines_of(text@),
{
    let chars = chars_of(text);
    let mut result: Vec<String> = Vec::new();
    let mut from: usize = 0;
    assert(chars@.skip(0) =~= chars@);
    while from < chars.len()
        invariant
            from <= chars@.len(),
            texts(result@) + lines_of(chars@.skip(from as int)) =~= lines_of(chars@),
        decreases chars@.len() - from,
    {
        let ghost t = chars@.skip(from as int);
        let ghost p = |c: char| c != '\n';
        let ghost before = result@;
        let mut to: usize = from;
        while to < chars.len() && chars[to] != '\n'
            invariant
                from <= to <= chars@.len(),
                forall|i: int| from <= i < to ==> #[trigger] chars@[i] != '\n',
            decreases chars@.len() - to,
        {
            to += 1;
        }
        proof {
            assert forall|i: int| 0 <= i < to - from implies p(#[trigger] t[i]) by {
                assert(t[i] == chars@[i + from]);
            }
            lemma_span_is(t, p, to - from);
            assert(t.take(to - from) =~= chars@.subrange(from as int, to as int));
        }
        if to < chars.len() {
            let end: usize = if to > from && chars[to - 1] == '\r' {
                to - 1
            } else {
                to
            };
            let line = string_of(&chars, from, end);
            assert(line@ =~= without_return(t.take(to - from)));
            result.push(line);
            assert(t.skip(to - from + 1) =~= chars@.skip(to + 1));
            assert(texts(result@) =~= texts(before).push(line@));
            from = to + 1;
        } else {
            let line = string_of(&chars, from, to);
            assert(line@ =~= t);
            result.push(line);
            assert(texts(result@) =~= texts(before).push(line@));
            from = to;
            assert(lines_of(chars@.skip(from as int)) =~= seq![]);
        }
    }
    assert(lines_of(chars@.skip(from as int)) =~= seq![]);
    result
}

/// Whether the text begins with `prefix`.
pub fn begins_with(text: &str, prefix: &str) -> (result: bool)
    ensures
        result == prefix@.is_prefix_of(text@),
{
    let chars = chars_of(text);
    let start = chars_of(prefix);
    if start.len() > chars.len() {
        return false;
    }
    let mut i: usize = 0;
    while i < start.len()
        invariant
            i <= start@.len() <= chars@.len(),
            chars@ == text@,
            start@ == prefix@,
            forall|k: int| 0 <= k < i ==> #[trigger] chars@[k] == start@[k],
        decreases start@.len() - i,
    {
        if chars[i] != start[i] {
            assert(text@.subrange(0, start@.len() as int)[i as int] != prefix@[i as int]);
            return false;
        }
        i += 1;
    }
    assert(text@.subrange(0, start@.len() as int) =~= prefix@);
    true
}

/// The parts one after the other, separated by spaces.
pub fn spaced(parts: &Vec<String>) -> (result: String)
    ensures
        result@ == joined(texts(parts@), ' '),
{
    let mut result = String::new();
    for i in 0..parts.len()
        invariant
            result@ =~= joined(texts(parts@).take(i as int), ' '),
    {
        if i > 0 {
            result.push(' ');
        }
        proof {
            let all = texts(parts@);
            assert(all.take(i + 1) =~= all.take(i as int).push(all[i as int]));
            lemma_joined_push(all.take(i as int), ' ', all[i as int]);
        }
        result.append(parts[i].as_str());
    }
    assert(texts(parts@).take(parts@.len() as int) =~= texts(parts@));
    result
}

/// The lines, each followed by a line feed.
pub fn with_newlines(lines: &Vec<String>) -> (result: String)
    ensures
        result@ == newline_terminated(texts(lines@)),
{
    let mut result = String::new();
    for i in 0..lines.len()
        invariant
            result@ =~= newline_terminated(texts(lines@).take(i as int)),
    {
        proof {
            let all = texts(lines@);
            assert(all.take(i + 1).drop_last() =~= all.take(i as int));
        }
        result.append(lines[i].as_str());
        result.push('\n');
    }
    assert(texts(lines@).take(lines@.len() as int) =~= texts(lines@));
    result
}

/// The path of an entry of a directory.
pub fn join_path(dir: &str, name: &str) -> (path: String)
    ensures
        path@ == path_in(dir@, name@),
{
    let chars = chars_of(dir);
    let mut path = dir.to_owned();
    if chars.len() > 0 && chars[chars.len() - 1] != '/' {
        path.push('/');
    }
    let path = path.concat(name);
    assert(path@ =~= path_in(dir@, name@));
    path
}

} // verus!
