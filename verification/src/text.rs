//! Text helpers: lines, joining, character filters and display width.
//!
//! The specifications here work on `Seq<char>`, the view of `String` and `str`.
use vstd::prelude::*;
use unicode_width::UnicodeWidthStr;

verus! {

/// The views of a sequence of strings.
pub open spec fn strings_view(v: Seq<String>) -> Seq<Seq<char>> {
    v.map_values(|s: String| s@)
}

/// True when `s` holds no line feed.
pub open spec fn no_newline(s: Seq<char>) -> bool {
    forall|i: int| 0 <= i < s.len() ==> s[i] != '\n'
}

/// Index of the first line feed in `s`, or `s.len()` when there is none.
pub open spec fn newline_index(s: Seq<char>) -> nat
    decreases s.len(),
{
    if s.len() == 0 {
        0
    } else if s[0] == '\n' {
        0
    } else {
        1 + newline_index(s.drop_first())
    }
}

/// Index of the first `c` in `s`, or `s.len()` when there is none.
pub open spec fn first_index_of(s: Seq<char>, c: char) -> nat
    decreases s.len(),
{
    if s.len() == 0 {
        0
    } else if s[0] == c {
        0
    } else {
        1 + first_index_of(s.drop_first(), c)
    }
}

/// A line without the carriage return that may end it.
pub open spec fn strip_cr(line: Seq<char>) -> Seq<char> {
    if line.len() > 0 && line.last() == '\r' {
        line.drop_last()
    } else {
        line
    }
}

/// The lines of a text, as `str::lines` gives them: the text is cut at each line
/// feed, a carriage return right before a line feed is dropped, and a line feed at
/// the very end does not open an empty last line.
pub open spec fn text_lines(s: Seq<char>) -> Seq<Seq<char>>
    decreases s.len(),
{
    if s.len() == 0 {
        seq![]
    } else {
        let p = newline_index(s);
        if p >= s.len() {
            seq![s]
        } else {
            seq![strip_cr(s.take(p as int))] + text_lines(s.skip(p + 1int))
        }
    }
}

/// `parts` joined with `sep` between each two neighbours.
pub open spec fn join_with(parts: Seq<Seq<char>>, sep: Seq<char>) -> Seq<char>
    decreases parts.len(),
{
    if parts.len() == 0 {
        seq![]
    } else if parts.len() == 1 {
        parts[0]
    } else {
        join_with(parts.drop_last(), sep) + sep + parts.last()
    }
}

/// `s` with every line feed taken out.
pub open spec fn without_newlines(s: Seq<char>) -> Seq<char>
    decreases s.len(),
{
    if s.len() == 0 {
        seq![]
    } else if s.last() == '\n' {
        without_newlines(s.drop_last())
    } else {
        without_newlines(s.drop_last()).push(s.last())
    }
}

/// The display width in terminal columns that `UnicodeWidthStr::width` of
/// `unicode-width` gives a text.
pub uninterp spec fn spec_text_width(s: Seq<char>) -> usize;

pub proof fn lemma_newline_index_of_line(c: Seq<char>, r: Seq<char>)
    requires
        no_newline(c),
    ensures
        newline_index(c + seq!['\n'] + r) == c.len(),
    decreases c.len(),
{
    let s = c + seq!['\n'] + r;
    if c.len() > 0 {
        assert(s.drop_first() =~= c.drop_first() + seq!['\n'] + r);
        lemma_newline_index_of_line(c.drop_first(), r);
    }
}

pub proof fn lemma_newline_index_none(c: Seq<char>)
    requires
        no_newline(c),
    ensures
        newline_index(c) == c.len(),
    decreases c.len(),
{
    if c.len() > 0 {
        lemma_newline_index_none(c.drop_first());
    }
}

/// What `newline_index` finds.
pub proof fn lemma_newline_index(s: Seq<char>)
    ensures
        newline_index(s) <= s.len(),
        newline_index(s) < s.len() ==> s[newline_index(s) as int] == '\n',
    decreases s.len(),
{
    if s.len() > 0 && s[0] != '\n' {
        lemma_newline_index(s.drop_first());
        if newline_index(s) < s.len() {
            assert(s[newline_index(s) as int] == s.drop_first()[newline_index(s.drop_first()) as int]);
        }
    }
}

/// True when some line of `ls` holds `c`.
pub open spec fn some_line_holds(ls: Seq<Seq<char>>, c: char) -> bool {
    exists|i: int| 0 <= i < ls.len() && (#[trigger] ls[i]).contains(c)
}

/// A character other than a line feed or a carriage return is in a text
/// exactly when it is in one of the text's lines.
pub proof fn lemma_lines_hold_char(s: Seq<char>, c: char)
    requires
        c != '\n',
        c != '\r',
    ensures
        s.contains(c) <==> some_line_holds(text_lines(s), c),
    decreases s.len(),
{
    if s.len() == 0 {
        return;
    }
    lemma_newline_index(s);
    let p = newline_index(s);
    let ls = text_lines(s);
    if p >= s.len() {
        assert(ls == seq![s]);
        if s.contains(c) {
            assert(ls[0].contains(c));
        }
        if some_line_holds(ls, c) {
            let i = choose|i: int| 0 <= i < ls.len() && (#[trigger] ls[i]).contains(c);
            assert(i == 0);
        }
        return;
    }
    let a = s.take(p as int);
    let rest = s.skip(p + 1int);
    let l = text_lines(rest);
    assert(ls == seq![strip_cr(a)] + l);
    lemma_lines_hold_char(rest, c);
    if s.contains(c) {
        let k = choose|k: int| 0 <= k < s.len() && s[k] == c;
        if k < p {
            assert(a[k] == c);
            if a.len() > 0 && a.last() == '\r' {
                assert(k < a.len() - 1);
                assert(strip_cr(a)[k] == c);
            } else {
                assert(strip_cr(a)[k] == c);
            }
            assert(ls[0].contains(c));
        } else {
            assert(k != p);
            assert(rest[k - p - 1] == c);
            let i = choose|i: int| 0 <= i < l.len() && (#[trigger] l[i]).contains(c);
            assert(ls[i + 1] == l[i]);
        }
    }
    if some_line_holds(ls, c) {
        let i = choose|i: int| 0 <= i < ls.len() && (#[trigger] ls[i]).contains(c);
        if i == 0 {
            let k = choose|k: int| 0 <= k < strip_cr(a).len() && strip_cr(a)[k] == c;
            assert(s[k] == c);
        } else {
            assert(ls[i] == l[i - 1]);
            assert(some_line_holds(l, c));
            let k = choose|k: int| 0 <= k < rest.len() && rest[k] == c;
            assert(s[k + p + 1] == c);
        }
    }
}

/// Joining the lines of a text with line feeds gives the text back, when it
/// holds no carriage return and does not end with a line feed.
pub proof fn lemma_join_lines_gives_back(s: Seq<char>)
    requires
        !s.contains('\r'),
        s.len() > 0 ==> s.last() != '\n',
    ensures
        join_with(text_lines(s), "\n"@) == s,
    decreases s.len(),
{
    if s.len() == 0 {
        return;
    }
    lemma_newline_index(s);
    let p = newline_index(s);
    if p >= s.len() {
        return;
    }
    let a = s.take(p as int);
    let rest = s.skip(p + 1int);
    if a.len() > 0 && a.last() == '\r' {
        assert(s[p - 1] == '\r');
    }
    assert(strip_cr(a) == a);
    if rest.len() == 0 {
        assert(s.last() == s[p as int]);
    }
    assert(rest.last() == s.last());
    if rest.contains('\r') {
        let k = choose|k: int| 0 <= k < rest.len() && rest[k] == '\r';
        assert(s[k + p + 1] == '\r');
    }
    lemma_join_lines_gives_back(rest);
    let l = text_lines(rest);
    assert(l.len() > 0) by {
        lemma_newline_index(rest);
    }
    assert(text_lines(s) == seq![a] + l);
    lemma_join_with_concat(seq![a], l, "\n"@);
    assert(join_with(seq![a], "\n"@) == a);
    assert(a + "\n"@ + rest =~= s) by {
        reveal_strlit("\n");
    }
}

/// Lines of a text that starts with a line feed-free piece and a line feed.
pub proof fn lemma_text_lines_cons(c: Seq<char>, r: Seq<char>)
    requires
        no_newline(c),
    ensures
        text_lines(c + seq!['\n'] + r) == seq![strip_cr(c)] + text_lines(r),
{
    let s = c + seq!['\n'] + r;
    lemma_newline_index_of_line(c, r);
    assert(s.take(c.len() as int) =~= c);
    assert(s.skip(c.len() + 1int) =~= r);
}

/// A nonempty text without line feeds is a single line.
pub proof fn lemma_text_lines_single(c: Seq<char>)
    requires
        no_newline(c),
        c.len() > 0,
    ensures
        text_lines(c) == seq![c],
{
    lemma_newline_index_none(c);
}

/// A joined text ends with the last of its parts.
pub proof fn lemma_join_with_ends_with_last(parts: Seq<Seq<char>>, sep: Seq<char>)
    requires
        parts.len() > 0,
    ensures
        join_with(parts, sep).len() >= parts.last().len(),
        join_with(parts, sep).skip(join_with(parts, sep).len() - parts.last().len())
            == parts.last(),
{
    let j = join_with(parts, sep);
    if parts.len() == 1 {
        assert(j.skip(0) =~= parts.last());
    } else {
        let a = join_with(parts.drop_last(), sep);
        assert(j.skip((a.len() + sep.len()) as int) =~= parts.last());
    }
}

/// Joining two nonempty runs of parts is joining each and putting the
/// separator between them.
pub proof fn lemma_join_with_concat(a: Seq<Seq<char>>, b: Seq<Seq<char>>, sep: Seq<char>)
    requires
        a.len() > 0,
        b.len() > 0,
    ensures
        join_with(a + b, sep) == join_with(a, sep) + sep + join_with(b, sep),
    decreases b.len(),
{
    let ab = a + b;
    if b.len() == 1 {
        assert(ab.drop_last() =~= a);
        assert(ab.last() == b[0]);
    } else {
        assert(ab.drop_last() =~= a + b.drop_last());
        assert(ab.last() == b.last());
        lemma_join_with_concat(a, b.drop_last(), sep);
        assert(join_with(ab, sep) =~= join_with(a, sep) + sep + join_with(b, sep));
    }
}

/// Taking line feeds out of two joined texts takes them out of each.
pub proof fn lemma_without_newlines_concat(a: Seq<char>, b: Seq<char>)
    ensures
        without_newlines(a + b) == without_newlines(a) + without_newlines(b),
    decreases b.len(),
{
    if b.len() == 0 {
        assert(a + b =~= a);
        assert(without_newlines(a) + without_newlines(b) =~= without_newlines(a));
    } else {
        assert((a + b).drop_last() =~= a + b.drop_last());
        assert((a + b).last() == b.last());
        lemma_without_newlines_concat(a, b.drop_last());
        if b.last() == '\n' {
        } else {
            assert(without_newlines(a) + without_newlines(b) =~= (without_newlines(a)
                + without_newlines(b.drop_last())).push(b.last()));
        }
    }
}

/// Each of `ls` with its line feeds taken out.
pub open spec fn each_without_newlines(ls: Seq<Seq<char>>) -> Seq<Seq<char>> {
    Seq::new(ls.len(), |i: int| without_newlines(ls[i]))
}

/// Taking the line feeds out of lines joined with spaces is joining the lines,
/// each without its line feeds, with spaces.
pub proof fn lemma_without_newlines_join(ls: Seq<Seq<char>>)
    ensures
        without_newlines(join_with(ls, " "@)) == join_with(each_without_newlines(ls), " "@),
    decreases ls.len(),
{
    let e = each_without_newlines(ls);
    if ls.len() == 0 {
        assert(without_newlines(Seq::<char>::empty()) == Seq::<char>::empty());
    } else if ls.len() == 1 {
        assert(e =~= seq![without_newlines(ls[0])]);
    } else {
        let front = ls.drop_last();
        lemma_without_newlines_join(front);
        assert(each_without_newlines(front) =~= e.drop_last());
        assert(e.last() == without_newlines(ls.last()));
        reveal_strlit(" ");
        let sp = " "@;
        assert(sp.len() == 1);
        assert(sp[0] == ' ');
        assert(sp.drop_last() =~= Seq::<char>::empty());
        assert(without_newlines(Seq::<char>::empty()) == Seq::<char>::empty());
        assert(without_newlines(sp) =~= seq![' ']);
        assert(sp =~= seq![' ']);
        lemma_without_newlines_concat(join_with(front, " "@), " "@);
        lemma_without_newlines_concat(join_with(front, " "@) + " "@, ls.last());
    }
}

/// A text without line feeds holds none after they are taken out.
pub proof fn lemma_without_newlines_has_none(s: Seq<char>)
    ensures
        no_newline(without_newlines(s)),
    decreases s.len(),
{
    if s.len() > 0 {
        lemma_without_newlines_has_none(s.drop_last());
    }
}

/// `String::push`: appends one character, which is what the contract claims.
#[verifier::external_body]
pub(crate) fn push_char(s: &mut String, c: char)
    ensures
        final(s)@ == old(s)@.push(c),
{
    s.push(c);
}

/// `UnicodeWidthStr::width` of `unicode-width`: the width of a text in terminal
/// columns. The contract claims only that the width is a function of the text,
/// named `spec_text_width`; which width each character has is left unsaid.
#[verifier::external_body]
pub(crate) fn text_width(s: &str) -> (w: usize)
    ensures
        w == spec_text_width(s@),
{
    s.width()
}

/// A `String` made of the first `n` characters of `chars`.
pub fn string_from_chars(chars: &Vec<char>, n: usize) -> (r: String)
    requires
        n <= chars@.len(),
    ensures
        r@ == chars@.take(n as int),
{
    let mut r = String::new();
    let mut i: usize = 0;
    while i < n
        invariant
            n <= chars@.len(),
            i <= n,
            r@ == chars@.take(i as int),
        decreases n - i,
    {
        push_char(&mut r, chars[i]);
        assert(chars@.take(i + 1) =~= chars@.take(i as int).push(chars@[i as int]));
        i = i + 1;
    }
    r
}

/// A copy of a text as a `String`.
pub fn string_of(s: &str) -> (r: String)
    ensures
        r@ == s@,
{
    let mut r = String::new();
    for c in it: s.chars()
        invariant
            it.seq() == s@,
            r@ == s@.take(it.index() as int),
    {
        push_char(&mut r, c);
        assert(s@.take(it.index() + 1) =~= s@.take(it.index() as int).push(c));
    }
    assert(s@.take(s@.len() as int) =~= s@);
    r
}

/// The lines of `text`, as `str::lines` gives them.
pub fn split_lines(text: &str) -> (r: Vec<String>)
    ensures
        strings_view(r@) == text_lines(text@),
{
    let mut out: Vec<String> = Vec::new();
    let mut cur: Vec<char> = Vec::new();
    assert(text@.skip(0) =~= text@);
    assert(cur@ + text@ =~= text@);
    for c in it: text.chars()
        invariant
            it.seq() == text@,
            no_newline(cur@),
            strings_view(out@) + text_lines(cur@ + text@.skip(it.index() as int)) == text_lines(
                text@,
            ),
    {
        let ghost i = it.index() as int;
        let ghost rest = text@.skip(i + 1);
        let ghost out0 = out@;
        let ghost cur0 = cur@;
        assert(text@.skip(i) =~= seq![c] + rest);
        if c == '\n' {
            assert(cur@ + text@.skip(i) =~= cur@ + seq!['\n'] + rest);
            proof {
                lemma_text_lines_cons(cur@, rest);
            }
            let n = cur.len();
            let line = if n > 0 && cur[n - 1] == '\r' {
                string_from_chars(&cur, n - 1)
            } else {
                string_from_chars(&cur, n)
            };
            assert(line@ == strip_cr(cur@)) by {
                assert(cur@.take(n as int) =~= cur@);
                assert(cur@.take(n - 1) =~= cur@.drop_last());
            }
            out.push(line);
            assert(strings_view(out@) =~= strings_view(out0).push(line@)) by {
                assert(out@ =~= out0.push(line));
            }
            cur = Vec::new();
            assert(cur@ + rest =~= rest);
            assert(strings_view(out@) + text_lines(rest) =~= strings_view(out0) + (seq![strip_cr(cur0)]
                + text_lines(rest)));
        } else {
            cur.push(c);
            assert(cur@ + rest =~= cur0 + text@.skip(i));
        }
    }
    assert(text@.skip(text@.len() as int) =~= Seq::<char>::empty());
    assert(cur@ + text@.skip(text@.len() as int) =~= cur@);
    if cur.len() > 0 {
        let n = cur.len();
        let line = string_from_chars(&cur, n);
        assert(cur@.take(n as int) =~= cur@);
        proof {
            lemma_text_lines_single(cur@);
        }
        let ghost before = out@;
        out.push(line);
        assert(strings_view(out@) =~= strings_view(before) + seq![cur@]);
    } else {
        assert(cur@ =~= Seq::<char>::empty());
        assert(strings_view(out@) + Seq::<Seq<char>>::empty() =~= strings_view(out@));
    }
    out
}

/// The part of `s` before its first `c`; all of `s` when `c` does not occur.
pub fn prefix_before(s: &str, c: char) -> (r: String)
    ensures
        r@ == s@.take(first_index_of(s@, c) as int),
        first_index_of(s@, c) <= s@.len(),
{
    proof {
        lemma_first_index_of(s@, c);
    }
    let mut r = String::new();
    for d in it: s.chars()
        invariant
            it.seq() == s@,
            first_index_of(s@, c) <= s@.len(),
            it.index() <= first_index_of(s@, c),
            r@ == s@.take(it.index() as int),
            forall|j: int| 0 <= j < first_index_of(s@, c) ==> s@[j] != c,
            first_index_of(s@, c) < s@.len() ==> s@[first_index_of(s@, c) as int] == c,
    {
        if d == c {
            assert(it.index() == first_index_of(s@, c));
            return r;
        }
        push_char(&mut r, d);
        assert(s@.take(it.index() + 1) =~= s@.take(it.index() as int).push(d));
    }
    assert(s@.take(s@.len() as int) =~= s@);
    r
}

/// What `first_index_of` finds.
pub proof fn lemma_first_index_of(s: Seq<char>, c: char)
    ensures
        first_index_of(s, c) <= s.len(),
        forall|j: int| 0 <= j < first_index_of(s, c) ==> s[j] != c,
        first_index_of(s, c) < s.len() ==> s[first_index_of(s, c) as int] == c,
    decreases s.len(),
{
    if s.len() > 0 && s[0] != c {
        lemma_first_index_of(s.drop_first(), c);
        assert forall|j: int| 0 <= j < first_index_of(s, c) implies s[j] != c by {
            if j > 0 {
                assert(s[j] == s.drop_first()[j - 1]);
            }
        }
    }
}

/// True when `c` occurs in `s`.
pub fn contains_char(s: &str, c: char) -> (r: bool)
    ensures
        r == s@.contains(c),
{
    for d in it: s.chars()
        invariant
            it.seq() == s@,
            forall|j: int| 0 <= j < it.index() ==> s@[j] != c,
    {
        if d == c {
            assert(s@[it.index() as int] == c);
            return true;
        }
    }
    false
}

/// `parts[start..end]` joined with `sep` between each two neighbours.
pub fn join_strings(parts: &Vec<String>, start: usize, end: usize, sep: &str) -> (r: String)
    requires
        start <= end <= parts@.len(),
    ensures
        r@ == join_with(strings_view(parts@).subrange(start as int, end as int), sep@),
{
    let ghost all = strings_view(parts@);
    let mut r = String::new();
    let mut i: usize = start;
    assert(all.subrange(start as int, start as int) =~= Seq::<Seq<char>>::empty());
    while i < end
        invariant
            start <= i <= end <= parts@.len(),
            all == strings_view(parts@),
            r@ == join_with(all.subrange(start as int, i as int), sep@),
        decreases end - i,
    {
        let ghost prev = all.subrange(start as int, i as int);
        let ghost next = all.subrange(start as int, i + 1);
        assert(next.drop_last() =~= prev);
        assert(next.last() == parts@[i as int]@);
        if i > start {
            r.append(sep);
        } else {
            assert(next =~= seq![parts@[i as int]@]);
        }
        r.append(parts[i].as_str());
        i = i + 1;
    }
    r
}

/// `s` with every line feed taken out.
pub fn remove_newlines(s: &str) -> (r: String)
    ensures
        r@ == without_newlines(s@),
{
    let mut r = String::new();
    for c in it: s.chars()
        invariant
            it.seq() == s@,
            r@ == without_newlines(s@.take(it.index() as int)),
    {
        let ghost i = it.index() as int;
        assert(s@.take(i + 1).drop_last() =~= s@.take(i));
        assert(s@.take(i + 1).last() == c);
        if c != '\n' {
            push_char(&mut r, c);
        }
    }
    assert(s@.take(s@.len() as int) =~= s@);
    r
}

} // verus!
