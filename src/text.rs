//! Character-level helpers shared by the listing parser and the menu labels.
use vstd::prelude::*;

verus! {

/// Appends one character to a string.
/// Relies on String::push, which adds the character at the end.
#[verifier::external_body]
pub(crate) fn push_char(s: &mut String, c: char)
    ensures
        final(s)@ == old(s)@.push(c),
{
    s.push(c)
}

/// The characters of `s`, in order.
pub fn chars_of(s: &str) -> (r: Vec<char>)
    ensures
        r@ == s@,
{
    let mut r: Vec<char> = Vec::new();
    for c in it: s.chars()
        invariant
            it.seq() == s@,
            r@ == it.seq().take(it.index() as int),
    {
        r.push(c);
    }
    r
}


/// `s` begins with `p`.
pub open spec fn starts_with(s: Seq<char>, p: Seq<char>) -> bool {
    p.len() <= s.len() && s.take(p.len() as int) == p
}

/// `s` without a final carriage return, if it has one.
pub open spec fn trim_cr(s: Seq<char>) -> Seq<char> {
    if s.len() > 0 && s.last() == '\r' {
        s.drop_last()
    } else {
        s
    }
}

/// Scanning `s` from the left: the lines closed by a newline so far, and the
/// characters read since the last newline.
pub open spec fn line_scan(s: Seq<char>) -> (Seq<Seq<char>>, Seq<char>)
    decreases s.len(),
{
    if s.len() == 0 {
        (seq![], seq![])
    } else {
        let (done, cur) = line_scan(s.drop_last());
        if s.last() == '\n' {
            (done.push(trim_cr(cur)), seq![])
        } else {
            (done, cur.push(s.last()))
        }
    }
}

/// The lines of `s`: split at each newline, a carriage return that stands
/// right before a newline dropped, and no empty line after a final newline.
pub open spec fn lines_of(s: Seq<char>) -> Seq<Seq<char>> {
    let (done, cur) = line_scan(s);
    if cur.len() == 0 {
        done
    } else {
        done.push(cur)
    }
}

/// The text whose lines are `ls`: each line followed by a newline.
pub open spec fn join_lines(ls: Seq<Seq<char>>) -> Seq<char>
    decreases ls.len(),
{
    if ls.len() == 0 {
        Seq::<char>::empty()
    } else {
        ls[0] + seq!['\n'] + join_lines(ls.drop_first())
    }
}

/// A line that reads back unchanged once joined: no newline in it, and no
/// carriage return at its end.
pub open spec fn is_plain_line(l: Seq<char>) -> bool {
    &&& forall|i: int| 0 <= i < l.len() ==> l[i] != '\n'
    &&& !(l.len() > 0 && l.last() == '\r')
}

/// Characters without a newline only extend the line being read.
proof fn lemma_scan_without_newline(s: Seq<char>, l: Seq<char>)
    requires
        forall|i: int| 0 <= i < l.len() ==> l[i] != '\n',
    ensures
        line_scan(s + l) == (line_scan(s).0, line_scan(s).1 + l),
    decreases l.len(),
{
    if l.len() == 0 {
        assert(s + l == s);
        assert(line_scan(s).1 + l == line_scan(s).1);
    } else {
        lemma_scan_without_newline(s, l.drop_last());
        assert((s + l).drop_last() == s + l.drop_last());
        assert((s + l).last() == l.last());
        assert(line_scan(s).1 + l == (line_scan(s).1 + l.drop_last()).push(l.last()));
    }
}

/// Reading joined plain lines after a line boundary closes exactly those lines.
proof fn lemma_scan_joined(s: Seq<char>, ls: Seq<Seq<char>>)
    requires
        line_scan(s).1.len() == 0,
        forall|i: int| 0 <= i < ls.len() ==> is_plain_line(#[trigger] ls[i]),
    ensures
        line_scan(s + join_lines(ls)) == (line_scan(s).0 + ls, Seq::<char>::empty()),
    decreases ls.len(),
{
    if ls.len() == 0 {
        assert(s + join_lines(ls) == s);
        assert(line_scan(s).0 + ls == line_scan(s).0);
        assert(line_scan(s).1 == Seq::<char>::empty());
    } else {
        let l = ls[0];
        assert(is_plain_line(l));
        let t = s + l + seq!['\n'];
        lemma_scan_without_newline(s, l);
        assert(t.drop_last() == s + l);
        assert(line_scan(s).1 + l == l);
        assert(trim_cr(l) == l);
        assert(line_scan(t) == (line_scan(s).0.push(l), Seq::<char>::empty()));
        let rest = ls.drop_first();
        assert forall|i: int| 0 <= i < rest.len() implies is_plain_line(#[trigger] rest[i]) by {
            assert(rest[i] == ls[i + 1]);
        }
        lemma_scan_joined(t, rest);
        assert(s + join_lines(ls) == t + join_lines(rest));
        assert(line_scan(s).0.push(l) + rest == line_scan(s).0 + ls);
    }
}

/// Joining plain lines and splitting the text again gives back the lines.
pub proof fn lemma_lines_of_joined(ls: Seq<Seq<char>>)
    requires
        forall|i: int| 0 <= i < ls.len() ==> is_plain_line(#[trigger] ls[i]),
    ensures
        lines_of(join_lines(ls)) == ls,
{
    let e = Seq::<char>::empty();
    assert(line_scan(e) == (Seq::<Seq<char>>::empty(), e));
    lemma_scan_joined(e, ls);
    assert(e + join_lines(ls) == join_lines(ls));
    assert(Seq::<Seq<char>>::empty() + ls == ls);
}

/// What a sequence of character vectors holds, as character sequences.
pub open spec fn char_rows(v: Seq<Vec<char>>) -> Seq<Seq<char>> {
    v.map_values(|l: Vec<char>| l@)
}

/// What a sequence of strings holds, as character sequences.
pub open spec fn string_rows(v: Seq<String>) -> Seq<Seq<char>> {
    v.map_values(|s: String| s@)
}

/// Splits text into its lines, as `lines_of` describes them.
pub fn split_lines(text: &Vec<char>) -> (r: Vec<Vec<char>>)
    ensures
        char_rows(r@) == lines_of(text@),
{
    let mut done: Vec<Vec<char>> = Vec::new();
    let mut cur: Vec<char> = Vec::new();
    let mut i: usize = 0;
    while i < text.len()
        invariant
            i <= text.len(),
            line_scan(text@.take(i as int)) == (char_rows(done@), cur@),
        decreases text.len() - i,
    {
        let c = text[i];
        assert(text@.take(i + 1).drop_last() == text@.take(i as int));
        if c == '\n' {
            if cur.len() > 0 && cur[cur.len() - 1] == '\r' {
                cur.pop();
            }
            done.push(cur);
            cur = Vec::new();
            assert(char_rows(done@) == char_rows(done@.drop_last()).push(done@.last()@));
        } else {
            cur.push(c);
        }
        i = i + 1;
    }
    assert(text@.take(text.len() as int) == text@);
    if cur.len() > 0 {
        done.push(cur);
        assert(char_rows(done@) == char_rows(done@.drop_last()).push(done@.last()@));
    }
    done
}

/// The characters of `v` from `from` up to `to`, as a string.
pub fn string_of(v: &Vec<char>, from: usize, to: usize) -> (r: String)
    requires
        from <= to <= v.len(),
    ensures
        r@ == v@.subrange(from as int, to as int),
{
    let mut r = String::new();
    let mut i: usize = from;
    while i < to
        invariant
            from <= i <= to <= v.len(),
            r@ == v@.subrange(from as int, i as int),
        decreases to - i,
    {
        push_char(&mut r, v[i]);
        assert(v@.subrange(from as int, i + 1) == v@.subrange(from as int, i as int).push(v@[i as int]));
        i = i + 1;
    }
    r
}

/// Whether `s` begins with `p`.
pub fn has_prefix(s: &Vec<char>, p: &Vec<char>) -> (r: bool)
    ensures
        r == starts_with(s@, p@),
{
    if p.len() > s.len() {
        return false;
    }
    let mut i: usize = 0;
    while i < p.len()
        invariant
            p.len() <= s.len(),
            i <= p.len(),
            forall|j: int| 0 <= j < i ==> s@[j] == p@[j],
        decreases p.len() - i,
    {
        if s[i] != p[i] {
            assert(s@.take(p.len() as int)[i as int] != p@[i as int]);
            return false;
        }
        i = i + 1;
    }
    assert(s@.take(p.len() as int) =~= p@);
    true
}

/// The rest of `s` after the prefix `p`, where `s` begins with it.
pub fn after_prefix(s: &Vec<char>, p: &Vec<char>) -> (r: Option<String>)
    ensures
        r matches Some(v) ==> starts_with(s@, p@) && v@ == s@.skip(p@.len() as int),
        r is None ==> !starts_with(s@, p@),
{
    if has_prefix(s, p) {
        let v = string_of(s, p.len(), s.len());
        assert(s@.subrange(p.len() as int, s.len() as int) == s@.skip(p@.len() as int));
        Some(v)
    } else {
        None
    }
}

} // verus!
