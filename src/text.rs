//! Character-level helpers on strings, stated over `Seq<char>`.

use vstd::prelude::*;

verus! {

/// Relies on `str::chars`: collects the characters of `s` in order.
#[verifier::external_body]
pub(crate) fn chars_of(s: &str) -> (r: Vec<char>)
    ensures
        r@ == s@,
{
    s.chars().collect()
}

/// Relies on `FromIterator<char> for String`: the string made of `v`'s characters.
#[verifier::external_body]
pub(crate) fn string_of(v: &Vec<char>) -> (r: String)
    ensures
        r@ == v@,
{
    v.iter().collect()
}

/// `s` begins with `p`.
pub open spec fn has_prefix(s: Seq<char>, p: Seq<char>) -> bool {
    p.len() <= s.len() && s.subrange(0, p.len() as int) == p
}

/// `s` ends with `p`.
pub open spec fn has_suffix(s: Seq<char>, p: Seq<char>) -> bool {
    p.len() <= s.len() && s.subrange(s.len() - p.len(), s.len() as int) == p
}

/// Whether `v[start..]` begins with `p`.
pub fn matches_at(v: &Vec<char>, start: usize, p: &Vec<char>) -> (r: bool)
    requires
        start <= v@.len(),
    ensures
        r == has_prefix(v@.subrange(start as int, v@.len() as int), p@),
{
    if p.len() > v.len() - start {
        return false;
    }
    let mut i: usize = 0;
    while i < p.len()
        invariant
            i <= p@.len(),
            start + p@.len() <= v@.len(),
            start + p.len() <= v.len(),
            forall|j: int| 0 <= j < i ==> v@[start + j] == p@[j],
        decreases p@.len() - i,
    {
        if v[start + i] != p[i] {
            assert(v@.subrange(start as int, v@.len() as int).subrange(0, p@.len() as int)[i as int]
                != p@[i as int]);
            return false;
        }
        i = i + 1;
    }
    assert(v@.subrange(start as int, v@.len() as int).subrange(0, p@.len() as int) =~= p@);
    true
}

/// Appends the characters of `src` to `dst`.
pub fn push_all(dst: &mut Vec<char>, src: &Vec<char>)
    ensures
        final(dst)@ == old(dst)@ + src@,
{
    let ghost start = dst@;
    let mut i: usize = 0;
    while i < src.len()
        invariant
            i <= src@.len(),
            dst@ == start + src@.subrange(0, i as int),
        decreases src@.len() - i,
    {
        dst.push(src[i]);
        i = i + 1;
        assert(dst@ =~= start + src@.subrange(0, i as int));
    }
    assert(src@.subrange(0, src@.len() as int) =~= src@);
}

/// Appends the characters of `s` to `dst`.
pub fn push_str(dst: &mut Vec<char>, s: &str)
    ensures
        final(dst)@ == old(dst)@ + s@,
{
    let v = chars_of(s);
    push_all(dst, &v);
}

/// Whitespace in the sense of Unicode's `White_Space` property.
pub open spec fn is_white_space(c: char) -> bool {
    ||| c == '\t' || c == '\n' || c == '\x0B' || c == '\x0C' || c == '\r' || c == ' '
    ||| c == '\u{85}' || c == '\u{A0}' || c == '\u{1680}'
    ||| ('\u{2000}' <= c && c <= '\u{200A}')
    ||| c == '\u{2028}' || c == '\u{2029}' || c == '\u{202F}' || c == '\u{205F}'
    ||| c == '\u{3000}'
}

/// Whether `c` is whitespace in the sense of `is_white_space`.
pub fn white_space(c: char) -> (r: bool)
    ensures
        r == is_white_space(c),
{
    c == '\t' || c == '\n' || c == '\x0B' || c == '\x0C' || c == '\r' || c == ' ' || c == '\u{85}'
        || c == '\u{A0}' || c == '\u{1680}' || ('\u{2000}' <= c && c <= '\u{200A}') || c
        == '\u{2028}' || c == '\u{2029}' || c == '\u{202F}' || c == '\u{205F}' || c == '\u{3000}'
}

/// The pieces of `s` between newline characters, the last one included even when empty.
pub open spec fn split_newlines(s: Seq<char>) -> Seq<Seq<char>>
    decreases s.len(),
{
    if s.len() == 0 {
        seq![Seq::empty()]
    } else if s.last() == '\n' {
        split_newlines(s.drop_last()).push(Seq::empty())
    } else {
        let r = split_newlines(s.drop_last());
        r.update(r.len() - 1, r.last().push(s.last()))
    }
}

/// Splitting at newlines always yields at least one piece.
pub proof fn lemma_split_newlines_nonempty(s: Seq<char>)
    ensures
        split_newlines(s).len() >= 1,
    decreases s.len(),
{
    if s.len() > 0 {
        lemma_split_newlines_nonempty(s.drop_last());
    }
}

/// `l` without one trailing carriage return.
pub open spec fn strip_cr(l: Seq<char>) -> Seq<char> {
    if l.len() > 0 && l.last() == '\r' {
        l.drop_last()
    } else {
        l
    }
}

/// The lines of `s`: pieces ended by a newline lose one trailing carriage
/// return, and the piece after the last newline counts only when non-empty.
pub open spec fn lines_of(s: Seq<char>) -> Seq<Seq<char>> {
    let p = split_newlines(s);
    let ended = p.drop_last().map_values(|l: Seq<char>| strip_cr(l));
    if p.last().len() == 0 {
        ended
    } else {
        ended.push(p.last())
    }
}

/// The characters of `v`'s elements.
pub open spec fn views(v: Seq<Vec<char>>) -> Seq<Seq<char>> {
    v.map_values(|x: Vec<char>| x@)
}

fn without_cr(l: Vec<char>) -> (r: Vec<char>)
    ensures
        r@ == strip_cr(l@),
{
    let ghost orig = l@;
    let mut l = l;
    if l.len() > 0 && l[l.len() - 1] == '\r' {
        l.pop();
        assert(l@ =~= strip_cr(orig));
    }
    l
}

/// Splits `s` into its lines.
pub fn lines(s: &Vec<char>) -> (r: Vec<Vec<char>>)
    ensures
        views(r@) == lines_of(s@),
{
    let mut ended: Vec<Vec<char>> = Vec::new();
    let mut cur: Vec<char> = Vec::new();
    let mut i: usize = 0;
    proof {
        assert(s@.subrange(0, 0) =~= Seq::<char>::empty());
    }
    while i < s.len()
        invariant
            i <= s@.len(),
            views(ended@) == split_newlines(s@.subrange(0, i as int)).drop_last().map_values(
                |l: Seq<char>| strip_cr(l),
            ),
            cur@ == split_newlines(s@.subrange(0, i as int)).last(),
        decreases s@.len() - i,
    {
        let c = s[i];
        let ghost pre = s@.subrange(0, i as int);
        let ghost p = split_newlines(pre);
        proof {
            lemma_split_newlines_nonempty(pre);
            assert(s@.subrange(0, i + 1).drop_last() =~= pre);
            assert(s@.subrange(0, i + 1).last() == c);
        }
        if c == '\n' {
            let done = cur;
            cur = Vec::new();
            let ghost before = ended@;
            ended.push(without_cr(done));
            proof {
                let q = split_newlines(s@.subrange(0, i + 1));
                assert(q == p.push(Seq::empty()));
                assert(q.drop_last() =~= p);
                assert(views(ended@) =~= views(before).push(strip_cr(p.last())));
                assert(p.map_values(|l: Seq<char>| strip_cr(l)) =~= p.drop_last().map_values(
                    |l: Seq<char>| strip_cr(l),
                ).push(strip_cr(p.last())));
                assert(cur@ =~= q.last());
            }
        } else {
            cur.push(c);
            proof {
                let q = split_newlines(s@.subrange(0, i + 1));
                assert(q == p.update(p.len() - 1, p.last().push(c)));
                assert(q.drop_last() =~= p.drop_last());
                assert(cur@ =~= q.last());
            }
        }
        i = i + 1;
    }
    proof {
        assert(s@.subrange(0, s@.len() as int) =~= s@);
    }
    if cur.len() > 0 {
        let ghost before = ended@;
        ended.push(cur);
        assert(views(ended@) =~= views(before).push(split_newlines(s@).last()));
    }
    ended
}

/// The elements of `ls` with `sep` between each two neighbours.
pub open spec fn join(ls: Seq<Seq<char>>, sep: Seq<char>) -> Seq<char>
    decreases ls.len(),
{
    if ls.len() == 0 {
        Seq::empty()
    } else if ls.len() == 1 {
        ls[0]
    } else {
        join(ls.drop_last(), sep) + sep + ls.last()
    }
}

/// Joins `parts` with `sep` between each two neighbours.
pub fn join_with(parts: &Vec<Vec<char>>, sep: &Vec<char>) -> (r: Vec<char>)
    ensures
        r@ == join(views(parts@), sep@),
{
    let mut out: Vec<char> = Vec::new();
    let mut k: usize = 0;
    while k < parts.len()
        invariant
            k <= parts@.len(),
            out@ == join(views(parts@).subrange(0, k as int), sep@),
        decreases parts@.len() - k,
    {
        let ghost prev = views(parts@).subrange(0, k as int);
        let ghost next = views(parts@).subrange(0, k + 1);
        if k > 0 {
            push_all(&mut out, sep);
        }
        push_all(&mut out, &parts[k]);
        proof {
            assert(next.drop_last() =~= prev);
            assert(next.last() == parts@[k as int]@);
            if k == 0 {
                assert(out@ =~= next[0]);
            }
        }
        k = k + 1;
    }
    assert(views(parts@).subrange(0, parts@.len() as int) =~= views(parts@));
    out
}

/// Whether `a` and `b` hold the same characters.
pub fn same_chars(a: &Vec<char>, b: &Vec<char>) -> (r: bool)
    ensures
        r == (a@ == b@),
{
    if a.len() != b.len() {
        return false;
    }
    let mut i: usize = 0;
    while i < a.len()
        invariant
            i <= a@.len(),
            a@.len() == b@.len(),
            forall|j: int| 0 <= j < i ==> a@[j] == b@[j],
        decreases a@.len() - i,
    {
        if a[i] != b[i] {
            return false;
        }
        i = i + 1;
    }
    assert(a@ =~= b@);
    true
}

/// Whether `s` holds exactly the characters of `lit`.
pub fn is_word(s: &Vec<char>, lit: &str) -> (r: bool)
    ensures
        r == (s@ == lit@),
{
    let w = chars_of(lit);
    same_chars(s, &w)
}

/// `s` without `suf` at its end, where it ends so.
pub open spec fn strip_suffix(s: Seq<char>, suf: Seq<char>) -> Seq<char> {
    if has_suffix(s, suf) {
        s.subrange(0, s.len() - suf.len())
    } else {
        s
    }
}

/// Removes `suf` from the end of `s`, where `s` ends so.
pub fn without_suffix(s: &Vec<char>, suf: &str) -> (r: Vec<char>)
    ensures
        r@ == strip_suffix(s@, suf@),
{
    let w = chars_of(suf);
    let mut out: Vec<char> = Vec::new();
    let mut end = s.len();
    if w.len() <= s.len() {
        let start = s.len() - w.len();
        let hit = matches_at(s, start, &w);
        assert(s@.subrange(start as int, s@.len() as int).subrange(0, w@.len() as int)
            =~= s@.subrange(s@.len() - w@.len(), s@.len() as int));
        if hit {
            end = start;
        }
    }
    let mut i: usize = 0;
    while i < end
        invariant
            end <= s@.len(),
            i <= end,
            out@ == s@.subrange(0, i as int),
        decreases end - i,
    {
        out.push(s[i]);
        i = i + 1;
        assert(out@ =~= s@.subrange(0, i as int));
    }
    assert(end == s@.len() ==> s@.subrange(0, end as int) =~= s@);
    out
}

} // verus!
