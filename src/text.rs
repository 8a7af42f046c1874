//! Characters of a string: trimming white space and splitting on dots.

use vstd::prelude::*;

verus! {

/// The characters with Unicode's `White_Space` property, which `str::trim` removes.
pub open spec fn is_white_space(c: char) -> bool {
    ('\u{9}' <= c && c <= '\u{d}') || c == ' ' || c == '\u{85}' || c == '\u{a0}' || c
        == '\u{1680}' || ('\u{2000}' <= c && c <= '\u{200a}') || c == '\u{2028}' || c
        == '\u{2029}' || c == '\u{202f}' || c == '\u{205f}' || c == '\u{3000}'
}

pub open spec fn trim_start(s: Seq<char>) -> Seq<char>
    decreases s.len(),
{
    if s.len() > 0 && is_white_space(s[0]) {
        trim_start(s.drop_first())
    } else {
        s
    }
}

pub open spec fn trim_end(s: Seq<char>) -> Seq<char>
    decreases s.len(),
{
    if s.len() > 0 && is_white_space(s.last()) {
        trim_end(s.drop_last())
    } else {
        s
    }
}

/// `s` without leading and trailing white space.
pub open spec fn trim(s: Seq<char>) -> Seq<char> {
    trim_end(trim_start(s))
}

/// The pieces of `s` between the dots, in order: one more than the number of dots.
pub open spec fn split_dots(s: Seq<char>) -> Seq<Seq<char>>
    decreases s.len(),
{
    if s.len() == 0 {
        seq![Seq::<char>::empty()]
    } else {
        let r = split_dots(s.drop_last());
        if s.last() == '.' {
            r.push(Seq::<char>::empty())
        } else {
            r.update(r.len() - 1, r.last().push(s.last()))
        }
    }
}

/// The pieces joined with a dot between each two.
pub open spec fn join_dots(fs: Seq<Seq<char>>) -> Seq<char>
    decreases fs.len(),
{
    if fs.len() == 0 {
        Seq::<char>::empty()
    } else if fs.len() == 1 {
        fs[0]
    } else {
        join_dots(fs.drop_last()) + seq!['.'] + fs.last()
    }
}

pub open spec fn has_no_dot(s: Seq<char>) -> bool {
    forall|i: int| 0 <= i < s.len() ==> #[trigger] s[i] != '.'
}

pub proof fn lemma_split_dots_len(s: Seq<char>)
    ensures
        split_dots(s).len() >= 1,
    decreases s.len(),
{
    if s.len() > 0 {
        lemma_split_dots_len(s.drop_last());
    }
}

proof fn lemma_split_append_no_dot(p: Seq<char>, q: Seq<char>)
    requires
        has_no_dot(q),
    ensures
        split_dots(p + q) == split_dots(p).update(
            split_dots(p).len() - 1,
            split_dots(p).last() + q,
        ),
    decreases q.len(),
{
    lemma_split_dots_len(p);
    let r = split_dots(p);
    if q.len() == 0 {
        assert(p + q =~= p);
        assert(r.last() + q =~= r.last());
        assert(r.update(r.len() - 1, r.last()) =~= r);
    } else {
        let q0 = q.drop_last();
        assert(has_no_dot(q0));
        lemma_split_append_no_dot(p, q0);
        assert((p + q).drop_last() =~= p + q0);
        assert((p + q).last() == q.last());
        assert(r.last() + q0 + seq![q.last()] =~= r.last() + q);
        assert((r.last() + q0).push(q.last()) =~= r.last() + q);
        let r0 = r.update(r.len() - 1, r.last() + q0);
        assert(r0.update(r0.len() - 1, r0.last().push(q.last())) =~= r.update(
            r.len() - 1,
            r.last() + q,
        ));
    }
}

/// Splitting undoes joining, where no piece holds a dot.
pub proof fn lemma_split_join(fs: Seq<Seq<char>>)
    requires
        fs.len() >= 1,
        forall|i: int| 0 <= i < fs.len() ==> has_no_dot(#[trigger] fs[i]),
    ensures
        split_dots(join_dots(fs)) == fs,
    decreases fs.len(),
{
    if fs.len() == 1 {
        lemma_split_append_no_dot(Seq::<char>::empty(), fs[0]);
        assert(Seq::<char>::empty() + fs[0] =~= fs[0]);
        assert(split_dots(Seq::<char>::empty()) == seq![Seq::<char>::empty()]);
        assert(seq![Seq::<char>::empty()].update(0, Seq::<char>::empty() + fs[0]) =~= fs);
    } else {
        let init = fs.drop_last();
        assert forall|i: int| 0 <= i < init.len() implies has_no_dot(#[trigger] init[i]) by {
            assert(init[i] == fs[i]);
        }
        lemma_split_join(init);
        let p = join_dots(init) + seq!['.'];
        assert(p.drop_last() =~= join_dots(init));
        assert(split_dots(p) == init.push(Seq::<char>::empty()));
        assert(has_no_dot(fs.last()));
        lemma_split_append_no_dot(p, fs.last());
        assert(Seq::<char>::empty() + fs.last() =~= fs.last());
        assert(init.push(Seq::<char>::empty()).update(init.len() as int, fs.last()) =~= fs);
    }
}

proof fn lemma_trim_start_keeps(s: Seq<char>)
    requires
        s.len() == 0 || !is_white_space(s[0]),
    ensures
        trim_start(s) == s,
{
}

proof fn lemma_trim_end_keeps(s: Seq<char>)
    requires
        s.len() == 0 || !is_white_space(s.last()),
    ensures
        trim_end(s) == s,
{
}

/// Trimming leaves a string alone that neither starts nor ends with white space.
pub proof fn lemma_trim_keeps(s: Seq<char>)
    requires
        s.len() > 0,
        !is_white_space(s[0]),
        !is_white_space(s.last()),
    ensures
        trim(s) == s,
{
    lemma_trim_start_keeps(s);
    lemma_trim_end_keeps(s);
}

pub fn is_white_space_char(c: char) -> (r: bool)
    ensures
        r == is_white_space(c),
{
    ('\u{9}' <= c && c <= '\u{d}') || c == ' ' || c == '\u{85}' || c == '\u{a0}' || c
        == '\u{1680}' || ('\u{2000}' <= c && c <= '\u{200a}') || c == '\u{2028}' || c
        == '\u{2029}' || c == '\u{202f}' || c == '\u{205f}' || c == '\u{3000}'
}

/// The characters of `s`, in order.
pub fn chars_of(s: &str) -> (r: Vec<char>)
    ensures
        r@ == s@,
{
    let n = s.unicode_len();
    let mut r: Vec<char> = Vec::new();
    let mut i: usize = 0;
    while i < n
        invariant
            n == s@.len(),
            i <= n,
            r@ == s@.take(i as int),
        decreases n - i,
    {
        r.push(s.get_char(i));
        i = i + 1;
        assert(r@ =~= s@.take(i as int));
    }
    assert(s@.take(n as int) =~= s@);
    r
}

/// The pieces of `s` between dots, after white space at both ends is removed.
pub fn split_trimmed(s: &Vec<char>) -> (r: Vec<Vec<char>>)
    ensures
        r@.map_values(|f: Vec<char>| f@) == split_dots(trim(s@)),
{
    let n = s.len();
    let mut lo: usize = 0;
    assert(s@.skip(0) =~= s@);
    while lo < n && is_white_space_char(s[lo])
        invariant
            lo <= n,
            n == s@.len(),
            trim_start(s@) == trim_start(s@.skip(lo as int)),
        decreases n - lo,
    {
        assert(s@.skip(lo as int).drop_first() =~= s@.skip(lo + 1));
        lo = lo + 1;
    }
    proof {
        lemma_trim_start_keeps(s@.skip(lo as int));
    }
    let mut hi: usize = n;
    assert(s@.skip(lo as int) =~= s@.subrange(lo as int, hi as int));
    while hi > lo && is_white_space_char(s[hi - 1])
        invariant
            lo <= hi <= n,
            n == s@.len(),
            trim(s@) == trim_end(s@.subrange(lo as int, hi as int)),
        decreases hi,
    {
        assert(s@.subrange(lo as int, hi as int).drop_last() =~= s@.subrange(
            lo as int,
            hi - 1,
        ));
        hi = hi - 1;
    }
    let ghost t = s@.subrange(lo as int, hi as int);
    proof {
        lemma_trim_end_keeps(t);
    }
    let mut fields: Vec<Vec<char>> = Vec::new();
    let mut cur: Vec<char> = Vec::new();
    let mut i: usize = lo;
    assert(t.take(0) =~= Seq::<char>::empty());
    while i < hi
        invariant
            lo <= i <= hi <= n,
            n == s@.len(),
            t == s@.subrange(lo as int, hi as int),
            trim(s@) == t,
            fields@.map_values(|f: Vec<char>| f@).push(cur@) == split_dots(t.take(i - lo)),
        decreases hi - i,
    {
        let c = s[i];
        let ghost k = i - lo;
        let ghost before = split_dots(t.take(k));
        assert(t.take(k + 1).drop_last() =~= t.take(k));
        assert(t.take(k + 1).last() == c);
        proof {
            lemma_split_dots_len(t.take(k));
        }
        if c == '.' {
            let done = cur;
            cur = Vec::new();
            fields.push(done);
            assert(fields@.map_values(|f: Vec<char>| f@).push(cur@) =~= before.push(
                Seq::<char>::empty(),
            ));
        } else {
            cur.push(c);
            assert(fields@.map_values(|f: Vec<char>| f@).push(cur@) =~= before.update(
                before.len() - 1,
                before.last().push(c),
            ));
        }
        i = i + 1;
    }
    assert(t.take(hi - lo) =~= t);
    fields.push(cur);
    assert(fields@.map_values(|f: Vec<char>| f@) =~= split_dots(t));
    fields
}

/// Whether the characters of `f` are those of `word`.
pub fn chars_equal(f: &Vec<char>, word: &str) -> (r: bool)
    ensures
        r == (f@ == word@),
{
    let n = word.unicode_len();
    if f.len() != n {
        return false;
    }
    let mut i: usize = 0;
    while i < n
        invariant
            n == word@.len(),
            n == f@.len(),
            i <= n,
            forall|j: int| 0 <= j < i ==> f@[j] == word@[j],
        decreases n - i,
    {
        if f[i] != word.get_char(i) {
            return false;
        }
        i = i + 1;
    }
    assert(f@ =~= word@);
    true
}

} // verus!
