use vstd::prelude::*;
use vstd::string::*;

verus! {

/// Characters that open an annotation after the headword:
/// `laufen (v.)`, `Haus [n]`, `Abend, -e`.
pub open spec fn is_marker(c: char) -> bool {
    c == '(' || c == '[' || c == ','
}

pub open spec fn is_space(c: char) -> bool {
    c == ' ' || c == '\t' || c == '\n' || c == '\r'
}

/// Number of leading characters before the first annotation marker.
pub open spec fn cut_len(s: Seq<char>) -> nat
    decreases s.len(),
{
    if s.len() == 0 || is_marker(s[0]) {
        0
    } else {
        1 + cut_len(s.drop_first())
    }
}

pub open spec fn trim_start(s: Seq<char>) -> Seq<char>
    decreases s.len(),
{
    if s.len() > 0 && is_space(s[0]) {
        trim_start(s.drop_first())
    } else {
        s
    }
}

pub open spec fn trim_end(s: Seq<char>) -> Seq<char>
    decreases s.len(),
{
    if s.len() > 0 && is_space(s.last()) {
        trim_end(s.drop_last())
    } else {
        s
    }
}

/// The headword of a raw entry: the text before the first annotation
/// marker, without surrounding whitespace.
pub open spec fn headword(s: Seq<char>) -> Seq<char> {
    trim_end(trim_start(s.take(cut_len(s) as int)))
}

proof fn lemma_cut_len_step(s: Seq<char>, i: int)
    requires
        0 <= i < s.len(),
        !is_marker(s[i]),
    ensures
        cut_len(s.skip(i)) == 1 + cut_len(s.skip(i + 1)),
{
    assert(s.skip(i).drop_first() =~= s.skip(i + 1));
}

proof fn lemma_cut_len_bound(s: Seq<char>)
    ensures
        cut_len(s) <= s.len(),
        forall|j: int| 0 <= j < cut_len(s) ==> !is_marker(#[trigger] s[j]),
    decreases s.len(),
{
    if s.len() > 0 && !is_marker(s[0]) {
        lemma_cut_len_bound(s.drop_first());
        assert forall|j: int| 0 <= j < cut_len(s) implies !is_marker(#[trigger] s[j]) by {
            if j > 0 {
                assert(s[j] == s.drop_first()[j - 1]);
            }
        }
    }
}

proof fn lemma_cut_len_clean(s: Seq<char>)
    requires
        forall|j: int| 0 <= j < s.len() ==> !is_marker(#[trigger] s[j]),
    ensures
        cut_len(s) == s.len(),
    decreases s.len(),
{
    if s.len() > 0 {
        assert forall|j: int| 0 <= j < s.drop_first().len() implies !is_marker(
            #[trigger] s.drop_first()[j],
        ) by {
            assert(s.drop_first()[j] == s[j + 1]);
        }
        lemma_cut_len_clean(s.drop_first());
    }
}

proof fn lemma_trim_start_shape(s: Seq<char>)
    ensures
        trim_start(s).len() <= s.len(),
        trim_start(s) =~= s.skip(s.len() - trim_start(s).len()),
        trim_start(s).len() > 0 ==> !is_space(trim_start(s)[0]),
    decreases s.len(),
{
    if s.len() > 0 && is_space(s[0]) {
        lemma_trim_start_shape(s.drop_first());
    }
}

proof fn lemma_trim_end_shape(s: Seq<char>)
    ensures
        trim_end(s).len() <= s.len(),
        trim_end(s) =~= s.take(trim_end(s).len() as int),
        trim_end(s).len() > 0 ==> !is_space(trim_end(s).last()),
    decreases s.len(),
{
    if s.len() > 0 && is_space(s.last()) {
        lemma_trim_end_shape(s.drop_last());
    }
}

/// Normalizing an already normalized entry changes nothing.
pub proof fn lemma_headword_idempotent(s: Seq<char>)
    ensures
        headword(headword(s)) == headword(s),
{
    let p = s.take(cut_len(s) as int);
    let a = trim_start(p);
    let h = trim_end(a);
    lemma_cut_len_bound(s);
    lemma_trim_start_shape(p);
    lemma_trim_end_shape(a);
    assert forall|j: int| 0 <= j < h.len() implies !is_marker(#[trigger] h[j]) by {
        assert(h[j] == a[j]);
        assert(a[j] == p[p.len() - a.len() + j]);
    }
    lemma_cut_len_clean(h);
    assert(h.take(h.len() as int) =~= h);
    if h.len() > 0 {
        assert(h[0] == a[0]);
        assert(trim_start(h) == h);
    }
    assert(trim_start(h) == h);
    assert(trim_end(h) == h);
}

/// The headword of a raw vocabulary entry: what stands before the first
/// annotation marker (`(`, `[` or `,`), with surrounding whitespace removed.
pub fn normalize(raw: &str) -> (r: String)
    ensures
        r@ == headword(raw@),
{
    let n = raw.unicode_len();
    let mut k: usize = 0;
    proof {
        assert(raw@.skip(0) =~= raw@);
    }
    while k < n && !is_marker_char(raw.get_char(k))
        invariant
            n == raw@.len(),
            k <= n,
            cut_len(raw@) == k + cut_len(raw@.skip(k as int)),
        decreases n - k,
    {
        proof {
            lemma_cut_len_step(raw@, k as int);
        }
        k = k + 1;
    }
    proof {
        assert(cut_len(raw@.skip(k as int)) == 0);
    }
    let ghost p = raw@.take(k as int);
    let mut lo: usize = 0;
    proof {
        assert(raw@.subrange(0, k as int) =~= p);
    }
    while lo < k && is_space_char(raw.get_char(lo))
        invariant
            k <= n == raw@.len(),
            lo <= k,
            p == raw@.take(k as int),
            trim_start(p) == trim_start(raw@.subrange(lo as int, k as int)),
        decreases k - lo,
    {
        proof {
            let t = raw@.subrange(lo as int, k as int);
            assert(t.drop_first() =~= raw@.subrange(lo + 1, k as int));
        }
        lo = lo + 1;
    }
    proof {
        let t = raw@.subrange(lo as int, k as int);
        if lo == k {
            assert(raw@.subrange(lo as int, k as int).len() == 0);
        }
        assert(trim_start(t) == t);
    }
    let mut hi: usize = k;
    while hi > lo && is_space_char(raw.get_char(hi - 1))
        invariant
            k <= n == raw@.len(),
            lo <= hi <= k,
            trim_end(trim_start(p)) == trim_end(raw@.subrange(lo as int, hi as int)),
        decreases hi - lo,
    {
        proof {
            let t = raw@.subrange(lo as int, hi as int);
            assert(t.drop_last() =~= raw@.subrange(lo as int, hi - 1));
        }
        hi = hi - 1;
    }
    proof {
        let t = raw@.subrange(lo as int, hi as int);
        assert(trim_end(t) == t);
    }
    raw.substring_char(lo, hi).to_owned()
}

fn is_marker_char(c: char) -> (r: bool)
    ensures
        r == is_marker(c),
{
    c == '(' || c == '[' || c == ','
}

fn is_space_char(c: char) -> (r: bool)
    ensures
        r == is_space(c),
{
    c == ' ' || c == '\t' || c == '\n' || c == '\r'
}

} // verus!
