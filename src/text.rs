//! Character-level text utilities: substring search, trimming, backtick
//! removal and line splitting, each stated over `Seq<char>`.
use vstd::prelude::*;
use vstd::std_specs::iter::IteratorSpec;

verus! {

/// `p` occurs in `s` starting at index `i`.
pub open spec fn occurs_at(s: Seq<char>, p: Seq<char>, i: int) -> bool {
    0 <= i && i + p.len() <= s.len() && s.subrange(i, i + p.len()) == p
}

/// `p` occurs somewhere in `s`.
pub open spec fn contains(s: Seq<char>, p: Seq<char>) -> bool {
    exists|i: int| occurs_at(s, p, i)
}

/// Index of the first occurrence of `p` in `s`, or -1 when there is none.
pub open spec fn index_of(s: Seq<char>, p: Seq<char>) -> int
    decreases s.len(),
{
    if p.len() > s.len() {
        -1
    } else if s.subrange(0, p.len() as int) =~= p {
        0
    } else if s.len() == 0 {
        -1
    } else {
        let r = index_of(s.drop_first(), p);
        if r < 0 {
            -1
        } else {
            r + 1
        }
    }
}

/// The text that follows the first occurrence of `p` in `s`.
pub open spec fn after_first(s: Seq<char>, p: Seq<char>) -> Seq<char> {
    s.subrange(index_of(s, p) + p.len(), s.len() as int)
}

proof fn lemma_occurs_shift(s: Seq<char>, p: Seq<char>, j: int)
    requires
        s.len() > 0,
        0 <= j,
    ensures
        occurs_at(s.drop_first(), p, j) == occurs_at(s, p, j + 1),
{
    if j + 1 + p.len() <= s.len() {
        assert(s.drop_first().subrange(j, j + p.len()) =~= s.subrange(j + 1, j + 1 + p.len()));
    }
}

/// `index_of` finds the first occurrence, and finds one exactly when `p` occurs.
pub proof fn lemma_index_of(s: Seq<char>, p: Seq<char>)
    ensures
        index_of(s, p) >= 0 <==> contains(s, p),
        index_of(s, p) >= 0 ==> occurs_at(s, p, index_of(s, p)),
        index_of(s, p) >= 0 ==> forall|j: int| 0 <= j < index_of(s, p) ==> !occurs_at(s, p, j),
        index_of(s, p) < 0 ==> index_of(s, p) == -1,
    decreases s.len(),
{
    if p.len() > s.len() {
        assert forall|i: int| !occurs_at(s, p, i) by {}
    } else if s.subrange(0, p.len() as int) =~= p {
        assert(occurs_at(s, p, 0));
    } else if s.len() == 0 {
        assert forall|i: int| !occurs_at(s, p, i) by {
            if occurs_at(s, p, i) {
                assert(i == 0);
            }
        }
    } else {
        lemma_index_of(s.drop_first(), p);
        let r = index_of(s.drop_first(), p);
        assert(!occurs_at(s, p, 0));
        if r >= 0 {
            lemma_occurs_shift(s, p, r);
            assert forall|j: int| 0 <= j < r + 1 implies !occurs_at(s, p, j) by {
                if j > 0 {
                    lemma_occurs_shift(s, p, j - 1);
                }
            }
        } else {
            assert forall|i: int| !occurs_at(s, p, i) by {
                if occurs_at(s, p, i) && i > 0 {
                    lemma_occurs_shift(s, p, i - 1);
                    assert(contains(s.drop_first(), p));
                }
            }
        }
    }
}

/// A first occurrence, once found, is what `index_of` names.
pub proof fn lemma_index_of_first(s: Seq<char>, p: Seq<char>, k: int)
    requires
        occurs_at(s, p, k),
        forall|j: int| 0 <= j < k ==> !occurs_at(s, p, j),
    ensures
        index_of(s, p) == k,
{
    lemma_index_of(s, p);
    let m = index_of(s, p);
    assert(m >= 0);
    if m < k {
        assert(!occurs_at(s, p, m));
    }
}

/// Whether `p` occurs in `s` at index `i`.
fn occurs_here(s: &Vec<char>, p: &Vec<char>, i: usize) -> (r: bool)
    requires
        i + p@.len() <= s@.len(),
    ensures
        r == occurs_at(s@, p@, i as int),
{
    let n = s.len();
    let mut j: usize = 0;
    while j < p.len()
        invariant
            n == s@.len(),
            j <= p@.len(),
            i + p@.len() <= s@.len(),
            forall|t: int| 0 <= t < j ==> s@[i + t] == p@[t],
        decreases p@.len() - j,
    {
        if s[i + j] != p[j] {
            assert(s@.subrange(i as int, i + p@.len())[j as int] != p@[j as int]);
            return false;
        }
        j = j + 1;
    }
    assert(s@.subrange(i as int, i + p@.len()) =~= p@);
    true
}

/// Index of the first occurrence of `p` in `s`, if any.
pub fn find(s: &Vec<char>, p: &Vec<char>) -> (r: Option<usize>)
    ensures
        match r {
            Some(k) => k == index_of(s@, p@) && occurs_at(s@, p@, k as int),
            None => index_of(s@, p@) < 0 && !contains(s@, p@),
        },
{
    proof {
        lemma_index_of(s@, p@);
    }
    if p.len() > s.len() {
        return None;
    }
    if p.len() == 0 {
        proof {
            lemma_index_of_first(s@, p@, 0);
        }
        return Some(0);
    }
    let n = s.len();
    let last = n - p.len();
    let mut i: usize = 0;
    while i <= last
        invariant
            n == s@.len(),
            last == s@.len() - p@.len(),
            p@.len() >= 1,
            forall|j: int| 0 <= j < i ==> !occurs_at(s@, p@, j),
        decreases last + 1 - i,
    {
        if occurs_here(s, p, i) {
            proof {
                lemma_index_of_first(s@, p@, i as int);
            }
            return Some(i);
        }
        i = i + 1;
    }
    assert forall|j: int| !occurs_at(s@, p@, j) by {
        if occurs_at(s@, p@, j) {
            assert(j < i);
        }
    }
    None
}

/// The views of a sequence of strings.
pub open spec fn texts(ss: Seq<String>) -> Seq<Seq<char>> {
    ss.map_values(|s: String| s@)
}

/// Unicode white space, as `char::is_whitespace` classifies it.
pub open spec fn is_space(c: char) -> bool {
    let u = c as u32;
    (0x9 <= u && u <= 0xD) || u == 0x20 || u == 0x85 || u == 0xA0 || u == 0x1680 || (0x2000 <= u
        && u <= 0x200A) || u == 0x2028 || u == 0x2029 || u == 0x202F || u == 0x205F || u == 0x3000
}

/// Whether `c` is removed by trimming: white space, and backticks as well when `ticks` holds.
pub open spec fn strippable(c: char, ticks: bool) -> bool {
    is_space(c) || (ticks && c == '`')
}

/// `s` without its leading strippable characters.
pub open spec fn trim_start_with(s: Seq<char>, ticks: bool) -> Seq<char>
    decreases s.len(),
{
    if s.len() > 0 && strippable(s[0], ticks) {
        trim_start_with(s.drop_first(), ticks)
    } else {
        s
    }
}

/// `s` without its trailing strippable characters.
pub open spec fn trim_end_with(s: Seq<char>, ticks: bool) -> Seq<char>
    decreases s.len(),
{
    if s.len() > 0 && strippable(s.last(), ticks) {
        trim_end_with(s.drop_last(), ticks)
    } else {
        s
    }
}

/// `s` without strippable characters at either end.
pub open spec fn trim_with(s: Seq<char>, ticks: bool) -> Seq<char> {
    trim_end_with(trim_start_with(s, ticks), ticks)
}

/// `s` without white space at either end.
pub open spec fn trim(s: Seq<char>) -> Seq<char> {
    trim_with(s, false)
}

/// `s` with every backtick removed.
pub open spec fn without_ticks(s: Seq<char>) -> Seq<char>
    decreases s.len(),
{
    if s.len() == 0 {
        s
    } else if s.last() == '`' {
        without_ticks(s.drop_last())
    } else {
        without_ticks(s.drop_last()).push(s.last())
    }
}

/// `s` holds no backtick.
pub open spec fn tick_free(s: Seq<char>) -> bool {
    forall|i: int| 0 <= i < s.len() ==> s[i] != '`'
}

proof fn lemma_without_ticks_concat(a: Seq<char>, b: Seq<char>)
    ensures
        without_ticks(a + b) == without_ticks(a) + without_ticks(b),
    decreases b.len(),
{
    if b.len() == 0 {
        assert(a + b =~= a);
        assert(without_ticks(a) + without_ticks(b) =~= without_ticks(a));
    } else {
        assert((a + b).drop_last() =~= a + b.drop_last());
        assert((a + b).last() == b.last());
        lemma_without_ticks_concat(a, b.drop_last());
        if b.last() != '`' {
            assert(without_ticks(a) + without_ticks(b.drop_last()).push(b.last()) =~= (
            without_ticks(a) + without_ticks(b.drop_last())).push(b.last()));
        }
    }
}

proof fn lemma_without_ticks_tick_free(p: Seq<char>)
    requires
        tick_free(p),
    ensures
        without_ticks(p) == p,
    decreases p.len(),
{
    if p.len() > 0 {
        lemma_without_ticks_tick_free(p.drop_last());
        assert(p.drop_last().push(p.last()) =~= p);
    } else {
        assert(p =~= Seq::<char>::empty());
    }
}

/// Removing backticks keeps every occurrence of a pattern free of them.
pub proof fn lemma_without_ticks_keeps(s: Seq<char>, p: Seq<char>)
    requires
        tick_free(p),
        contains(s, p),
    ensures
        contains(without_ticks(s), p),
{
    let i = choose|i: int| occurs_at(s, p, i);
    let pre = s.subrange(0, i);
    let post = s.subrange(i + p.len(), s.len() as int);
    assert(s =~= pre + p + post);
    lemma_without_ticks_concat(pre + p, post);
    lemma_without_ticks_concat(pre, p);
    lemma_without_ticks_tick_free(p);
    let w = without_ticks(s);
    let k = without_ticks(pre).len() as int;
    assert(w.subrange(k, k + p.len()) =~= p);
    assert(occurs_at(w, p, k));
}

/// Trimming white space keeps every occurrence of a pattern that neither
/// starts nor ends with white space.
pub proof fn lemma_trim_keeps(s: Seq<char>, p: Seq<char>)
    requires
        p.len() > 0,
        !is_space(p[0]),
        !is_space(p.last()),
        contains(s, p),
    ensures
        contains(trim(s), p),
{
    lemma_trim_start_keeps(s, p);
    lemma_trim_end_keeps(trim_start_with(s, false), p);
}

proof fn lemma_trim_start_keeps(s: Seq<char>, p: Seq<char>)
    requires
        p.len() > 0,
        !is_space(p[0]),
        contains(s, p),
    ensures
        contains(trim_start_with(s, false), p),
    decreases s.len(),
{
    if s.len() > 0 && strippable(s[0], false) {
        let i = choose|i: int| occurs_at(s, p, i);
        assert(s.subrange(i, i + p.len())[0] == s[i]);
        assert(i >= 1);
        lemma_occurs_shift(s, p, i - 1);
        lemma_trim_start_keeps(s.drop_first(), p);
    }
}

proof fn lemma_trim_end_keeps(s: Seq<char>, p: Seq<char>)
    requires
        p.len() > 0,
        !is_space(p.last()),
        contains(s, p),
    ensures
        contains(trim_end_with(s, false), p),
    decreases s.len(),
{
    if s.len() > 0 && strippable(s.last(), false) {
        let i = choose|i: int| occurs_at(s, p, i);
        assert(s.subrange(i, i + p.len())[p.len() - 1] == s[i + p.len() - 1]);
        assert(i + p.len() < s.len());
        assert(s.drop_last().subrange(i, i + p.len()) =~= s.subrange(i, i + p.len()));
        assert(occurs_at(s.drop_last(), p, i));
        lemma_trim_end_keeps(s.drop_last(), p);
    }
}

/// Whether `c` is white space.
pub fn is_space_char(c: char) -> (r: bool)
    ensures
        r == is_space(c),
{
    let u = c as u32;
    (0x9 <= u && u <= 0xD) || u == 0x20 || u == 0x85 || u == 0xA0 || u == 0x1680 || (0x2000 <= u
        && u <= 0x200A) || u == 0x2028 || u == 0x2029 || u == 0x202F || u == 0x205F || u == 0x3000
}

fn is_strippable(c: char, ticks: bool) -> (r: bool)
    ensures
        r == strippable(c, ticks),
{
    is_space_char(c) || (ticks && c == '`')
}

/// The characters of `s` from index `lo` up to `hi`.
pub fn slice(s: &Vec<char>, lo: usize, hi: usize) -> (r: Vec<char>)
    requires
        lo <= hi <= s@.len(),
    ensures
        r@ == s@.subrange(lo as int, hi as int),
{
    let mut r: Vec<char> = Vec::new();
    let mut i: usize = lo;
    while i < hi
        invariant
            lo <= i <= hi <= s@.len(),
            r@ == s@.subrange(lo as int, i as int),
        decreases hi - i,
    {
        r.push(s[i]);
        assert(r@ =~= s@.subrange(lo as int, i + 1));
        i = i + 1;
    }
    r
}

/// `s` without strippable characters at either end.
pub fn trimmed(s: &Vec<char>, ticks: bool) -> (r: Vec<char>)
    ensures
        r@ == trim_with(s@, ticks),
{
    let n = s.len();
    let mut lo: usize = 0;
    assert(s@.subrange(0, n as int) =~= s@);
    while lo < n && is_strippable(s[lo], ticks)
        invariant
            lo <= n == s@.len(),
            trim_start_with(s@.subrange(lo as int, n as int), ticks) == trim_start_with(s@, ticks),
        decreases n - lo,
    {
        assert(s@.subrange(lo as int, n as int).drop_first() =~= s@.subrange(lo + 1, n as int));
        lo = lo + 1;
    }
    assert(trim_start_with(s@, ticks) == s@.subrange(lo as int, n as int));
    let mut hi: usize = n;
    while hi > lo && is_strippable(s[hi - 1], ticks)
        invariant
            lo <= hi <= n == s@.len(),
            trim_end_with(s@.subrange(lo as int, hi as int), ticks) == trim_with(s@, ticks),
        decreases hi,
    {
        assert(s@.subrange(lo as int, hi as int).drop_last() =~= s@.subrange(lo as int, hi - 1));
        hi = hi - 1;
    }
    slice(s, lo, hi)
}

/// `s` with every backtick removed.
pub fn drop_ticks(s: &Vec<char>) -> (r: Vec<char>)
    ensures
        r@ == without_ticks(s@),
{
    let mut r: Vec<char> = Vec::new();
    let mut i: usize = 0;
    while i < s.len()
        invariant
            i <= s@.len(),
            r@ == without_ticks(s@.take(i as int)),
        decreases s@.len() - i,
    {
        assert(s@.take(i + 1).drop_last() =~= s@.take(i as int));
        if s[i] != '`' {
            r.push(s[i]);
        }
        i = i + 1;
    }
    assert(s@.take(i as int) =~= s@);
    r
}

/// The characters of `s`, in order.
pub fn chars_of(s: &str) -> (r: Vec<char>)
    ensures
        r@ == s@,
{
    let mut it = s.chars();
    let mut r: Vec<char> = Vec::new();
    loop
        invariant
            r@ + it.remaining() == s@,
            it.decrease() is Some,
        ensures
            r@ == s@,
        decreases it.decrease()->0,
    {
        match it.next() {
            Some(c) => {
                r.push(c);
            },
            None => {
                assert(r@ + it.remaining() =~= r@);
                break ;
            },
        }
    }
    r
}

/// Relies on `String::push`: the character is added at the end.
#[verifier::external_body]
fn push_char(s: &mut String, c: char)
    ensures
        final(s)@ == old(s)@.push(c),
{
    s.push(c);
}

/// Relies on `String::push_str`: the text is added at the end.
#[verifier::external_body]
pub(crate) fn push_text(s: &mut String, t: &str)
    ensures
        final(s)@ == old(s)@ + t@,
{
    s.push_str(t);
}

/// The string made of the characters of `v`.
pub fn text_of(v: &Vec<char>) -> (r: String)
    ensures
        r@ == v@,
{
    let mut r = String::new();
    let mut i: usize = 0;
    while i < v.len()
        invariant
            i <= v@.len(),
            r@ == v@.take(i as int),
        decreases v@.len() - i,
    {
        push_char(&mut r, v[i]);
        assert(r@ =~= v@.take(i + 1));
        i = i + 1;
    }
    assert(v@.take(i as int) =~= v@);
    r
}

} // verus!
