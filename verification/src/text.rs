//! Character-level text operations used by templates and configuration.

use vstd::prelude::*;
use vstd::string::*;

verus! {

/// `p` occurs in `s` starting at index `i`.
pub open spec fn occurs_at(s: Seq<char>, p: Seq<char>, i: int) -> bool {
    0 <= i && i + p.len() <= s.len() && s.subrange(i, i + p.len()) == p
}

/// `p` occurs somewhere in `s`.
pub open spec fn contains_text(s: Seq<char>, p: Seq<char>) -> bool {
    exists|i: int| occurs_at(s, p, i)
}

/// The characters of `s`, in order.
pub fn chars_of(s: &str) -> (v: Vec<char>)
    ensures
        v@ == s@,
{
    let mut v: Vec<char> = Vec::new();
    for c in it: s.chars()
        invariant
            v@ == it.seq().take(it.index()),
    {
        v.push(c);
    }
    v
}

/// `s` with every occurrence of `p` replaced by `r`, scanning left to right
/// and resuming after each replaced occurrence. An empty `p` occurs before
/// every character and at the end.
pub open spec fn replace_all(s: Seq<char>, p: Seq<char>, r: Seq<char>) -> Seq<char>
    decreases s.len(),
{
    if p.len() == 0 {
        if s.len() == 0 {
            r
        } else {
            r + seq![s[0]] + replace_all(s.drop_first(), p, r)
        }
    } else if s.len() < p.len() {
        s
    } else if s.subrange(0, p.len() as int) == p {
        r + replace_all(s.skip(p.len() as int), p, r)
    } else {
        seq![s[0]] + replace_all(s.drop_first(), p, r)
    }
}

/// Whether `p` occurs in `s` at index `i`.
fn occurs_at_exec(s: &Vec<char>, p: &Vec<char>, i: usize) -> (b: bool)
    requires
        i <= s.len(),
    ensures
        b == occurs_at(s@, p@, i as int),
{
    if p.len() > s.len() - i {
        return false;
    }
    let mut k: usize = 0;
    while k < p.len()
        invariant
            i + p.len() <= s.len(),
            k <= p.len(),
            forall|j: int| 0 <= j < k ==> s@[i + j] == p@[j],
        decreases p.len() - k,
    {
        if s[i + k] != p[k] {
            assert(s@.subrange(i as int, i + p.len())[k as int] != p@[k as int]);
            return false;
        }
        k = k + 1;
    }
    assert(s@.subrange(i as int, i + p.len()) =~= p@);
    true
}

/// Whether `p` occurs in `s`.
pub fn contains(s: &str, p: &str) -> (b: bool)
    ensures
        b == contains_text(s@, p@),
{
    let sv = chars_of(s);
    let pv = chars_of(p);
    if pv.len() > sv.len() {
        assert forall|i: int| !occurs_at(s@, p@, i) by {}
        return false;
    }
    if pv.len() == 0 {
        assert(occurs_at(s@, p@, 0)) by {
            assert(s@.subrange(0, 0) =~= p@);
        }
        return true;
    }
    let last = sv.len() - pv.len();
    let mut i: usize = 0;
    while i <= last
        invariant
            sv@ == s@,
            pv@ == p@,
            last == sv.len() - pv.len(),
            pv.len() > 0,
            i <= last + 1,
            forall|j: int| 0 <= j < i ==> !occurs_at(s@, p@, j),
        decreases last + 1 - i,
    {
        if occurs_at_exec(&sv, &pv, i) {
            return true;
        }
        i = i + 1;
    }
    assert forall|j: int| !occurs_at(s@, p@, j) by {}
    false
}


proof fn lemma_replace_unfold(s: Seq<char>, p: Seq<char>, r: Seq<char>, i: int)
    requires
        0 <= i <= s.len(),
    ensures
        p.len() == 0 && i == s.len() ==> replace_all(s.skip(i), p, r) == r,
        p.len() == 0 && i < s.len() ==> replace_all(s.skip(i), p, r) == r + seq![s[i]]
            + replace_all(s.skip(i + 1), p, r),
        p.len() > 0 && s.len() - i < p.len() ==> replace_all(s.skip(i), p, r) == s.skip(i),
        p.len() > 0 && occurs_at(s, p, i) ==> replace_all(s.skip(i), p, r) == r + replace_all(
            s.skip(i + p.len()),
            p,
            r,
        ),
        p.len() > 0 && i + p.len() <= s.len() && !occurs_at(s, p, i) ==> replace_all(
            s.skip(i),
            p,
            r,
        ) == seq![s[i]] + replace_all(s.skip(i + 1), p, r),
{
    let t = s.skip(i);
    if i < s.len() {
        assert(t.drop_first() =~= s.skip(i + 1));
        assert(t[0] == s[i]);
    }
    if i + p.len() <= s.len() {
        assert(t.subrange(0, p.len() as int) =~= s.subrange(i, i + p.len()));
        assert(t.skip(p.len() as int) =~= s.skip(i + p.len()));
    }
}

/// `s` with every occurrence of `p` replaced by `r` (the semantics of
/// `str::replace`).
pub fn replace_text(s: &str, p: &str, r: &str) -> (res: String)
    ensures
        res@ == replace_all(s@, p@, r@),
{
    let sv = chars_of(s);
    let pv = chars_of(p);
    let n = sv.len();
    let m = pv.len();
    let mut res = String::new();
    assert(s@.skip(0) =~= s@);
    if m == 0 {
        let mut i: usize = 0;
        while i < n
            invariant
                sv@ == s@,
                pv@ == p@,
                n == s@.len(),
                p@.len() == 0,
                i <= n,
                res@ + replace_all(s@.skip(i as int), p@, r@) == replace_all(s@, p@, r@),
            decreases n - i,
        {
            proof {
                lemma_replace_unfold(s@, p@, r@, i as int);
            }
            let ghost old_res = res@;
            let ghost old_i = i as int;
            res.append(r);
            let one = s.substring_char(i, i + 1);
            assert(one@ =~= seq![s@[i as int]]);
            res.append(one);
            i = i + 1;
            let ghost rest = replace_all(s@.skip(i as int), p@, r@);
            assert(res@ == old_res + r@ + seq![s@[old_i]]);
            assert(replace_all(s@.skip(old_i), p@, r@) == r@ + seq![s@[old_i]] + rest);
            assert(res@ + rest =~= old_res + (r@ + seq![s@[old_i]] + rest));
        }
        proof {
            lemma_replace_unfold(s@, p@, r@, i as int);
        }
        res.append(r);
        return res;
    }
    let mut start: usize = 0;
    let mut i: usize = 0;
    while i <= n && m <= n - i
        invariant
            sv@ == s@,
            pv@ == p@,
            n == s@.len(),
            m == p@.len(),
            m > 0,
            start <= i <= n,
            res@ + s@.subrange(start as int, i as int) + replace_all(s@.skip(i as int), p@, r@)
                == replace_all(s@, p@, r@),
        decreases n - i,
    {
        proof {
            lemma_replace_unfold(s@, p@, r@, i as int);
        }
        if occurs_at_exec(&sv, &pv, i) {
            let lit = s.substring_char(start, i);
            res.append(lit);
            res.append(r);
            i = i + m;
            start = i;
            assert(s@.subrange(start as int, i as int) =~= Seq::<char>::empty());
            assert(res@ + s@.subrange(start as int, i as int) + replace_all(
                s@.skip(i as int),
                p@,
                r@,
            ) =~= replace_all(s@, p@, r@));
        } else {
            let ghost old_i = i;
            i = i + 1;
            assert(s@.subrange(start as int, i as int) =~= s@.subrange(start as int, old_i as int)
                + seq![s@[old_i as int]]);
            assert(res@ + s@.subrange(start as int, i as int) + replace_all(
                s@.skip(i as int),
                p@,
                r@,
            ) =~= replace_all(s@, p@, r@));
        }
    }
    proof {
        lemma_replace_unfold(s@, p@, r@, i as int);
        assert(s@.subrange(start as int, i as int) + s@.skip(i as int) =~= s@.subrange(
            start as int,
            n as int,
        ));
    }
    let tail = s.substring_char(start, n);
    res.append(tail);
    res
}


/// Replacing a pattern by itself gives back the text.
pub proof fn lemma_replace_by_itself(s: Seq<char>, p: Seq<char>)
    ensures
        replace_all(s, p, p) == s,
    decreases s.len(),
{
    if p.len() == 0 {
        if s.len() == 0 {
            assert(p =~= s);
        } else {
            lemma_replace_by_itself(s.drop_first(), p);
            assert(p + seq![s[0]] + s.drop_first() =~= s);
        }
    } else if s.len() < p.len() {
    } else if s.subrange(0, p.len() as int) == p {
        lemma_replace_by_itself(s.skip(p.len() as int), p);
        assert(p + s.skip(p.len() as int) =~= s);
    } else {
        lemma_replace_by_itself(s.drop_first(), p);
        assert(seq![s[0]] + s.drop_first() =~= s);
    }
}

/// Dropping the first character keeps a text free of a pattern.
pub proof fn lemma_absent_drop_first(s: Seq<char>, p: Seq<char>)
    requires
        s.len() > 0,
        !contains_text(s, p),
    ensures
        !contains_text(s.drop_first(), p),
{
    assert forall|i: int| !occurs_at(s.drop_first(), p, i) by {
        if occurs_at(s.drop_first(), p, i) {
            assert(s.drop_first().subrange(i, i + p.len()) =~= s.subrange(i + 1, i + 1 + p.len()));
            assert(occurs_at(s, p, i + 1));
        }
    }
}

/// A text in which a non-empty pattern does not occur is left unchanged.
pub proof fn lemma_replace_absent(s: Seq<char>, p: Seq<char>, r: Seq<char>)
    requires
        p.len() > 0,
        !contains_text(s, p),
    ensures
        replace_all(s, p, r) == s,
    decreases s.len(),
{
    if s.len() < p.len() {
    } else {
        assert(!occurs_at(s, p, 0));
        lemma_absent_drop_first(s, p);
        lemma_replace_absent(s.drop_first(), p, r);
        assert(seq![s[0]] + s.drop_first() =~= s);
    }
}


/// Where the first character of a non-empty pattern occurs nowhere else in
/// it, the text before its first occurrence is kept, that occurrence is
/// replaced, and the rest of the text is treated the same way.
pub proof fn lemma_replace_first_occurrence(
    prefix: Seq<char>,
    p: Seq<char>,
    suffix: Seq<char>,
    r: Seq<char>,
)
    requires
        p.len() > 0,
        !contains_text(prefix, p),
        forall|k: int| 0 < k < p.len() ==> #[trigger] p[k] != p[0],
    ensures
        replace_all(prefix + p + suffix, p, r) == prefix + r + replace_all(suffix, p, r),
    decreases prefix.len(),
{
    let s = prefix + p + suffix;
    let m = p.len() as int;
    if prefix.len() == 0 {
        assert(s =~= p + suffix);
        assert(s.subrange(0, m) =~= p);
        assert(s.skip(m) =~= suffix);
        assert(prefix + r + replace_all(suffix, p, r) =~= r + replace_all(suffix, p, r));
    } else {
        if s.subrange(0, m) == p {
            if prefix.len() >= m {
                assert(prefix.subrange(0, m) =~= s.subrange(0, m));
                assert(occurs_at(prefix, p, 0));
            } else {
                let k = prefix.len() as int;
                assert(s[k] == p[0]);
                assert(s.subrange(0, m)[k] == s[k]);
            }
        }
        lemma_absent_drop_first(prefix, p);
        assert(s.drop_first() =~= prefix.drop_first() + p + suffix);
        lemma_replace_first_occurrence(prefix.drop_first(), p, suffix, r);
        assert(seq![s[0]] + (prefix.drop_first() + r + replace_all(suffix, p, r)) =~= prefix + r
            + replace_all(suffix, p, r));
    }
}

/// A text that starts with characters none of which is the first character
/// of a non-empty pattern keeps them, and the rest is treated the same way.
pub proof fn lemma_replace_after_free_prefix(a: Seq<char>, b: Seq<char>, p: Seq<char>, r: Seq<char>)
    requires
        p.len() > 0,
        forall|k: int| 0 <= k < a.len() ==> #[trigger] a[k] != p[0],
    ensures
        replace_all(a + b, p, r) == a + replace_all(b, p, r),
    decreases a.len(),
{
    let s = a + b;
    if a.len() == 0 {
        assert(s =~= b);
    } else if s.len() < p.len() {
        assert(a + b =~= s);
    } else {
        assert(s.subrange(0, p.len() as int)[0] == a[0]);
        assert(s.subrange(0, p.len() as int) != p);
        assert(s.drop_first() =~= a.drop_first() + b);
        assert forall|k: int| 0 <= k < a.drop_first().len() implies #[trigger] a.drop_first()[k]
            != p[0] by {
            assert(a.drop_first()[k] == a[k + 1]);
        }
        lemma_replace_after_free_prefix(a.drop_first(), b, p, r);
        assert(seq![s[0]] + (a.drop_first() + replace_all(b, p, r)) =~= a + replace_all(b, p, r));
    }
}

/// A text free of `q` is free of every pattern that starts with `q`.
pub proof fn lemma_absent_extension(s: Seq<char>, q: Seq<char>, p: Seq<char>)
    requires
        !contains_text(s, q),
        q.len() <= p.len(),
        p.subrange(0, q.len() as int) == q,
    ensures
        !contains_text(s, p),
{
    assert forall|i: int| !occurs_at(s, p, i) by {
        if occurs_at(s, p, i) {
            assert(s.subrange(i, i + q.len()) =~= s.subrange(i, i + p.len()).subrange(
                0,
                q.len() as int,
            ));
            assert(occurs_at(s, q, i));
        }
    }
}

/// The texts of `items` with `sep` between each two neighbours.
pub open spec fn joined(items: Seq<Seq<char>>, sep: Seq<char>) -> Seq<char>
    decreases items.len(),
{
    if items.len() == 0 {
        Seq::empty()
    } else if items.len() == 1 {
        items[0]
    } else {
        joined(items.drop_last(), sep) + sep + items.last()
    }
}

/// The texts of `items` joined with `sep` (the semantics of `[String]::join`).
pub fn join(items: &Vec<String>, sep: &str) -> (res: String)
    ensures
        res@ == joined(items@.map_values(|s: String| s@), sep@),
{
    let ghost views = items@.map_values(|s: String| s@);
    let mut res = String::new();
    let mut i: usize = 0;
    while i < items.len()
        invariant
            views == items@.map_values(|s: String| s@),
            i <= items.len(),
            res@ == joined(views.take(i as int), sep@),
        decreases items.len() - i,
    {
        assert(views.take(i + 1).drop_last() =~= views.take(i as int));
        assert(views.take(i + 1).last() == items@[i as int]@);
        if i > 0 {
            res.append(sep);
        } else {
            assert(res@ + items@[i as int]@ =~= items@[i as int]@);
        }
        res.append(items[i].as_str());
        i = i + 1;
    }
    assert(views.take(i as int) =~= views);
    res
}

} // verus!
