//! String helpers over character sequences.

use vstd::prelude::*;

verus! {

/// `p` occurs in `s` starting at position `i`.
pub open spec fn occurs_at(s: Seq<char>, p: Seq<char>, i: int) -> bool {
    0 <= i && i + p.len() <= s.len() && s.subrange(i, i + p.len()) == p
}

/// `p` occurs somewhere in `s` (the meaning of `str::contains` with a string pattern).
pub open spec fn seq_contains(s: Seq<char>, p: Seq<char>) -> bool {
    exists|i: int| occurs_at(s, p, i)
}

/// The characters of a string, as a vector.
pub fn chars_of(s: &str) -> (v: Vec<char>)
    ensures
        v@ == s@,
{
    let n = s.unicode_len();
    let mut v: Vec<char> = Vec::new();
    let mut i: usize = 0;
    while i < n
        invariant
            n == s@.len(),
            i <= n,
            v@ == s@.subrange(0, i as int),
        decreases n - i,
    {
        let c = s.get_char(i);
        v.push(c);
        i = i + 1;
    }
    v
}

/// Whether `p` occurs in `s` at position `i`.
pub fn occurs_at_exec(s: &Vec<char>, p: &Vec<char>, i: usize) -> (r: bool)
    ensures
        r == occurs_at(s@, p@, i as int),
{
    if i > s.len() || p.len() > s.len() - i {
        return false;
    }
    let mut j: usize = 0;
    while j < p.len()
        invariant
            i + p@.len() <= s@.len(),
            s@.len() <= usize::MAX,
            j <= p@.len(),
            forall|k: int| 0 <= k < j ==> s@[i + k] == p@[k],
        decreases p@.len() - j,
    {
        if s[i + j] != p[j] {
            assert(s@.subrange(i as int, i + p@.len())[j as int] != p@[j as int]);
            return false;
        }
        j = j + 1;
    }
    assert(s@.subrange(i as int, i + p@.len()) =~= p@);
    true
}

/// Whether `p` occurs anywhere in `s`.
pub fn vec_contains(s: &Vec<char>, p: &Vec<char>) -> (r: bool)
    ensures
        r == seq_contains(s@, p@),
{
    if p.len() == 0 {
        assert(s@.subrange(0, 0) =~= p@);
        assert(occurs_at(s@, p@, 0));
        return true;
    }
    let mut i: usize = 0;
    while i < s.len()
        invariant
            i <= s@.len(),
            p@.len() > 0,
            forall|k: int| 0 <= k < i ==> !occurs_at(s@, p@, k),
        decreases s@.len() - i,
    {
        if occurs_at_exec(s, p, i) {
            return true;
        }
        i = i + 1;
    }
    assert forall|k: int| !occurs_at(s@, p@, k) by {
        if 0 <= k < i {
        } else {
        }
    }
    false
}

/// `s.contains(p)` for a string pattern.
pub fn str_contains(s: &str, p: &str) -> (r: bool)
    ensures
        r == seq_contains(s@, p@),
{
    let sv = chars_of(s);
    let pv = chars_of(p);
    vec_contains(&sv, &pv)
}

/// String equality.
pub fn str_eq(a: &str, b: &str) -> (r: bool)
    ensures
        r == (a@ == b@),
{
    let av = chars_of(a);
    let bv = chars_of(b);
    if av.len() != bv.len() {
        return false;
    }
    let mut i: usize = 0;
    while i < av.len()
        invariant
            av@ == a@,
            bv@ == b@,
            av@.len() == bv@.len(),
            i <= av@.len(),
            forall|k: int| 0 <= k < i ==> av@[k] == bv@[k],
        decreases av@.len() - i,
    {
        if av[i] != bv[i] {
            assert(av@[i as int] != bv@[i as int]);
            return false;
        }
        i = i + 1;
    }
    assert(av@ =~= bv@);
    true
}

} // verus!

verus! {

/// The first position at or after `i` where `p` occurs in `s`.
pub open spec fn find_from(s: Seq<char>, p: Seq<char>, i: int) -> Option<int>
    decreases s.len() + 1 - i,
{
    if i < 0 || i + p.len() > s.len() {
        None
    } else if occurs_at(s, p, i) {
        Some(i)
    } else {
        find_from(s, p, i + 1)
    }
}

/// The last piece of `s` split at the non-overlapping occurrences of `p`,
/// searching from position `k` on.
pub open spec fn split_last_from(s: Seq<char>, p: Seq<char>, k: int) -> Seq<char>
    decreases s.len() - k,
{
    if p.len() == 0 || k < 0 || k > s.len() {
        s.subrange(if 0 <= k <= s.len() { k } else { 0 }, s.len() as int)
    } else {
        match find_from(s, p, k) {
            Some(i) => if i + p.len() > k && i + p.len() <= s.len() {
                split_last_from(s, p, i + p.len())
            } else {
                s.subrange(k, s.len() as int)
            },
            None => s.subrange(k, s.len() as int),
        }
    }
}

/// The last piece of `s.split(p)`.
pub open spec fn split_last(s: Seq<char>, p: Seq<char>) -> Seq<char> {
    split_last_from(s, p, 0)
}

/// `s` with every double quote removed.
pub open spec fn remove_quotes(s: Seq<char>) -> Seq<char>
    decreases s.len(),
{
    if s.len() == 0 {
        s
    } else {
        let rest = remove_quotes(s.drop_last());
        if s.last() != '"' {
            rest.push(s.last())
        } else {
            rest
        }
    }
}

/// A result of `find_from` lies in range and is an occurrence.
pub proof fn lemma_find_from(s: Seq<char>, p: Seq<char>, i: int)
    ensures
        match find_from(s, p, i) {
            Some(j) => i <= j && j + p.len() <= s.len() && occurs_at(s, p, j),
            None => true,
        },
    decreases s.len() + 1 - i,
{
    if i < 0 || i + p.len() > s.len() {
    } else if occurs_at(s, p, i) {
    } else {
        lemma_find_from(s, p, i + 1);
    }
}

/// The first occurrence of `p` in `s` at or after `i`.
pub fn find_from_exec(s: &Vec<char>, p: &Vec<char>, i: usize) -> (r: Option<usize>)
    ensures
        match r {
            Some(j) => find_from(s@, p@, i as int) == Some(j as int),
            None => find_from(s@, p@, i as int).is_none(),
        },
{
    if p.len() == 0 {
        if i <= s.len() {
            assert(s@.subrange(i as int, i as int) =~= p@);
            return Some(i);
        }
        return None;
    }
    let mut j = i;
    while j <= s.len() && p.len() <= s.len() - j
        invariant
            i <= j,
            p@.len() > 0,
            find_from(s@, p@, i as int) == find_from(s@, p@, j as int),
        decreases s@.len() + 1 - j,
    {
        if occurs_at_exec(s, p, j) {
            return Some(j);
        }
        j = j + 1;
    }
    None
}

/// The last piece of `s.split(p)`.
pub fn split_last_exec(s: &Vec<char>, p: &Vec<char>) -> (r: Vec<char>)
    ensures
        r@ == split_last(s@, p@),
{
    let mut k: usize = 0;
    let slen = s.len();
    if p.len() > 0 {
        loop
            invariant
                slen == s@.len(),
                p@.len() > 0,
                k <= s@.len(),
                split_last_from(s@, p@, k as int) == split_last(s@, p@),
            ensures
                k <= s@.len(),
                split_last_from(s@, p@, k as int) == split_last(s@, p@),
                split_last_from(s@, p@, k as int) == s@.subrange(k as int, s@.len() as int),
            decreases s@.len() - k,
        {
            proof {
                lemma_find_from(s@, p@, k as int);
            }
            match find_from_exec(s, p, k) {
                Some(i) => {
                    assert(i + p@.len() <= s@.len());
                    assert(s@.len() <= usize::MAX);
                    k = i + p.len();
                },
                None => {
                    assert(split_last_from(s@, p@, k as int) == s@.subrange(k as int, s@.len() as int));
                    break;
                },
            }
        }
    }
    let mut r: Vec<char> = Vec::new();
    let mut j = k;
    while j < s.len()
        invariant
            k <= j <= s@.len(),
            r@ == s@.subrange(k as int, j as int),
        decreases s@.len() - j,
    {
        r.push(s[j]);
        j = j + 1;
    }
    proof {
        if p@.len() == 0 {
            assert(split_last_from(s@, p@, 0) == s@.subrange(0, s@.len() as int));
        }
        assert(split_last_from(s@, p@, k as int) == s@.subrange(k as int, s@.len() as int));
    }
    r
}

/// A string with the given characters.
pub fn string_of_chars(v: &Vec<char>) -> (r: String)
    ensures
        r@ == v@,
{
    let mut r = String::new();
    let mut i: usize = 0;
    while i < v.len()
        invariant
            i <= v@.len(),
            r@ == v@.subrange(0, i as int),
        decreases v@.len() - i,
    {
        let c = v[i];
        let one = char_string(c);
        r.append(one.as_str());
        assert(v@.subrange(0, i + 1) =~= v@.subrange(0, i as int).push(c));
        i = i + 1;
    }
    assert(v@.subrange(0, v@.len() as int) =~= v@);
    r
}

/// `c.to_string()`: the string of one character.
#[verifier::external_body]
pub(crate) fn char_string(c: char) -> (r: String)
    ensures
        r@ == seq![c],
{
    c.to_string()
}

/// `s` with every double quote removed.
pub fn remove_quotes_exec(s: &str) -> (r: String)
    ensures
        r@ == remove_quotes(s@),
{
    let v = chars_of(s);
    let mut out: Vec<char> = Vec::new();
    let mut i: usize = 0;
    while i < v.len()
        invariant
            v@ == s@,
            i <= v@.len(),
            out@ == remove_quotes(v@.subrange(0, i as int)),
        decreases v@.len() - i,
    {
        let c = v[i];
        proof {
            let pre = v@.subrange(0, i as int);
            assert(v@.subrange(0, i + 1) =~= pre.push(c));
            assert(pre.push(c).drop_last() =~= pre);
        }
        if c != '"' {
            out.push(c);
        }
        i = i + 1;
    }
    assert(v@.subrange(0, v@.len() as int) =~= v@);
    string_of_chars(&out)
}

/// The last piece of `s.split(p)`.
pub fn split_last_str(s: &str, p: &str) -> (r: String)
    ensures
        r@ == split_last(s@, p@),
{
    let sv = chars_of(s);
    let pv = chars_of(p);
    let r = split_last_exec(&sv, &pv);
    string_of_chars(&r)
}

/// The parts joined, with `sep` between each two.
pub open spec fn join_with(parts: Seq<Seq<char>>, sep: Seq<char>) -> Seq<char>
    decreases parts.len(),
{
    if parts.len() == 0 {
        Seq::empty()
    } else if parts.len() == 1 {
        parts[0]
    } else {
        join_with(parts.drop_last(), sep) + sep + parts.last()
    }
}

/// The strings joined, with `sep` between each two.
pub fn join_strings(parts: &Vec<String>, sep: &str) -> (r: String)
    ensures
        r@ == join_with(parts@.map_values(|s: String| s@), sep@),
{
    let ghost views = parts@.map_values(|s: String| s@);
    let mut r = String::new();
    let mut i: usize = 0;
    while i < parts.len()
        invariant
            i <= parts@.len(),
            views == parts@.map_values(|s: String| s@),
            r@ == join_with(views.subrange(0, i as int), sep@),
        decreases parts@.len() - i,
    {
        assert(views.subrange(0, i + 1).drop_last() =~= views.subrange(0, i as int));
        if i > 0 {
            r.append(sep);
        } else {
            assert(r@ =~= Seq::<char>::empty());
        }
        r.append(parts[i].as_str());
        assert(views.subrange(0, i + 1).last() == parts@[i as int]@);
        i = i + 1;
    }
    assert(views.subrange(0, parts@.len() as int) =~= views);
    r
}

/// The first piece of `s.split(p)`: `s` up to the first occurrence of `p`.
pub open spec fn before_first(s: Seq<char>, p: Seq<char>) -> Seq<char> {
    match find_from(s, p, 0) {
        Some(i) => s.subrange(0, i),
        None => s,
    }
}

/// What follows the first occurrence of `p` in `s`, if it occurs.
pub open spec fn after_first(s: Seq<char>, p: Seq<char>) -> Option<Seq<char>> {
    match find_from(s, p, 0) {
        Some(i) => Some(s.subrange(i + p.len(), s.len() as int)),
        None => None,
    }
}

/// `s` up to the first occurrence of `p`, and what follows it if `p` occurs.
pub fn split_first(s: &str, p: &str) -> (r: (String, Option<String>))
    ensures
        r.0@ == before_first(s@, p@),
        match r.1 {
            Some(t) => after_first(s@, p@) == Some(t@),
            None => after_first(s@, p@).is_none(),
        },
{
    let sv = chars_of(s);
    let pv = chars_of(p);
    match find_from_exec(&sv, &pv, 0) {
        Some(i) => {
            proof {
                lemma_find_from(sv@, pv@, 0);
            }
            let mut head: Vec<char> = Vec::new();
            let mut k: usize = 0;
            while k < i
                invariant
                    i + pv@.len() <= sv@.len(),
                    pv@ == p@,
                    k <= i,
                    head@ == sv@.subrange(0, k as int),
                decreases i - k,
            {
                head.push(sv[k]);
                assert(head@ =~= sv@.subrange(0, k + 1));
                k = k + 1;
            }
            let mut tail: Vec<char> = Vec::new();
            let sl = sv.len();
            let pl = pv.len();
            assert(i + pl <= sl);
            let mut m: usize = i + pl;
            let start = m;
            while m < sv.len()
                invariant
                    start <= m <= sv@.len(),
                    tail@ == sv@.subrange(start as int, m as int),
                decreases sv@.len() - m,
            {
                tail.push(sv[m]);
                assert(tail@ =~= sv@.subrange(start as int, m + 1));
                m = m + 1;
            }
            (string_of_chars(&head), Some(string_of_chars(&tail)))
        },
        None => (string_of_chars(&sv), None),
    }
}

} // verus!
