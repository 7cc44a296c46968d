//! Whether a dependency of the analysed project is at least a given
//! version, as the project's `Cargo.lock` records it.

use vstd::prelude::*;
use crate::strs::{chars_of, seq_contains, str_contains, string_of_chars};

verus! {

/// A package of a lock file: its name and version.
pub struct LockPackage {
    pub name: String,
    pub major: u64,
    pub minor: u64,
    pub patch: u64,
}

/// The value of a string of decimal digits (0 for none).
pub open spec fn digits_value(s: Seq<char>) -> int
    decreases s.len(),
{
    if s.len() == 0 {
        0
    } else {
        digits_value(s.drop_last()) * 10 + (s.last() as int - '0' as int)
    }
}

/// Whether every character is a decimal digit.
pub open spec fn all_digits(s: Seq<char>) -> bool {
    forall|i: int| 0 <= i < s.len() ==> '0' <= #[trigger] s[i] <= '9'
}

/// How `u64::from_str` reads a string: an optional `+`, then at least one
/// decimal digit, with a value that fits in `u64`.
pub open spec fn parse_u64_spec(s: Seq<char>) -> Option<u64> {
    let d = if s.len() > 0 && s[0] == '+' { s.subrange(1, s.len() as int) } else { s };
    if d.len() > 0 && all_digits(d) && digits_value(d) <= u64::MAX {
        Some(digits_value(d) as u64)
    } else {
        None
    }
}

proof fn lemma_digits_value_nonneg(s: Seq<char>)
    requires
        all_digits(s),
    ensures
        digits_value(s) >= 0,
    decreases s.len(),
{
    if s.len() > 0 {
        assert(all_digits(s.drop_last()));
        lemma_digits_value_nonneg(s.drop_last());
    }
}

proof fn lemma_digits_value_grows(s: Seq<char>)
    requires
        all_digits(s),
        s.len() > 0,
    ensures
        digits_value(s) >= digits_value(s.drop_last()),
{
    assert(all_digits(s.drop_last()));
    lemma_digits_value_nonneg(s.drop_last());
}

/// Reads a `u64` as `str::parse::<u64>` does (see `parse_u64_spec`).
pub fn parse_u64(s: &Vec<char>) -> (r: Option<u64>)
    ensures
        r == parse_u64_spec(s@),
{
    let start: usize = if s.len() > 0 && s[0] == '+' { 1 } else { 0 };
    let ghost d = if s@.len() > 0 && s@[0] == '+' { s@.subrange(1, s@.len() as int) } else { s@ };
    assert(d =~= s@.subrange(start as int, s@.len() as int));
    if start >= s.len() {
        return None;
    }
    let mut v: u64 = 0;
    let mut i: usize = start;
    while i < s.len()
        invariant
            start <= i <= s@.len(),
            d == s@.subrange(start as int, s@.len() as int),
            d == (if s@.len() > 0 && s@[0] == '+' { s@.subrange(1, s@.len() as int) } else { s@ }),
            all_digits(s@.subrange(start as int, i as int)),
            v == digits_value(s@.subrange(start as int, i as int)),
        decreases s@.len() - i,
    {
        let c = s[i];
        let ghost pre = s@.subrange(start as int, i as int);
        assert(s@.subrange(start as int, i + 1) =~= pre.push(c));
        if c < '0' || c > '9' {
            assert(!all_digits(d)) by {
                assert(d[i - start] == c);
            }
            return None;
        }
        let digit = (c as u32 - '0' as u32) as u64;
        assert(all_digits(pre.push(c)));
        assert(pre.push(c).drop_last() =~= pre);
        assert(digit == c as int - '0' as int);
        if v > (u64::MAX - digit) / 10 {
            proof {
                assert(digits_value(pre.push(c)) == v * 10 + digit);
                assert(v * 10 + digit > u64::MAX) by (nonlinear_arith)
                    requires
                        v > (u64::MAX - digit) / 10,
                        digit <= 9,
                ;
                lemma_suffix_grows(s@, start as int, i + 1);
            }
            return None;
        }
        v = v * 10 + digit;
        i = i + 1;
    }
    assert(s@.subrange(start as int, s@.len() as int) =~= d);
    Some(v)
}

proof fn lemma_suffix_grows(s: Seq<char>, start: int, k: int)
    requires
        0 <= start <= k <= s.len(),
        all_digits(s.subrange(start, k)),
    ensures
        all_digits(s.subrange(start, s.len() as int)) ==> digits_value(s.subrange(start, s.len() as int)) >= digits_value(
            s.subrange(start, k),
        ),
    decreases s.len() - k,
{
    if k < s.len() && all_digits(s.subrange(start, s.len() as int)) {
        assert(all_digits(s.subrange(start, k + 1))) by {
            assert forall|i: int| 0 <= i < k + 1 - start implies '0' <= #[trigger] s.subrange(start, k + 1)[i] <= '9' by {
                assert(s.subrange(start, k + 1)[i] == s.subrange(start, s.len() as int)[i]);
            }
        }
        lemma_suffix_grows(s, start, k + 1);
        assert(s.subrange(start, k + 1).drop_last() =~= s.subrange(start, k));
        lemma_digits_value_grows(s.subrange(start, k + 1));
    }
}

/// The pieces of `s` between the dots.
pub open spec fn split_dots(s: Seq<char>) -> Seq<Seq<char>>
    decreases s.len(),
{
    if s.len() == 0 {
        seq![Seq::empty()]
    } else {
        let rest = split_dots(s.drop_last());
        if s.last() == '.' {
            rest.push(Seq::empty())
        } else {
            rest.update(rest.len() - 1, rest.last().push(s.last()))
        }
    }
}

proof fn lemma_split_dots_nonempty(s: Seq<char>)
    ensures
        split_dots(s).len() >= 1,
    decreases s.len(),
{
    if s.len() > 0 {
        lemma_split_dots_nonempty(s.drop_last());
    }
}

/// A version `major.minor.patch`, as `check_version` reads its target: three
/// pieces between dots, each a `u64`.
pub open spec fn parse_version_spec(s: Seq<char>) -> Option<(u64, u64, u64)> {
    let p = split_dots(s);
    if p.len() == 3 {
        match (parse_u64_spec(p[0]), parse_u64_spec(p[1]), parse_u64_spec(p[2])) {
            (Some(a), Some(b), Some(c)) => Some((a, b, c)),
            _ => None,
        }
    } else {
        None
    }
}

/// Splits a string at its dots.
fn split_dots_exec(s: &str) -> (r: Vec<Vec<char>>)
    ensures
        r@.map_values(|p: Vec<char>| p@) == split_dots(s@),
{
    let v = chars_of(s);
    let mut r: Vec<Vec<char>> = Vec::new();
    r.push(Vec::new());
    let mut i: usize = 0;
    assert(r@.map_values(|p: Vec<char>| p@) =~= split_dots(v@.subrange(0, 0)));
    while i < v.len()
        invariant
            v@ == s@,
            i <= v@.len(),
            r@.len() >= 1,
            r@.map_values(|p: Vec<char>| p@) == split_dots(v@.subrange(0, i as int)),
        decreases v@.len() - i,
    {
        let c = v[i];
        let ghost before = r@.map_values(|p: Vec<char>| p@);
        assert(v@.subrange(0, i + 1).drop_last() =~= v@.subrange(0, i as int));
        if c == '.' {
            r.push(Vec::new());
            assert(r@.map_values(|p: Vec<char>| p@) =~= before.push(Seq::empty()));
        } else {
            let last = r.len() - 1;
            let mut piece = r.remove(last);
            piece.push(c);
            r.push(piece);
            assert(r@.map_values(|p: Vec<char>| p@) =~= before.update(before.len() - 1, before.last().push(c)));
        }
        i = i + 1;
    }
    assert(v@.subrange(0, v@.len() as int) =~= v@);
    r
}

/// Reads a version `major.minor.patch`.
pub fn parse_version(s: &str) -> (r: Option<(u64, u64, u64)>)
    ensures
        r == parse_version_spec(s@),
{
    let p = split_dots_exec(s);
    if p.len() != 3 {
        return None;
    }
    let a = parse_u64(&p[0]);
    let b = parse_u64(&p[1]);
    let c = parse_u64(&p[2]);
    assert(p@[0]@ == split_dots(s@)[0]);
    assert(p@[1]@ == split_dots(s@)[1]);
    assert(p@[2]@ == split_dots(s@)[2]);
    match (a, b, c) {
        (Some(a), Some(b), Some(c)) => Some((a, b, c)),
        _ => None,
    }
}

/// Whether version `(major, minor, patch)` is at least the target.
pub open spec fn at_least(major: u64, minor: u64, patch: u64, t: (u64, u64, u64)) -> bool {
    major > t.0 || (major == t.0 && minor > t.1) || (major == t.0 && minor == t.1 && patch >= t.2)
}

/// What a lock file says of the crate: the first package whose name holds
/// `crate_name` decides whether its version is at least the target; a lock
/// file without such a package says nothing.
pub open spec fn lockfile_answer(pkgs: Seq<LockPackage>, crate_name: Seq<char>, t: (u64, u64, u64)) -> Option<bool>
    decreases pkgs.len(),
{
    if pkgs.len() == 0 {
        None
    } else if seq_contains(pkgs[0].name@, crate_name) {
        Some(at_least(pkgs[0].major, pkgs[0].minor, pkgs[0].patch, t))
    } else {
        lockfile_answer(pkgs.subrange(1, pkgs.len() as int), crate_name, t)
    }
}

/// What a lock file says of the crate (see `lockfile_answer`).
pub fn check_lockfile(pkgs: &Vec<LockPackage>, crate_name: &str, target: (u64, u64, u64)) -> (r: Option<bool>)
    ensures
        r == lockfile_answer(pkgs@, crate_name@, target),
{
    let mut i: usize = 0;
    assert(pkgs@.subrange(0, pkgs@.len() as int) =~= pkgs@);
    while i < pkgs.len()
        invariant
            i <= pkgs@.len(),
            lockfile_answer(pkgs@, crate_name@, target) == lockfile_answer(
                pkgs@.subrange(i as int, pkgs@.len() as int),
                crate_name@,
                target,
            ),
        decreases pkgs@.len() - i,
    {
        let p = &pkgs[i];
        let ghost rest = pkgs@.subrange(i as int, pkgs@.len() as int);
        assert(rest[0] == pkgs@[i as int]);
        assert(rest.subrange(1, rest.len() as int) =~= pkgs@.subrange(i + 1, pkgs@.len() as int));
        if str_contains(p.name.as_str(), crate_name) {
            return Some(
                p.major > target.0 || (p.major == target.0 && p.minor > target.1) || (p.major == target.0
                    && p.minor == target.1 && p.patch >= target.2),
            );
        }
        i = i + 1;
    }
    None
}

/// The answer of the first lock file, in order, that says something of the
/// crate; true when none does. A candidate that does not exist is `None`.
pub open spec fn version_answer(lockfiles: Seq<Option<Vec<LockPackage>>>, crate_name: Seq<char>, t: (u64, u64, u64)) -> bool
    decreases lockfiles.len(),
{
    if lockfiles.len() == 0 {
        true
    } else {
        match lockfiles[0] {
            Some(pkgs) => match lockfile_answer(pkgs@, crate_name, t) {
                Some(b) => b,
                None => version_answer(lockfiles.subrange(1, lockfiles.len() as int), crate_name, t),
            },
            None => version_answer(lockfiles.subrange(1, lockfiles.len() as int), crate_name, t),
        }
    }
}

/// Whether the crate is at least `target_version` in the lock files of the
/// candidate paths (see `lock_candidates`), in order (see
/// `version_answer`). The target must be a version `major.minor.patch`.
pub fn check_version(crate_name: &str, target_version: &str, lockfiles: &Vec<Option<Vec<LockPackage>>>) -> (r: bool)
    requires
        parse_version_spec(target_version@) is Some,
    ensures
        r == version_answer(lockfiles@, crate_name@, parse_version_spec(target_version@)->0),
{
    let target = match parse_version(target_version) {
        Some(t) => t,
        None => {
            return true;
        },
    };
    let mut i: usize = 0;
    assert(lockfiles@.subrange(0, lockfiles@.len() as int) =~= lockfiles@);
    while i < lockfiles.len()
        invariant
            i <= lockfiles@.len(),
            target == parse_version_spec(target_version@)->0,
            version_answer(lockfiles@, crate_name@, target) == version_answer(
                lockfiles@.subrange(i as int, lockfiles@.len() as int),
                crate_name@,
                target,
            ),
        decreases lockfiles@.len() - i,
    {
        let ghost rest = lockfiles@.subrange(i as int, lockfiles@.len() as int);
        assert(rest[0] == lockfiles@[i as int]);
        assert(rest.subrange(1, rest.len() as int) =~= lockfiles@.subrange(i + 1, lockfiles@.len() as int));
        match &lockfiles[i] {
            Some(pkgs) => match check_lockfile(pkgs, crate_name, target) {
                Some(b) => {
                    return b;
                },
                None => {},
            },
            None => {},
        }
        i = i + 1;
    }
    true
}

/// The number of slashes in a path.
pub open spec fn slash_count(s: Seq<char>) -> nat
    decreases s.len(),
{
    if s.len() == 0 {
        0
    } else {
        slash_count(s.drop_last()) + if s.last() == '/' { 1nat } else { 0nat }
    }
}

/// `"/.."` repeated `i` times.
pub open spec fn ups(i: nat) -> Seq<char>
    decreases i,
{
    if i == 0 {
        Seq::empty()
    } else {
        ups((i - 1) as nat) + "/.."@
    }
}

/// The paths where the project's `Cargo.lock` is looked for, from the
/// working directory up: `pwd`, then one more `/..` each time, as many as
/// the path has slashes.
pub open spec fn lock_candidates_spec(pwd: Seq<char>) -> Seq<Seq<char>> {
    Seq::new(slash_count(pwd), |i: int| pwd + ups(i as nat) + "/Cargo.lock"@)
}

/// The paths where the project's `Cargo.lock` is looked for.
pub fn lock_candidates(pwd: &str) -> (r: Vec<String>)
    ensures
        r@.map_values(|s: String| s@) == lock_candidates_spec(pwd@),
{
    let v = chars_of(pwd);
    let mut levels: usize = 0;
    let mut k: usize = 0;
    while k < v.len()
        invariant
            v@ == pwd@,
            k <= v@.len(),
            levels == slash_count(v@.subrange(0, k as int)),
            levels <= k,
        decreases v@.len() - k,
    {
        assert(v@.subrange(0, k + 1).drop_last() =~= v@.subrange(0, k as int));
        if v[k] == '/' {
            levels = levels + 1;
        }
        k = k + 1;
    }
    assert(v@.subrange(0, v@.len() as int) =~= v@);
    let mut r: Vec<String> = Vec::new();
    let mut up: Vec<char> = Vec::new();
    let mut i: usize = 0;
    proof {
        reveal_strlit("/..");
        reveal_strlit("/Cargo.lock");
    }
    while i < levels
        invariant
            v@ == pwd@,
            levels == slash_count(pwd@),
            i <= levels,
            up@ == ups(i as nat),
            r@.map_values(|s: String| s@) == lock_candidates_spec(pwd@).subrange(0, i as int),
        decreases levels - i,
    {
        let mut path = string_of_chars(&v);
        let up_str = string_of_chars(&up);
        path.append(up_str.as_str());
        path.append("/Cargo.lock");
        let ghost before = r@.map_values(|s: String| s@);
        r.push(path);
        assert(r@.map_values(|s: String| s@) =~= before.push(pwd@ + ups(i as nat) + "/Cargo.lock"@));
        assert(lock_candidates_spec(pwd@).subrange(0, i + 1) =~= lock_candidates_spec(pwd@).subrange(0, i as int).push(
            pwd@ + ups(i as nat) + "/Cargo.lock"@,
        ));
        up.push('/');
        up.push('.');
        up.push('.');
        proof {
            reveal_strlit("/..");
        }
        assert(up@ =~= ups(i as nat) + "/.."@);
        i = i + 1;
    }
    assert(lock_candidates_spec(pwd@).subrange(0, levels as int) =~= lock_candidates_spec(pwd@));
    r
}

/// The version `3.1.1` reads as `(3, 1, 1)`.
pub proof fn lemma_parse_3_1_1()
    ensures
        parse_version_spec("3.1.1"@) == Some((3u64, 1u64, 1u64)),
{
    reveal_strlit("3.1.1");
    let s = "3.1.1"@;
    assert(s =~= seq!['3', '.', '1', '.', '1']);
    let s1 = s.subrange(0, 1);
    let s2 = s.subrange(0, 2);
    let s3 = s.subrange(0, 3);
    let s4 = s.subrange(0, 4);
    assert(s1.drop_last() =~= Seq::<char>::empty());
    assert(s2.drop_last() =~= s1);
    assert(s3.drop_last() =~= s2);
    assert(s4.drop_last() =~= s3);
    assert(s.drop_last() =~= s4);
    assert(split_dots(Seq::<char>::empty()) =~= seq![Seq::<char>::empty()]);
    assert(split_dots(s1) =~= seq![seq!['3']]);
    assert(split_dots(s2) =~= seq![seq!['3'], Seq::<char>::empty()]);
    assert(split_dots(s3) =~= seq![seq!['3'], seq!['1']]);
    assert(split_dots(s4) =~= seq![seq!['3'], seq!['1'], Seq::<char>::empty()]);
    assert(split_dots(s) =~= seq![seq!['3'], seq!['1'], seq!['1']]);
    let one = seq!['1'];
    let three = seq!['3'];
    assert(one.drop_last() =~= Seq::<char>::empty());
    assert(three.drop_last() =~= Seq::<char>::empty());
    assert(('1' as int) - ('0' as int) == 1);
    assert(('3' as int) - ('0' as int) == 3);
    assert(one.last() == '1');
    assert(three.last() == '3');
    assert(digits_value(Seq::<char>::empty()) == 0);
    assert(digits_value(one) == 1);
    assert(digits_value(three) == 3);
    assert(all_digits(one));
    assert(all_digits(three));
    assert(parse_u64_spec(one) == Some(1u64));
    assert(parse_u64_spec(three) == Some(3u64));
}

/// Every version is at least itself, and of two versions one is at least
/// the other.
pub proof fn law_at_least_order(a: (u64, u64, u64), b: (u64, u64, u64))
    ensures
        at_least(a.0, a.1, a.2, a),
        at_least(a.0, a.1, a.2, b) || at_least(b.0, b.1, b.2, a),
{
}

/// A version that is at least a target is at least every target below it.
pub proof fn law_at_least_lower_target(v: (u64, u64, u64), t1: (u64, u64, u64), t2: (u64, u64, u64))
    requires
        at_least(v.0, v.1, v.2, t1),
        at_least(t1.0, t1.1, t1.2, t2),
    ensures
        at_least(v.0, v.1, v.2, t2),
{
}

/// When no lock file names the crate, the version check passes.
pub proof fn law_unknown_crate_passes(lockfiles: Seq<Option<Vec<LockPackage>>>, crate_name: Seq<char>, t: (u64, u64, u64))
    requires
        forall|i: int| 0 <= i < lockfiles.len() ==> match #[trigger] lockfiles[i] {
            Some(p) => lockfile_answer(p@, crate_name, t).is_none(),
            None => true,
        },
    ensures
        version_answer(lockfiles, crate_name, t),
    decreases lockfiles.len(),
{
    if lockfiles.len() > 0 {
        let rest = lockfiles.subrange(1, lockfiles.len() as int);
        assert forall|i: int| 0 <= i < rest.len() implies match #[trigger] rest[i] {
            Some(p) => lockfile_answer(p@, crate_name, t).is_none(),
            None => true,
        } by {
            assert(rest[i] == lockfiles[i + 1]);
        }
        law_unknown_crate_passes(rest, crate_name, t);
        assert(lockfiles[0] == lockfiles[0]);
    }
}

} // verus!
