//! Version comparison: reading `major.minor.patch` triples out of tag names
//! and deciding whether a remote release is newer.

use vstd::prelude::*;
use vstd::string::{StrSliceExecFns, StringExecFns};
use crate::digits::{all_digits, dec_value, parse_u64};

verus! {

/// `s` without its leading `v` characters.
pub open spec fn strip_vs(s: Seq<char>) -> Seq<char>
    decreases s.len(),
{
    if s.len() > 0 && s[0] == 'v' {
        strip_vs(s.skip(1))
    } else {
        s
    }
}

/// The longest dot-free prefix of `s`.
pub open spec fn take_until_dot(s: Seq<char>) -> Seq<char>
    decreases s.len(),
{
    if s.len() == 0 || s[0] == '.' {
        Seq::empty()
    } else {
        seq![s[0]] + take_until_dot(s.skip(1))
    }
}

/// At most three dot-separated segments of `s`: the first two end at dots,
/// the third is the whole remainder.
pub open spec fn spec_segments(s: Seq<char>) -> Seq<Seq<char>> {
    let s1 = take_until_dot(s);
    if s1.len() == s.len() {
        seq![s1]
    } else {
        let r1 = s.skip(s1.len() as int + 1);
        let s2 = take_until_dot(r1);
        if s2.len() == r1.len() {
            seq![s1, s2]
        } else {
            seq![s1, s2, r1.skip(s2.len() as int + 1)]
        }
    }
}

/// A segment read as a number: only when it is all digits and fits.
pub open spec fn seg_num(seg: Seq<char>) -> Option<int> {
    if all_digits(seg) && dec_value(seg) <= u64::MAX {
        Some(dec_value(seg))
    } else {
        None
    }
}

/// The numbers of the readable segments, in order.
pub open spec fn collect_nums(segs: Seq<Seq<char>>) -> Seq<int>
    decreases segs.len(),
{
    if segs.len() == 0 {
        Seq::empty()
    } else {
        match seg_num(segs[0]) {
            Some(v) => seq![v] + collect_nums(segs.skip(1)),
            None => collect_nums(segs.skip(1)),
        }
    }
}

/// The `(major, minor, patch)` triple denoted by a version string: leading
/// `v`s dropped, up to three dot-separated segments, unreadable segments
/// skipped, missing positions zero.
pub open spec fn spec_version_triple(s: Seq<char>) -> (int, int, int) {
    let nums = collect_nums(spec_segments(strip_vs(s)));
    (
        if nums.len() > 0 {
            nums[0]
        } else {
            0
        },
        if nums.len() > 1 {
            nums[1]
        } else {
            0
        },
        if nums.len() > 2 {
            nums[2]
        } else {
            0
        },
    )
}

/// `remote` names a strictly newer version than `local`, comparing the two
/// triples lexicographically.
pub open spec fn spec_is_newer(local: Seq<char>, remote: Seq<char>) -> bool {
    let l = spec_version_triple(local);
    let r = spec_version_triple(remote);
    r.0 > l.0 || (r.0 == l.0 && (r.1 > l.1 || (r.1 == l.1 && r.2 > l.2)))
}

proof fn lemma_strip_vs_at(s: Seq<char>, a: int)
    requires
        0 <= a <= s.len(),
        forall|k: int| 0 <= k < a ==> s[k] == 'v',
        a < s.len() ==> s[a] != 'v',
    ensures
        strip_vs(s) =~= s.skip(a),
    decreases a,
{
    if a == 0 {
        assert(s.skip(0) =~= s);
    } else {
        assert(forall|k: int| 0 <= k < s.len() - 1 ==> #[trigger] s.skip(1)[k] == s[k + 1]);
        lemma_strip_vs_at(s.skip(1), a - 1);
        assert(s.skip(1).skip(a - 1) =~= s.skip(a));
    }
}

proof fn lemma_until_dot_at(s: Seq<char>, d: int)
    requires
        0 <= d <= s.len(),
        forall|k: int| 0 <= k < d ==> s[k] != '.',
        d < s.len() ==> s[d] == '.',
    ensures
        take_until_dot(s) =~= s.take(d),
    decreases d,
{
    if d == 0 {
        assert(s.take(0) =~= Seq::<char>::empty());
    } else {
        assert(forall|k: int| 0 <= k < s.len() - 1 ==> #[trigger] s.skip(1)[k] == s[k + 1]);
        lemma_until_dot_at(s.skip(1), d - 1);
        assert(seq![s[0]] + s.skip(1).take(d - 1) =~= s.take(d));
    }
}

/// Find the first `.` of `s` at or after `from`, or the length of `s`.
fn find_dot(s: &str, from: usize) -> (d: usize)
    requires
        from <= s@.len(),
    ensures
        from <= d <= s@.len(),
        forall|k: int| from <= k < d ==> s@[k] != '.',
        d < s@.len() ==> s@[d as int] == '.',
{
    let n = s.unicode_len();
    let mut d = from;
    loop
        invariant_except_break
            n == s@.len(),
            from <= d <= n,
            forall|k: int| from <= k < d ==> s@[k] != '.',
        ensures
            from <= d <= n,
            forall|k: int| from <= k < d ==> s@[k] != '.',
            d < n ==> s@[d as int] == '.',
        decreases n - d,
    {
        if d == n {
            break;
        }
        if s.get_char(d) == '.' {
            break;
        }
        d = d + 1;
    }
    d
}

fn seg_value(s: &str, a: usize, b: usize) -> (r: Option<u64>)
    requires
        a <= b <= s@.len(),
    ensures
        match r {
            Some(v) => seg_num(s@.subrange(a as int, b as int)) == Some(v as int),
            None => seg_num(s@.subrange(a as int, b as int)) is None,
        },
{
    let f = s.substring_char(a, b);
    parse_u64(f)
}

/// Read a version string as its `(major, minor, patch)` triple.
pub fn parse_version_triple(s: &str) -> (r: (u64, u64, u64))
    ensures
        (r.0 as int, r.1 as int, r.2 as int) == spec_version_triple(s@),
{
    let n = s.unicode_len();
    let mut a: usize = 0;
    loop
        invariant_except_break
            n == s@.len(),
            0 <= a <= n,
            forall|k: int| 0 <= k < a ==> s@[k] == 'v',
        ensures
            0 <= a <= n,
            forall|k: int| 0 <= k < a ==> s@[k] == 'v',
            a < n ==> s@[a as int] != 'v',
        decreases n - a,
    {
        if a == n {
            break;
        }
        if s.get_char(a) != 'v' {
            break;
        }
        a = a + 1;
    }
    proof {
        lemma_strip_vs_at(s@, a as int);
    }
    let ghost t = strip_vs(s@);
    proof {
        assert(forall|k: int| 0 <= k < t.len() ==> t[k] == s@[k + a]);
    }

    let d1 = find_dot(s, a);
    proof {
        lemma_until_dot_at(t, d1 - a);
        assert(take_until_dot(t) =~= s@.subrange(a as int, d1 as int)) by {
            assert(t.take(d1 - a) =~= s@.subrange(a as int, d1 as int));
        }
    }
    let v1 = seg_value(s, a, d1);

    let ghost segs = spec_segments(t);
    let ghost cn = collect_nums(segs);
    if d1 == n {
        // one segment
        proof {
            assert(take_until_dot(t).len() == t.len());
            assert(segs =~= seq![take_until_dot(t)]);
            assert(segs.skip(1) =~= Seq::<Seq<char>>::empty());
        }
        match v1 {
            Some(x) => {
                proof {
                    assert(seg_num(segs[0]) == Some(x as int));
                    assert(collect_nums(segs.skip(1)) =~= Seq::<int>::empty());
                    assert(cn =~= seq![x as int] + collect_nums(segs.skip(1)));
                    assert(cn =~= seq![x as int]);
                }
                (x, 0, 0)
            },
            None => {
                proof {
                    assert(seg_num(segs[0]) is None);
                    assert(cn =~= collect_nums(segs.skip(1)));
                    assert(cn =~= Seq::<int>::empty());
                }
                (0, 0, 0)
            },
        }
    } else {
        let d2 = find_dot(s, d1 + 1);
        let ghost r1 = t.skip(take_until_dot(t).len() as int + 1);
        proof {
            assert(take_until_dot(t).len() == d1 - a);
            assert(r1 =~= s@.skip(d1 as int + 1));
            assert(forall|k: int| 0 <= k < r1.len() ==> r1[k] == s@[k + d1 + 1]);
            lemma_until_dot_at(r1, d2 - d1 - 1);
            assert(take_until_dot(r1) =~= s@.subrange(d1 as int + 1, d2 as int)) by {
                assert(r1.take(d2 - d1 - 1) =~= s@.subrange(d1 as int + 1, d2 as int));
            }
        }
        let v2 = seg_value(s, d1 + 1, d2);
        if d2 == n {
            // two segments
            proof {
                assert(take_until_dot(r1).len() == r1.len());
                assert(segs =~= seq![take_until_dot(t), take_until_dot(r1)]);
                assert(segs.skip(1) =~= seq![take_until_dot(r1)]);
                assert(segs.skip(1).skip(1) =~= Seq::<Seq<char>>::empty());
            }
            match (v1, v2) {
                (Some(x), Some(y)) => {
                    proof {
                        assert(seg_num(segs[0]) == Some(x as int));
                        assert(segs.skip(1)[0] == segs[1]);
                        assert(seg_num(segs[1]) == Some(y as int));
                        assert(collect_nums(segs.skip(1).skip(1)) =~= Seq::<int>::empty());
                        assert(collect_nums(segs.skip(1)) =~= seq![y as int]);
                        assert(cn =~= seq![x as int] + collect_nums(segs.skip(1)));
                        assert(cn =~= seq![x as int, y as int]);
                    }
                    (x, y, 0)
                },
                (Some(x), None) => {
                    proof {
                        assert(seg_num(segs[0]) == Some(x as int));
                        assert(segs.skip(1)[0] == segs[1]);
                        assert(seg_num(segs[1]) is None);
                        assert(collect_nums(segs.skip(1).skip(1)) =~= Seq::<int>::empty());
                        assert(collect_nums(segs.skip(1)) =~= Seq::<int>::empty());
                        assert(cn =~= seq![x as int]);
                    }
                    (x, 0, 0)
                },
                (None, Some(y)) => {
                    proof {
                        assert(seg_num(segs[0]) is None);
                        assert(segs.skip(1)[0] == segs[1]);
                        assert(seg_num(segs[1]) == Some(y as int));
                        assert(collect_nums(segs.skip(1).skip(1)) =~= Seq::<int>::empty());
                        assert(collect_nums(segs.skip(1)) =~= seq![y as int]);
                        assert(cn =~= seq![y as int]);
                    }
                    (y, 0, 0)
                },
                (None, None) => {
                    proof {
                        assert(seg_num(segs[0]) is None);
                        assert(segs.skip(1)[0] == segs[1]);
                        assert(seg_num(segs[1]) is None);
                        assert(collect_nums(segs.skip(1).skip(1)) =~= Seq::<int>::empty());
                        assert(collect_nums(segs.skip(1)) =~= Seq::<int>::empty());
                        assert(cn =~= Seq::<int>::empty());
                    }
                    (0, 0, 0)
                },
            }
        } else {
            // three segments, the third holding the rest
            let ghost r2 = r1.skip(take_until_dot(r1).len() as int + 1);
            proof {
                assert(take_until_dot(r1).len() == d2 - d1 - 1);
                assert(r2 =~= s@.skip(d2 as int + 1));
                assert(segs =~= seq![take_until_dot(t), take_until_dot(r1), r2]);
                assert(segs.skip(1) =~= seq![take_until_dot(r1), r2]);
                assert(segs.skip(1).skip(1) =~= seq![r2]);
                assert(segs.skip(1).skip(1).skip(1) =~= Seq::<Seq<char>>::empty());
                assert(s@.subrange(d2 as int + 1, n as int) =~= s@.skip(d2 as int + 1));
            }
            let v3 = seg_value(s, d2 + 1, n);
            match (v1, v2, v3) {
                (Some(x), Some(y), Some(z)) => {
                    proof {
                        assert(seg_num(segs[0]) == Some(x as int));
                        assert(segs.skip(1)[0] == segs[1]);
                        assert(seg_num(segs[1]) == Some(y as int));
                        assert(segs.skip(1).skip(1)[0] == segs[2]);
                        assert(seg_num(segs[2]) == Some(z as int));
                        assert(collect_nums(segs.skip(1).skip(1).skip(1)) =~= Seq::<int>::empty());
                        assert(collect_nums(segs.skip(1).skip(1)) =~= seq![z as int]);
                        assert(collect_nums(segs.skip(1)) =~= seq![y as int, z as int]);
                        assert(cn =~= seq![x as int, y as int, z as int]);
                    }
                    (x, y, z)
                },
                (Some(x), Some(y), None) => {
                    proof {
                        assert(seg_num(segs[0]) == Some(x as int));
                        assert(segs.skip(1)[0] == segs[1]);
                        assert(seg_num(segs[1]) == Some(y as int));
                        assert(segs.skip(1).skip(1)[0] == segs[2]);
                        assert(seg_num(segs[2]) is None);
                        assert(collect_nums(segs.skip(1).skip(1).skip(1)) =~= Seq::<int>::empty());
                        assert(collect_nums(segs.skip(1).skip(1)) =~= Seq::<int>::empty());
                        assert(collect_nums(segs.skip(1)) =~= seq![y as int]);
                        assert(cn =~= seq![x as int, y as int]);
                    }
                    (x, y, 0)
                },
                (Some(x), None, Some(z)) => {
                    proof {
                        assert(seg_num(segs[0]) == Some(x as int));
                        assert(segs.skip(1)[0] == segs[1]);
                        assert(seg_num(segs[1]) is None);
                        assert(segs.skip(1).skip(1)[0] == segs[2]);
                        assert(seg_num(segs[2]) == Some(z as int));
                        assert(collect_nums(segs.skip(1).skip(1).skip(1)) =~= Seq::<int>::empty());
                        assert(collect_nums(segs.skip(1).skip(1)) =~= seq![z as int]);
                        assert(collect_nums(segs.skip(1)) =~= seq![z as int]);
                        assert(cn =~= seq![x as int, z as int]);
                    }
                    (x, z, 0)
                },
                (Some(x), None, None) => {
                    proof {
                        assert(seg_num(segs[0]) == Some(x as int));
                        assert(segs.skip(1)[0] == segs[1]);
                        assert(seg_num(segs[1]) is None);
                        assert(segs.skip(1).skip(1)[0] == segs[2]);
                        assert(seg_num(segs[2]) is None);
                        assert(collect_nums(segs.skip(1).skip(1).skip(1)) =~= Seq::<int>::empty());
                        assert(collect_nums(segs.skip(1).skip(1)) =~= Seq::<int>::empty());
                        assert(collect_nums(segs.skip(1)) =~= Seq::<int>::empty());
                        assert(cn =~= seq![x as int]);
                    }
                    (x, 0, 0)
                },
                (None, Some(y), Some(z)) => {
                    proof {
                        assert(seg_num(segs[0]) is None);
                        assert(segs.skip(1)[0] == segs[1]);
                        assert(seg_num(segs[1]) == Some(y as int));
                        assert(segs.skip(1).skip(1)[0] == segs[2]);
                        assert(seg_num(segs[2]) == Some(z as int));
                        assert(collect_nums(segs.skip(1).skip(1).skip(1)) =~= Seq::<int>::empty());
                        assert(collect_nums(segs.skip(1).skip(1)) =~= seq![z as int]);
                        assert(collect_nums(segs.skip(1)) =~= seq![y as int, z as int]);
                        assert(cn =~= seq![y as int, z as int]);
                    }
                    (y, z, 0)
                },
                (None, Some(y), None) => {
                    proof {
                        assert(seg_num(segs[0]) is None);
                        assert(segs.skip(1)[0] == segs[1]);
                        assert(seg_num(segs[1]) == Some(y as int));
                        assert(segs.skip(1).skip(1)[0] == segs[2]);
                        assert(seg_num(segs[2]) is None);
                        assert(collect_nums(segs.skip(1).skip(1).skip(1)) =~= Seq::<int>::empty());
                        assert(collect_nums(segs.skip(1).skip(1)) =~= Seq::<int>::empty());
                        assert(collect_nums(segs.skip(1)) =~= seq![y as int]);
                        assert(cn =~= seq![y as int]);
                    }
                    (y, 0, 0)
                },
                (None, None, Some(z)) => {
                    proof {
                        assert(seg_num(segs[0]) is None);
                        assert(segs.skip(1)[0] == segs[1]);
                        assert(seg_num(segs[1]) is None);
                        assert(segs.skip(1).skip(1)[0] == segs[2]);
                        assert(seg_num(segs[2]) == Some(z as int));
                        assert(collect_nums(segs.skip(1).skip(1).skip(1)) =~= Seq::<int>::empty());
                        assert(collect_nums(segs.skip(1).skip(1)) =~= seq![z as int]);
                        assert(collect_nums(segs.skip(1)) =~= seq![z as int]);
                        assert(cn =~= seq![z as int]);
                    }
                    (z, 0, 0)
                },
                (None, None, None) => {
                    proof {
                        assert(seg_num(segs[0]) is None);
                        assert(segs.skip(1)[0] == segs[1]);
                        assert(seg_num(segs[1]) is None);
                        assert(segs.skip(1).skip(1)[0] == segs[2]);
                        assert(seg_num(segs[2]) is None);
                        assert(collect_nums(segs.skip(1).skip(1).skip(1)) =~= Seq::<int>::empty());
                        assert(collect_nums(segs.skip(1).skip(1)) =~= Seq::<int>::empty());
                        assert(collect_nums(segs.skip(1)) =~= Seq::<int>::empty());
                        assert(cn =~= Seq::<int>::empty());
                    }
                    (0, 0, 0)
                },
            }
        }
    }
}

/// Whether `remote` names a strictly newer version than `local` (such as
/// `0.2.0` against `0.1.0`), comparing major, minor and patch in turn.
pub fn is_newer_version(local: &str, remote: &str) -> (r: bool)
    ensures
        r == spec_is_newer(local@, remote@),
{
    let l = parse_version_triple(local);
    let r = parse_version_triple(remote);
    r.0 > l.0 || (r.0 == l.0 && (r.1 > l.1 || (r.1 == l.1 && r.2 > l.2)))
}

/// Drop the leading `v` characters off a version or tag string.
pub fn strip_v_prefix(s: &str) -> (r: String)
    ensures
        r@ == strip_vs(s@),
{
    let n = s.unicode_len();
    let mut a: usize = 0;
    loop
        invariant_except_break
            n == s@.len(),
            0 <= a <= n,
            forall|k: int| 0 <= k < a ==> s@[k] == 'v',
        ensures
            0 <= a <= n,
            forall|k: int| 0 <= k < a ==> s@[k] == 'v',
            a < n ==> s@[a as int] != 'v',
        decreases n - a,
    {
        if a == n {
            break;
        }
        if s.get_char(a) != 'v' {
            break;
        }
        a = a + 1;
    }
    proof {
        lemma_strip_vs_at(s@, a as int);
        assert(s@.subrange(a as int, n as int) =~= s@.skip(a as int));
    }
    s.substring_char(a, n).to_owned()
}

} // verus!
