//! Semantic-version comparison for the release update check.

use vstd::prelude::*;

use crate::text::{all_digits, chars_of, dec_value, parse_u64, spec_split, split_char};

verus! {

/// Whether a version segment reads as a number: nonempty, digits only, and
/// within `u64`.
pub open spec fn seg_parses(s: Seq<char>) -> bool {
    s.len() > 0 && all_digits(s) && dec_value(s) <= u64::MAX
}

/// The numbers of the segments that parse, in order.
pub open spec fn parsed_nums(segs: Seq<Seq<char>>) -> Seq<int>
    decreases segs.len(),
{
    if segs.len() == 0 {
        Seq::empty()
    } else {
        let rest = parsed_nums(segs.drop_first());
        if seg_parses(segs[0]) {
            seq![dec_value(segs[0])] + rest
        } else {
            rest
        }
    }
}

/// (major, minor, patch) read from a version string: the first three numeric
/// dot-segments, missing ones read as 0.
pub open spec fn version_triple(s: Seq<char>) -> (int, int, int) {
    let nums = parsed_nums(spec_split(s, '.'));
    (
        if nums.len() > 0 {
            nums[0]
        } else {
            0
        },
        if nums.len() > 1 {
            nums[1]
        } else {
            0
        },
        if nums.len() > 2 {
            nums[2]
        } else {
            0
        },
    )
}

/// Lexicographic order on version triples.
pub open spec fn triple_lt(a: (int, int, int), b: (int, int, int)) -> bool {
    ||| a.0 < b.0
    ||| (a.0 == b.0 && a.1 < b.1)
    ||| (a.0 == b.0 && a.1 == b.1 && a.2 < b.2)
}

/// Splitting off the head segment splits the parsed numbers the same way.
proof fn lemma_parsed_nums_drop(segs: Seq<Seq<char>>, k: int)
    requires
        0 <= k <= segs.len(),
    ensures
        parsed_nums(segs) == parsed_nums(segs.take(k)) + parsed_nums(segs.skip(k)),
    decreases k,
{
    if k == 0 {
        assert(segs.take(0) =~= Seq::<Seq<char>>::empty());
        assert(segs.skip(0) =~= segs);
        assert(parsed_nums(segs.take(0)) + parsed_nums(segs.skip(0)) =~= parsed_nums(segs));
    } else {
        lemma_parsed_nums_drop(segs.drop_first(), k - 1);
        assert(segs.take(k).drop_first() =~= segs.drop_first().take(k - 1));
        assert(segs.skip(k) =~= segs.drop_first().skip(k - 1));
        assert(segs.take(k)[0] == segs[0]);
        if seg_parses(segs[0]) {
            assert(parsed_nums(segs.take(k)) =~= seq![dec_value(segs[0])] + parsed_nums(
                segs.drop_first().take(k - 1),
            ));
            assert(parsed_nums(segs) =~= parsed_nums(segs.take(k)) + parsed_nums(segs.skip(k)));
        } else {
            assert(parsed_nums(segs.take(k)) =~= parsed_nums(segs.drop_first().take(k - 1)));
            assert(parsed_nums(segs) =~= parsed_nums(segs.take(k)) + parsed_nums(segs.skip(k)));
        }
    }
}

/// The first three numeric dot-segments of a version string, missing ones 0.
fn parse_version(v: &str) -> (r: (u64, u64, u64))
    ensures
        (r.0 as int, r.1 as int, r.2 as int) == version_triple(v@),
{
    let chars = chars_of(v);
    let segs = split_char(chars.as_slice(), '.');
    let ghost spec_segs = spec_split(v@, '.');
    proof {
        assert(forall|k: int| 0 <= k < segs@.len() ==> segs@[k]@ == spec_segs[k]);
    }
    let mut nums: Vec<u64> = Vec::new();
    let mut i: usize = 0;
    while i < segs.len()
        invariant
            0 <= i <= segs@.len(),
            segs@.len() == spec_segs.len(),
            forall|k: int| 0 <= k < segs@.len() ==> segs@[k]@ == spec_segs[k],
            nums@.map_values(|x: u64| x as int) == parsed_nums(spec_segs.take(i as int)),
        decreases segs@.len() - i,
    {
        proof {
            lemma_parsed_nums_drop(spec_segs.take(i + 1), i as int);
            assert(spec_segs.take(i + 1).take(i as int) =~= spec_segs.take(i as int));
            assert(spec_segs.take(i + 1).skip(i as int) =~= seq![spec_segs[i as int]]);
            let single = seq![spec_segs[i as int]];
            assert(single.len() == 1 && single[0] == spec_segs[i as int]);
            assert(single.drop_first() =~= Seq::<Seq<char>>::empty());
            assert(parsed_nums(single.drop_first()) == parsed_nums(Seq::<Seq<char>>::empty()));
            assert(parsed_nums(Seq::<Seq<char>>::empty()) =~= Seq::<int>::empty());
            if seg_parses(spec_segs[i as int]) {
                assert(parsed_nums(single) =~= seq![dec_value(spec_segs[i as int])]);
            } else {
                assert(parsed_nums(single) =~= Seq::<int>::empty());
            }
        }
        match parse_u64(segs[i].as_slice()) {
            Some(n) => {
                nums.push(n);
                proof {
                    assert(seg_parses(spec_segs[i as int]));
                    assert(nums@.map_values(|x: u64| x as int) =~= parsed_nums(
                        spec_segs.take(i as int),
                    ) + seq![n as int]);
                    assert(parsed_nums(spec_segs.take(i + 1)) =~= parsed_nums(
                        spec_segs.take(i as int),
                    ) + seq![dec_value(spec_segs[i as int])]);
                }
            },
            None => {
                proof {
                    assert(!seg_parses(spec_segs[i as int]));
                    assert(parsed_nums(spec_segs.take(i + 1)) =~= parsed_nums(
                        spec_segs.take(i as int),
                    ));
                }
            },
        }
        i += 1;
    }
    proof {
        assert(spec_segs.take(segs@.len() as int) =~= spec_segs);
        assert(nums@.map_values(|x: u64| x as int) == parsed_nums(spec_segs));
    }
    let a: u64 = if nums.len() > 0 {
        nums[0]
    } else {
        0
    };
    let b: u64 = if nums.len() > 1 {
        nums[1]
    } else {
        0
    };
    let c: u64 = if nums.len() > 2 {
        nums[2]
    } else {
        0
    };
    proof {
        let m = nums@.map_values(|x: u64| x as int);
        assert(m.len() == nums@.len());
        assert(nums@.len() > 0 ==> m[0] == nums@[0] as int);
        assert(nums@.len() > 1 ==> m[1] == nums@[1] as int);
        assert(nums@.len() > 2 ==> m[2] == nums@[2] as int);
    }
    (a, b, c)
}

/// Whether `remote` is a strictly newer version than `local`: the first three
/// numeric dot-segments compare lexicographically.
pub fn is_newer(remote: &str, local: &str) -> (r: bool)
    ensures
        r == triple_lt(version_triple(local@), version_triple(remote@)),
{
    let (ra, rb, rc) = parse_version(remote);
    let (la, lb, lc) = parse_version(local);
    ra > la || (ra == la && rb > lb) || (ra == la && rb == lb && rc > lc)
}

} // verus!
