//! The door selector: uniform draws from `1..=doors` under an exclusion
//! set.
//!
//! Two strategies are offered:
//!
//! * index remapping (`select`): draw from a range shortened by the
//!   number of exclusions, then shift the draw upward past each excluded
//!   door in ascending order;
//! * rejection sampling (`choix_autre`, `choix_autre_autre`): draw from
//!   the full range until the draw is not excluded, with a bounded
//!   number of attempts and the remapping draw as a final fallback, so
//!   that the function is total.
//!
//! Both are uniform over the candidates: the remapping `remap` is a
//! strictly increasing bijection from the shortened range onto the
//! candidate set (`lemma_remap_in_candidates`, `lemma_remap_increasing`,
//! `lemma_remap_covers`), so it carries the uniform draw to a uniform
//! candidate, and an accepted rejection draw is a uniform draw
//! conditioned on being a candidate.

use crate::config::Error;
use crate::rng::Gna;
use vstd::prelude::*;
use vstd::seq_lib::*;
use vstd::set_lib::lemma_int_range;
use vstd::set_lib::lemma_len_subset;
use vstd::set_lib::set_int_range;

verus! {

/// Every entry is a door number of a game with `n` doors.
pub open spec fn in_door_range(s: Seq<u32>, n: u32) -> bool {
    forall|i: int| 0 <= i < s.len() ==> 1 <= #[trigger] s[i] <= n
}

/// Ascending order without repetition.
pub open spec fn strictly_increasing(s: Seq<u32>) -> bool {
    forall|i: int, j: int| 0 <= i < j < s.len() ==> s[i] < s[j]
}

/// The index-remapping map: shift `r` upward past each excluded door,
/// in the order the sequence lists them (ascending for a sorted one).
pub open spec fn remap(s: Seq<u32>, r: int) -> int
    decreases s.len(),
{
    if s.len() == 0 {
        r
    } else {
        remap(s.drop_first(), if r >= s[0] { r + 1 } else { r })
    }
}

/// Shifting never moves a draw downward.
proof fn lemma_remap_lower(s: Seq<u32>, r: int)
    ensures
        remap(s, r) >= r,
    decreases s.len(),
{
    if s.len() > 0 {
        let r2: int = if r >= s[0] {
            r + 1
        } else {
            r
        };
        lemma_remap_lower(s.drop_first(), r2);
    }
}

/// A draw below every excluded door is left unchanged.
proof fn lemma_remap_below_all(s: Seq<u32>, r: int)
    requires
        forall|i: int| 0 <= i < s.len() ==> r < #[trigger] s[i],
    ensures
        remap(s, r) == r,
    decreases s.len(),
{
    if s.len() > 0 {
        assert(forall|i: int| 0 <= i < s.drop_first().len() ==> r < #[trigger] s.drop_first()[i])
            by {
            assert(forall|i: int|
                0 <= i < s.drop_first().len() ==> s.drop_first()[i] == s[i + 1]);
        }
        lemma_remap_below_all(s.drop_first(), r);
    }
}

/// Strictly increasing entries grow at least as fast as the index.
proof fn lemma_strict_spread(s: Seq<u32>, i: int, j: int)
    requires
        strictly_increasing(s),
        0 <= i <= j < s.len(),
    ensures
        s[j] >= s[i] + (j - i),
    decreases j - i,
{
    if i < j {
        lemma_strict_spread(s, i, j - 1);
    }
}

/// The remapping of a draw from the shortened range is a candidate: a
/// door of the game that is not excluded.
pub proof fn lemma_remap_in_candidates(s: Seq<u32>, n: u32, r: int)
    requires
        strictly_increasing(s),
        in_door_range(s, n),
        1 <= r <= n - s.len(),
    ensures
        1 <= remap(s, r) <= n,
        forall|i: int| 0 <= i < s.len() ==> #[trigger] s[i] as int != remap(s, r),
    decreases s.len(),
{
    if s.len() > 0 {
        let e = s[0] as int;
        let t = s.drop_first();
        assert(forall|i: int| 0 <= i < t.len() ==> t[i] == s[i + 1]);
        if r >= e {
            lemma_remap_in_candidates(t, n, r + 1);
            lemma_remap_lower(t, r + 1);
            assert(remap(s, r) == remap(t, r + 1));
            assert forall|i: int| 0 <= i < s.len() implies #[trigger] s[i] as int != remap(s, r) by {
                if i == 0 {
                    assert(remap(t, r + 1) >= r + 1 > e);
                } else {
                    assert(s[i] == t[i - 1]);
                }
            }
        } else {
            assert(forall|i: int| 0 <= i < t.len() ==> r < #[trigger] t[i]);
            lemma_remap_below_all(t, r);
            assert(remap(s, r) == r);
            assert forall|i: int| 0 <= i < s.len() implies #[trigger] s[i] as int != remap(s, r) by {
                if i > 0 {
                    assert(s[0] < s[i]);
                }
            }
        }
    }
}

/// The remapping is strictly increasing in the draw, hence injective:
/// no two draws from the shortened range land on the same door.
pub proof fn lemma_remap_increasing(s: Seq<u32>, r1: int, r2: int)
    requires
        r1 < r2,
    ensures
        remap(s, r1) < remap(s, r2),
    decreases s.len(),
{
    if s.len() > 0 {
        let e = s[0] as int;
        let r1n: int = if r1 >= e {
            r1 + 1
        } else {
            r1
        };
        let r2n: int = if r2 >= e {
            r2 + 1
        } else {
            r2
        };
        lemma_remap_increasing(s.drop_first(), r1n, r2n);
    }
}

/// The remapping reaches every candidate: each door of the game that is
/// not excluded is the image of some draw from the shortened range.
/// Together with `lemma_remap_increasing` and
/// `lemma_remap_in_candidates` this makes the remapping a bijection
/// from the shortened range onto the candidate set, so a uniform draw
/// is carried to a uniform candidate — the distribution rejection
/// sampling produces as well.
pub proof fn lemma_remap_covers(s: Seq<u32>, n: u32, c: int)
    requires
        strictly_increasing(s),
        in_door_range(s, n),
        1 <= c <= n,
        forall|i: int| 0 <= i < s.len() ==> #[trigger] s[i] as int != c,
    ensures
        exists|r: int| 1 <= r <= n - s.len() && #[trigger] remap(s, r) == c,
    decreases s.len(),
{
    if s.len() == 0 {
        assert(remap(s, c) == c);
    } else {
        let e = s[0] as int;
        let t = s.drop_first();
        assert(forall|i: int| 0 <= i < t.len() ==> t[i] == s[i + 1]);
        if c < e {
            assert(forall|i: int| 0 <= i < t.len() ==> c < #[trigger] t[i]);
            lemma_remap_below_all(t, c);
            lemma_strict_spread(s, 0, s.len() - 1);
            assert(1 <= c <= n - s.len() && remap(s, c) == c);
        } else {
            lemma_remap_covers(t, n, c);
            let r1 = choose|r: int| 1 <= r <= n - t.len() && #[trigger] remap(t, r) == c;
            if r1 <= e {
                assert(forall|i: int| 0 <= i < t.len() ==> r1 < #[trigger] t[i]);
                lemma_remap_below_all(t, r1);
                assert(false);
            }
            assert(remap(s, r1 - 1) == remap(t, r1));
            assert(1 <= r1 - 1 <= n - s.len() && remap(s, r1 - 1) == c);
        }
    }
}

/// Pigeonhole over the doors: a game with `n` doors offers at most
/// `n` distinct door numbers, so a longer duplicate-free list of them
/// cannot exist.
pub proof fn lemma_distinct_doors_bounded(s: Seq<u32>, n: u32)
    requires
        s.no_duplicates(),
        in_door_range(s, n),
    ensures
        s.len() <= n,
{
    let f = |x: u32| x as int;
    let t = s.map_values(f);
    assert(vstd::relations::injective(f));
    s.lemma_no_duplicates_injective(f);
    t.unique_seq_to_set();
    assert forall|e: int| t.to_set().contains(e) implies set_int_range(
        1,
        n as int + 1,
    ).contains(e) by {
        assert(t.contains(e));
        let i = choose|i: int| 0 <= i < t.len() && t[i] == e;
        assert(t[i] == f(s[i]));
        assert(1 <= s[i] <= n);
    }
    assert(t.to_set().subset_of(set_int_range(1, n as int + 1)));
    lemma_int_range(1, n as int + 1);
    lemma_len_subset(t.to_set(), set_int_range(1, n as int + 1));
}

/// The one-exclusion shortcut draw is the general remapping applied
/// to a single excluded door.
pub proof fn lemma_shortcut_matches_remap_one(a: u32, r: int)
    ensures
        remap(seq![a], r) == if r >= a {
            r + 1
        } else {
            r
        },
{
    let s = seq![a];
    assert(s.len() == 1 && s[0] == a);
    assert(s.drop_first() =~= Seq::<u32>::empty());
    let r1: int = if r >= a {
        r + 1
    } else {
        r
    };
    assert(remap(s, r) == remap(Seq::<u32>::empty(), r1));
    assert(remap(Seq::<u32>::empty(), r1) == r1);
}

/// The two-exclusion shortcut draw — shift past the smaller excluded
/// door, then past the larger — is the general remapping applied to
/// the sorted pair.
pub proof fn lemma_shortcut_matches_remap_two(lo: u32, hi: u32, r: int)
    requires
        lo < hi,
    ensures
        remap(seq![lo, hi], r) == {
            let r1: int = if r >= lo {
                r + 1
            } else {
                r
            };
            if r1 >= hi {
                r1 + 1
            } else {
                r1
            }
        },
{
    assert(seq![lo, hi].drop_first() =~= seq![hi]);
    let r1: int = if r >= lo {
        r + 1
    } else {
        r
    };
    lemma_shortcut_matches_remap_one(hi, r1);
}

/// Sorts distinct door numbers into ascending order by repeated
/// insertion into a fresh vector.
fn sort_doors(input: &Vec<u32>) -> (out: Vec<u32>)
    requires
        input@.no_duplicates(),
    ensures
        out@.len() == input@.len(),
        strictly_increasing(out@),
        forall|x: u32| out@.contains(x) <==> input@.contains(x),
{
    let mut out: Vec<u32> = Vec::new();
    let mut i: usize = 0;
    while i < input.len()
        invariant
            i <= input@.len(),
            input@.no_duplicates(),
            out@.len() == i,
            strictly_increasing(out@),
            forall|x: u32| out@.contains(x) <==> input@.take(i as int).contains(x),
        decreases input@.len() - i,
    {
        let x = input[i];
        proof {
            if out@.contains(x) {
                let j = choose|j: int| 0 <= j < i && input@.take(i as int)[j] == x;
                assert(input@[j] == input@[i as int]);
                assert(false);
            }
        }
        let ghost prev = out@;
        let mut j: usize = 0;
        while j < out.len() && out[j] < x
            invariant
                j <= out@.len(),
                out@ == prev,
                strictly_increasing(out@),
                !out@.contains(x),
                forall|k: int| 0 <= k < j ==> out@[k] < x,
            decreases out@.len() - j,
        {
            j += 1;
        }
        proof {
            if j < out@.len() {
                assert(out@[j as int] != x);
                assert(out@[j as int] > x);
            }
            prev.insert_ensures(j as int, x);
        }
        out.insert(j, x);
        proof {
            assert forall|p: int, q: int| 0 <= p < q < out@.len() implies out@[p] < out@[q] by {
                if q < j {
                    assert(out@[p] == prev[p] && out@[q] == prev[q]);
                } else if p > j {
                    assert(out@[p] == prev[p - 1] && out@[q] == prev[q - 1]);
                } else if p < j && q == j {
                    assert(out@[p] == prev[p] && out@[q] == x);
                } else if p == j {
                    assert(out@[p] == x && out@[q] == prev[q - 1] && q - 1 >= j);
                    assert(prev[q - 1] >= prev[j as int]);
                } else {
                    assert(p < j && q > j);
                    assert(out@[p] == prev[p] && out@[q] == prev[q - 1] && q - 1 >= j);
                    if j < prev.len() {
                        assert(prev[q - 1] >= prev[j as int]);
                    }
                }
            }
            assert(input@.take(i + 1) == input@.take(i as int).push(x)) by {
                assert(input@.take(i + 1) =~= input@.take(i as int).push(x));
            }
            assert forall|y: u32| out@.contains(y) implies input@.take(i + 1).contains(y) by {
                let p = choose|p: int| 0 <= p < out@.len() && #[trigger] out@[p] == y;
                if p == j {
                    assert(y == x);
                    assert(input@.take(i + 1)[i as int] == y);
                } else {
                    let pp: int = if p < j {
                        p
                    } else {
                        p - 1
                    };
                    assert(prev[pp] == y);
                    assert(prev.contains(y));
                    assert(input@.take(i as int).contains(y));
                    let q = choose|q: int|
                        0 <= q < input@.take(i as int).len() && #[trigger] input@.take(
                            i as int,
                        )[q] == y;
                    assert(input@.take(i + 1)[q] == y);
                }
            }
            assert forall|y: u32| input@.take(i + 1).contains(y) implies out@.contains(y) by {
                let p = choose|p: int|
                    0 <= p < input@.take(i + 1).len() && #[trigger] input@.take(i + 1)[p] == y;
                if p < i {
                    assert(input@.take(i as int)[p] == y);
                    assert(input@.take(i as int).contains(y));
                    assert(prev.contains(y));
                    let q = choose|q: int| 0 <= q < prev.len() && #[trigger] prev[q] == y;
                    if q < j {
                        assert(out@[q] == y);
                    } else {
                        assert(out@[q + 1] == y);
                    }
                } else {
                    assert(y == x);
                    assert(out@[j as int] == x);
                }
            }
        }
        i += 1;
    }
    proof {
        assert(input@.take(input@.len() as int) == input@) by {
            assert(input@.take(input@.len() as int) =~= input@);
        }
    }
    out
}

/// Shifts a draw from the shortened range upward past the sorted
/// excluded doors, landing on the draw's candidate door.
fn apply_shifts(s: &Vec<u32>, doors: u32, r0: u32) -> (d: u32)
    requires
        strictly_increasing(s@),
        in_door_range(s@, doors),
        1 <= r0,
        r0 + s@.len() <= doors,
    ensures
        d as int == remap(s@, r0 as int),
        1 <= d <= doors,
        forall|i: int| 0 <= i < s@.len() ==> #[trigger] s@[i] != d,
{
    let mut r = r0;
    let mut i: usize = 0;
    proof {
        assert(s@.skip(0) =~= s@);
    }
    while i < s.len()
        invariant
            i <= s@.len(),
            1 <= r,
            r + (s@.len() - i) <= doors,
            remap(s@, r0 as int) == remap(s@.skip(i as int), r as int),
        decreases s@.len() - i,
    {
        proof {
            assert(s@.skip(i as int)[0] == s@[i as int]);
            assert(s@.skip(i as int).drop_first() =~= s@.skip(i + 1));
        }
        if r >= s[i] {
            r += 1;
        }
        i += 1;
    }
    proof {
        assert(s@.skip(s@.len() as int) =~= Seq::<u32>::empty());
        assert(remap(s@, r0 as int) == r as int);
        lemma_remap_in_candidates(s@, doors, r0 as int);
    }
    r
}

/// The general door selector: returns a uniformly drawn door of
/// `1..=doors` outside the exclusion set, or reports that every door
/// was excluded.  The exclusion set is given as a list of distinct
/// door numbers, in any order.
pub fn select(gna: &mut Gna, doors: u32, excluded: &Vec<u32>) -> (res: Result<u32, Error>)
    requires
        excluded@.no_duplicates(),
        in_door_range(excluded@, doors),
    ensures
        match res {
            Ok(d) => excluded@.len() < doors && 1 <= d <= doors && !excluded@.contains(d),
            Err(e) => e == Error::ExhaustedCandidates && excluded@.len() == doors,
        },
{
    let s = sort_doors(excluded);
    proof {
        if s@.len() > 0 {
            lemma_strict_spread(s@, 0, s@.len() - 1);
            assert(s@.contains(s@[0]));
            assert(s@.contains(s@[s@.len() - 1]));
        }
    }
    assert(s@.len() <= doors);
    if s.len() >= doors as usize {
        return Err(Error::ExhaustedCandidates);
    }
    let k = s.len() as u32;
    let r0 = gna.randrange(1, doors - k);
    let d = apply_shifts(&s, doors, r0);
    proof {
        if excluded@.contains(d) {
            assert(s@.contains(d));
            let p = choose|p: int| 0 <= p < s@.len() && #[trigger] s@[p] == d;
            assert(false);
        }
    }
    Ok(d)
}

/// Draws one door among `1..=portes`, no exclusion.
pub fn choix(gna: &mut Gna, portes: u32) -> (r: u32)
    requires
        portes >= 1,
    ensures
        1 <= r <= portes,
{
    gna.randrange(1, portes)
}

/// Draws one door among `1..=portes` other than `a`, by rejection
/// sampling: full-range draws are repeated until one misses `a`.  The
/// attempts are bounded so that the function provably returns; if every
/// attempt hit `a`, the equally uniform shifted draw decides, which
/// leaves the distribution over the candidates uniform.
pub fn choix_autre(gna: &mut Gna, portes: u32, a: u32) -> (r: u32)
    requires
        portes >= 2,
        1 <= a <= portes,
    ensures
        1 <= r <= portes,
        r != a,
{
    let mut tries: u32 = 0;
    while tries < 32
        invariant
            portes >= 2,
            1 <= a <= portes,
        decreases 32 - tries,
    {
        let r = choix(gna, portes);
        if r != a {
            return r;
        }
        tries += 1;
    }
    gna.choix_autre(portes, a)
}

/// Draws one door among `1..=portes` other than `a` and `b`, by the
/// same bounded rejection sampling with a shifted-draw fallback.
pub fn choix_autre_autre(gna: &mut Gna, portes: u32, a: u32, b: u32) -> (r: u32)
    requires
        portes >= 3,
        1 <= a <= portes,
        1 <= b <= portes,
        a != b,
    ensures
        1 <= r <= portes,
        r != a,
        r != b,
{
    let mut tries: u32 = 0;
    while tries < 32
        invariant
            portes >= 3,
            1 <= a <= portes,
            1 <= b <= portes,
            a != b,
        decreases 32 - tries,
    {
        let r = choix(gna, portes);
        if r != a && r != b {
            return r;
        }
        tries += 1;
    }
    gna.choix_autre_autre(portes, a, b)
}

} // verus!
