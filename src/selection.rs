use crate::gem::Gem;
use crate::gems::Gems;
use vstd::prelude::*;

verus! {

/// `lo <= x <= hi` in the first `k` colours (canonical order, gold last).
pub open spec fn in_box(lo: Gems, hi: Gems, x: Gems, k: int) -> bool {
    (k > 0 ==> lo.onyx <= x.onyx <= hi.onyx) && (k > 1 ==> lo.sapphire <= x.sapphire
        <= hi.sapphire) && (k > 2 ==> lo.emerald <= x.emerald <= hi.emerald) && (k > 3 ==> lo.ruby
        <= x.ruby <= hi.ruby) && (k > 4 ==> lo.diamond <= x.diamond <= hi.diamond) && (k > 5
        ==> lo.gold <= x.gold <= hi.gold)
}

/// `x` and `p` agree in the first `k` colours (gold last).
pub open spec fn agrees_upto(x: Gems, p: Gems, k: int) -> bool {
    (k > 0 ==> x.onyx == p.onyx) && (k > 1 ==> x.sapphire == p.sapphire) && (k > 2 ==> x.emerald
        == p.emerald) && (k > 3 ==> x.ruby == p.ruby) && (k > 4 ==> x.diamond == p.diamond) && (k
        > 5 ==> x.gold == p.gold)
}

/// `x` lies between `lo` and `hi` and exceeds `lo` by `n` tokens in all.
pub open spec fn box_member(lo: Gems, hi: Gems, n: int, x: Gems) -> bool {
    in_box(lo, hi, x, 6) && x.total_spec() - lo.total_spec() == n
}

/// Counts between 0 and 10.
pub open spec fn tiny(g: Gems) -> bool {
    0 <= g.onyx <= 10 && 0 <= g.sapphire <= 10 && 0 <= g.emerald <= 10 && 0 <= g.ruby <= 10 && 0
        <= g.diamond <= 10 && 0 <= g.gold <= 10
}

/// Counts between 0 and 20.
pub open spec fn small(g: Gems) -> bool {
    0 <= g.onyx <= 20 && 0 <= g.sapphire <= 20 && 0 <= g.emerald <= 20 && 0 <= g.ruby <= 20 && 0
        <= g.diamond <= 20 && 0 <= g.gold <= 20
}

fn gem_at(k: usize) -> (g: Gem)
    requires
        k < 6,
    ensures
        g == Gem::from_index(k as int),
{
    if k == 0 {
        Gem::Onyx
    } else if k == 1 {
        Gem::Sapphire
    } else if k == 2 {
        Gem::Emerald
    } else if k == 3 {
        Gem::Ruby
    } else if k == 4 {
        Gem::Diamond
    } else {
        Gem::Gold
    }
}

/// Appends to `out` every member of the box that agrees with `partial` in the first `k` colours.
fn collect_box(lo: &Gems, hi: &Gems, n: i8, k: usize, partial: Gems, out: &mut Vec<Gems>)
    requires
        k <= 6,
        small(*lo),
        small(*hi),
        0 <= n <= 120,
        in_box(*lo, *hi, partial, k as int),
        forall|i: int| 0 <= i < old(out)@.len() ==> !agrees_upto(#[trigger] old(out)@[i], partial, k as int),
        old(out)@.no_duplicates(),
    ensures
        final(out)@.len() >= old(out)@.len(),
        final(out)@.subrange(0, old(out)@.len() as int) == old(out)@,
        final(out)@.no_duplicates(),
        forall|i: int|
            old(out)@.len() <= i < final(out)@.len() ==> box_member(*lo, *hi, n as int, #[trigger] final(out)@[i])
                && agrees_upto(final(out)@[i], partial, k as int),
        forall|x: Gems|
            box_member(*lo, *hi, n as int, x) && agrees_upto(x, partial, k as int) ==> #[trigger] final(out)@.contains(x),
    decreases 6 - k,
{
    if k == 6 {
        let got = partial.onyx + partial.sapphire + partial.emerald + partial.ruby + partial.diamond + partial.gold;
        let base = lo.onyx + lo.sapphire + lo.emerald + lo.ruby + lo.diamond + lo.gold;
        if got - base == n {
            proof {
                assert forall|x: Gems| box_member(*lo, *hi, n as int, x) && agrees_upto(x, partial, 6) implies x == partial by {}
            }
            out.push(partial);
            proof {
                assert forall|x: Gems| box_member(*lo, *hi, n as int, x) && agrees_upto(x, partial, 6) implies #[trigger] out@.contains(x) by {
                    assert(out@[out@.len() - 1] == x);
                }
                assert(out@.subrange(0, old(out)@.len() as int) =~= old(out)@);
            }
        } else {
            assert(out@.subrange(0, old(out)@.len() as int) =~= old(out)@);
        }
        return;
    }
    let g = gem_at(k);
    let l = lo.get(g);
    let h = hi.get(g);
    let start_len = out.len();
    let mut v: i8 = l;
    while v <= h
        invariant
            k < 6,
            l <= v,
            v <= h + 1 || v == l,
            g == Gem::from_index(k as int),
            l == lo.count(g),
            h == hi.count(g),
            small(*lo),
            small(*hi),
            0 <= n <= 120,
            in_box(*lo, *hi, partial, k as int),
            start_len == old(out)@.len(),
            out@.len() >= start_len,
            out@.subrange(0, start_len as int) == old(out)@,
            out@.no_duplicates(),
            forall|i: int| 0 <= i < start_len ==> !agrees_upto(#[trigger] out@[i], partial, k as int),
            forall|i: int|
                start_len <= i < out@.len() ==> box_member(*lo, *hi, n as int, #[trigger] out@[i])
                    && agrees_upto(out@[i], partial, k as int) && out@[i].count(g) < v,
            forall|x: Gems|
                box_member(*lo, *hi, n as int, x) && agrees_upto(x, partial, k as int) && x.count(g) < v
                    ==> #[trigger] out@.contains(x),
        decreases h + 1 - v,
    {
        let mut next = partial;
        next.set(g, v);
        proof {
            assert(in_box(*lo, *hi, next, k + 1));
            assert forall|i: int| 0 <= i < out@.len() implies !agrees_upto(#[trigger] out@[i], next, k + 1) by {
                if i < start_len {
                    assert(out@.subrange(0, start_len as int)[i] == out@[i]);
                }
            }
        }
        let ghost before = out@;
        collect_box(lo, hi, n, k + 1, next, out);
        proof {
            assert forall|i: int| start_len <= i < out@.len() implies box_member(*lo, *hi, n as int, #[trigger] out@[i])
                && agrees_upto(out@[i], partial, k as int) && out@[i].count(g) < v + 1 by {
                if i < before.len() {
                    assert(out@.subrange(0, before.len() as int)[i] == out@[i]);
                }
            }
            assert forall|i: int| 0 <= i < start_len implies !agrees_upto(#[trigger] out@[i], partial, k as int) by {
                assert(out@.subrange(0, before.len() as int)[i] == out@[i]);
            }
            assert forall|x: Gems| box_member(*lo, *hi, n as int, x) && agrees_upto(x, partial, k as int) && x.count(g) < v + 1
                implies #[trigger] out@.contains(x) by {
                if x.count(g) < v {
                    assert(before.contains(x));
                    let j = choose|j: int| 0 <= j < before.len() && before[j] == x;
                    assert(out@.subrange(0, before.len() as int)[j] == out@[j]);
                } else {
                    assert(agrees_upto(x, next, k + 1));
                }
            }
            assert(out@.subrange(0, start_len as int) =~= old(out)@) by {
                assert forall|i: int| 0 <= i < start_len implies out@[i] == old(out)@[i] by {
                    assert(out@.subrange(0, before.len() as int)[i] == out@[i]);
                    assert(before[i] == before.subrange(0, start_len as int)[i]);
                }
            }
        }
        v = v + 1;
    }
    proof {
        assert forall|x: Gems| box_member(*lo, *hi, n as int, x) && agrees_upto(x, partial, k as int)
            implies #[trigger] out@.contains(x) by {
            assert(x.count(g) < v);
        }
    }
}

/// Every vector between `lo` and `hi` that exceeds `lo` by `n` tokens, each once.
pub fn members_of_box(lo: &Gems, hi: &Gems, n: i8) -> (r: Vec<Gems>)
    requires
        small(*lo),
        small(*hi),
        0 <= n <= 120,
    ensures
        r@.no_duplicates(),
        forall|x: Gems| #[trigger] r@.contains(x) <==> box_member(*lo, *hi, n as int, x),
{
    let mut out: Vec<Gems> = Vec::new();
    collect_box(lo, hi, n, 0, *lo, &mut out);
    proof {
        assert forall|x: Gems| #[trigger] out@.contains(x) implies box_member(*lo, *hi, n as int, x) by {
            let j = choose|j: int| 0 <= j < out@.len() && out@[j] == x;
        }
    }
    out
}

} // verus!
