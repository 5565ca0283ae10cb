use crate::gem::Gem;
use crate::gems::Gems;
use vstd::prelude::*;

verus! {

/// `p` pays at most what `cost` asks and what `wallet` holds in each of the
/// first `k` card colours (in canonical order).
pub open spec fn in_range(cost: Gems, wallet: Gems, p: Gems, k: int) -> bool {
    (k > 0 ==> 0 <= p.onyx <= cost.onyx && p.onyx <= wallet.onyx) && (k > 1 ==> 0 <= p.sapphire
        <= cost.sapphire && p.sapphire <= wallet.sapphire) && (k > 2 ==> 0 <= p.emerald
        <= cost.emerald && p.emerald <= wallet.emerald) && (k > 3 ==> 0 <= p.ruby <= cost.ruby
        && p.ruby <= wallet.ruby) && (k > 4 ==> 0 <= p.diamond <= cost.diamond && p.diamond
        <= wallet.diamond)
}

/// `x` and `p` agree in the first `k` card colours.
pub open spec fn agrees(x: Gems, p: Gems, k: int) -> bool {
    (k > 0 ==> x.onyx == p.onyx) && (k > 1 ==> x.sapphire == p.sapphire) && (k > 2 ==> x.emerald
        == p.emerald) && (k > 3 ==> x.ruby == p.ruby) && (k > 4 ==> x.diamond == p.diamond)
}

/// `p` exactly pays the gold-free `cost` out of `wallet`: each colour is paid with
/// tokens of that colour, and gold fills every remaining unit.
pub open spec fn is_payment(cost: Gems, wallet: Gems, p: Gems) -> bool {
    in_range(cost, wallet, p, 5) && p.gold == cost.colored_total() - p.colored_total() && 0
        <= p.gold <= wallet.gold
}

/// The gold that `wallet` needs to cover the gold-free `cost`.
pub open spec fn deficit(cost: Gems, wallet: Gems) -> int {
    crate::card::sat_sub(cost.onyx as int, wallet.onyx as int) + crate::card::sat_sub(
        cost.sapphire as int,
        wallet.sapphire as int,
    ) + crate::card::sat_sub(cost.emerald as int, wallet.emerald as int) + crate::card::sat_sub(
        cost.ruby as int,
        wallet.ruby as int,
    ) + crate::card::sat_sub(cost.diamond as int, wallet.diamond as int)
}

/// `wallet` can pay `cost`: its gold covers what its coloured tokens lack.
pub open spec fn affordable(cost: Gems, wallet: Gems) -> bool {
    deficit(cost, wallet) <= wallet.gold
}

/// The payment that spends coloured tokens first and gold only for what is missing.
pub open spec fn greedy_payment(cost: Gems, wallet: Gems) -> Gems {
    Gems {
        onyx: if cost.onyx <= wallet.onyx { cost.onyx } else { wallet.onyx },
        sapphire: if cost.sapphire <= wallet.sapphire { cost.sapphire } else { wallet.sapphire },
        emerald: if cost.emerald <= wallet.emerald { cost.emerald } else { wallet.emerald },
        ruby: if cost.ruby <= wallet.ruby { cost.ruby } else { wallet.ruby },
        diamond: if cost.diamond <= wallet.diamond { cost.diamond } else { wallet.diamond },
        gold: deficit(cost, wallet) as i8,
    }
}

/// The shape of a price: gold-free, each count in `0..=7`.
pub open spec fn is_price(cost: Gems) -> bool {
    cost.is_legal() && cost.gold == 0 && cost.onyx <= 7 && cost.sapphire <= 7 && cost.emerald <= 7
        && cost.ruby <= 7 && cost.diamond <= 7
}

/// A wallet: no count is negative and none above 100.
pub open spec fn is_wallet(w: Gems) -> bool {
    w.is_legal() && w.onyx <= 100 && w.sapphire <= 100 && w.emerald <= 100 && w.ruby <= 100
        && w.diamond <= 100 && w.gold <= 100
}

/// A card can be bought exactly when some payment for it exists.
pub proof fn lemma_affordable_iff_payment(cost: Gems, wallet: Gems)
    requires
        is_price(cost),
        is_wallet(wallet),
    ensures
        affordable(cost, wallet) <==> exists|p: Gems| is_payment(cost, wallet, p),
        affordable(cost, wallet) ==> is_payment(cost, wallet, greedy_payment(cost, wallet)),
{
    if affordable(cost, wallet) {
        assert(is_payment(cost, wallet, greedy_payment(cost, wallet)));
    }
    if exists|p: Gems| is_payment(cost, wallet, p) {
        let p = choose|p: Gems| is_payment(cost, wallet, p);
        assert(affordable(cost, wallet));
    }
}

/// The colour at a position of the canonical order.
fn gem_at(k: usize) -> (g: Gem)
    requires
        k < 6,
    ensures
        g == Gem::from_index(k as int),
{
    if k == 0 {
        Gem::Onyx
    } else if k == 1 {
        Gem::Sapphire
    } else if k == 2 {
        Gem::Emerald
    } else if k == 3 {
        Gem::Ruby
    } else if k == 4 {
        Gem::Diamond
    } else {
        Gem::Gold
    }
}

/// Appends to `out` every payment that agrees with `partial` in the first `k` colours.
fn collect_payments(cost: &Gems, wallet: &Gems, k: usize, partial: Gems, out: &mut Vec<Gems>)
    requires
        k <= 5,
        is_price(*cost),
        is_wallet(*wallet),
        in_range(*cost, *wallet, partial, k as int),
        forall|i: int| 0 <= i < old(out)@.len() ==> !agrees(#[trigger] old(out)@[i], partial, k as int),
        old(out)@.no_duplicates(),
    ensures
        final(out)@.len() >= old(out)@.len(),
        final(out)@.subrange(0, old(out)@.len() as int) == old(out)@,
        final(out)@.no_duplicates(),
        forall|i: int|
            old(out)@.len() <= i < final(out)@.len() ==> is_payment(*cost, *wallet, #[trigger] final(out)@[i])
                && agrees(final(out)@[i], partial, k as int),
        forall|x: Gems|
            is_payment(*cost, *wallet, x) && agrees(x, partial, k as int) ==> #[trigger] final(out)@.contains(x),
    decreases 5 - k,
{
    if k == 5 {
        let paid = partial.onyx + partial.sapphire + partial.emerald + partial.ruby + partial.diamond;
        let owed = cost.onyx + cost.sapphire + cost.emerald + cost.ruby + cost.diamond;
        let gold = owed - paid;
        if gold <= wallet.gold {
            let mut p = partial;
            p.gold = gold;
            proof {
                assert forall|x: Gems| is_payment(*cost, *wallet, x) && agrees(x, partial, 5) implies x == p by {}
            }
            out.push(p);
            proof {
                assert forall|x: Gems| is_payment(*cost, *wallet, x) && agrees(x, partial, 5) implies #[trigger] out@.contains(x) by {
                    assert(out@[out@.len() - 1] == x);
                }
                assert(out@.subrange(0, old(out)@.len() as int) =~= old(out)@);
            }
        } else {
            assert(out@.subrange(0, old(out)@.len() as int) =~= old(out)@);
        }
        return;
    }
    let g = gem_at(k);
    let c = cost.get(g);
    let w = wallet.get(g);
    let hi: i8 = if c <= w { c } else { w };
    let start_len = out.len();
    let mut v: i8 = 0;
    while v <= hi
        invariant
            k < 5,
            0 <= v <= hi + 1,
            0 <= hi <= 7,
            g == Gem::from_index(k as int),
            hi == (if cost.count(g) <= wallet.count(g) { cost.count(g) } else { wallet.count(g) }),
            is_price(*cost),
            is_wallet(*wallet),
            in_range(*cost, *wallet, partial, k as int),
            start_len == old(out)@.len(),
            out@.len() >= start_len,
            out@.subrange(0, start_len as int) == old(out)@,
            out@.no_duplicates(),
            forall|i: int| 0 <= i < start_len ==> !agrees(#[trigger] out@[i], partial, k as int),
            forall|i: int|
                start_len <= i < out@.len() ==> is_payment(*cost, *wallet, #[trigger] out@[i])
                    && agrees(out@[i], partial, k as int) && out@[i].count(g) < v,
            forall|x: Gems|
                is_payment(*cost, *wallet, x) && agrees(x, partial, k as int) && x.count(g) < v
                    ==> #[trigger] out@.contains(x),
        decreases hi + 1 - v,
    {
        let mut next = partial;
        next.set(g, v);
        proof {
            assert(in_range(*cost, *wallet, next, k + 1));
            assert forall|i: int| 0 <= i < out@.len() implies !agrees(#[trigger] out@[i], next, k + 1) by {
                if i < start_len {
                    assert(out@.subrange(0, start_len as int)[i] == out@[i]);
                }
            }
        }
        let ghost before = out@;
        collect_payments(cost, wallet, k + 1, next, out);
        proof {
            assert forall|i: int| start_len <= i < out@.len() implies is_payment(*cost, *wallet, #[trigger] out@[i])
                && agrees(out@[i], partial, k as int) && out@[i].count(g) < v + 1 by {
                if i < before.len() {
                    assert(out@.subrange(0, before.len() as int)[i] == out@[i]);
                }
            }
            assert forall|i: int| 0 <= i < start_len implies !agrees(#[trigger] out@[i], partial, k as int) by {
                assert(out@.subrange(0, before.len() as int)[i] == out@[i]);
            }
            assert forall|x: Gems| is_payment(*cost, *wallet, x) && agrees(x, partial, k as int) && x.count(g) < v + 1
                implies #[trigger] out@.contains(x) by {
                if x.count(g) < v {
                    assert(before.contains(x));
                    let j = choose|j: int| 0 <= j < before.len() && before[j] == x;
                    assert(out@.subrange(0, before.len() as int)[j] == out@[j]);
                } else {
                    assert(agrees(x, next, k + 1));
                }
            }
            assert(out@.subrange(0, start_len as int) =~= old(out)@) by {
                assert forall|i: int| 0 <= i < start_len implies out@[i] == old(out)@[i] by {
                    assert(out@.subrange(0, before.len() as int)[i] == out@[i]);
                    assert(before[i] == before.subrange(0, start_len as int)[i]);
                }
            }
        }
        v = v + 1;
    }
    proof {
        assert forall|x: Gems| is_payment(*cost, *wallet, x) && agrees(x, partial, k as int)
            implies #[trigger] out@.contains(x) by {
            assert(x.count(g) < v);
        }
    }
}

/// Every distinct payment of the gold-free `cost` out of `wallet`.
pub fn payments_for(cost: &Gems, wallet: &Gems) -> (r: Vec<Gems>)
    requires
        is_price(*cost),
        is_wallet(*wallet),
    ensures
        r@.no_duplicates(),
        forall|x: Gems| #[trigger] r@.contains(x) <==> is_payment(*cost, *wallet, x),
{
    let mut out: Vec<Gems> = Vec::new();
    collect_payments(cost, wallet, 0, Gems::empty(), &mut out);
    proof {
        assert forall|x: Gems| #[trigger] out@.contains(x) implies is_payment(*cost, *wallet, x) by {
            let j = choose|j: int| 0 <= j < out@.len() && out@[j] == x;
        }
    }
    out
}

} // verus!
