//! Properties of the rules engine that hold of every game state.
use crate::action::{Action, Phase};
use crate::game::Game;
use crate::gem::Gem;
use crate::gems::Gems;
use crate::card::CardId;
use crate::player::{Player, MAX_RESERVED};
use crate::rules::phase_accepts;
use vstd::prelude::*;

verus! {

/// In a valid game every token is in the bank or with a player, as many of each
/// colour as the starting bank holds, and no player reserves more than three cards.
pub proof fn lemma_valid_game_keeps_tokens_and_reserve_cap(g: Game)
    requires
        g.wf(),
    ensures
        forall|c: Gem| #[trigger]
            g.bank.count(c) + crate::game::held(g.players@, c) == Gems::start_spec(
                g.num_players(),
            ).count(c),
        forall|i: int|
            0 <= i < g.num_players() ==> (#[trigger] g.players@[i]).reserved@.len() <= MAX_RESERVED,
{
    assert forall|i: int| 0 <= i < g.num_players() implies (#[trigger] g.players@[i]).reserved@.len()
        <= MAX_RESERVED by {
        assert(g.players@[i].wf());
    }
}

/// An action that may be played is one of the kinds that the current phase takes.
pub proof fn lemma_legal_action_fits_phase(g: Game, a: Action)
    requires
        g.wf(),
        g.legal_action(a),
    ensures
        phase_accepts(g.current_phase, a),
{
}

/// Which actions may be played depends on the game state alone.
pub proof fn lemma_legal_actions_depend_on_state(g1: Game, g2: Game, a: Action)
    requires
        g1 == g2,
    ensures
        g1.legal_action(a) == g2.legal_action(a),
{
}

/// With fewer than three non-empty card-colour piles, taking distinct tokens
/// takes exactly one from each non-empty pile.
pub proof fn lemma_take_distinct_from_few_piles(g: Game, s: Gems)
    requires
        g.wf(),
        g.legal_action(Action::TakeDistinct(s)),
        g.bank.distinct_spec() < 3,
    ensures
        s.total_spec() == g.bank.distinct_spec(),
        s.gold == 0,
        s.onyx == (if g.bank.onyx > 0 { 1int } else { 0int }),
        s.sapphire == (if g.bank.sapphire > 0 { 1int } else { 0int }),
        s.emerald == (if g.bank.emerald > 0 { 1int } else { 0int }),
        s.ruby == (if g.bank.ruby > 0 { 1int } else { 0int }),
        s.diamond == (if g.bank.diamond > 0 { 1int } else { 0int }),
{
}

/// Two tokens of one colour may be taken only from a pile of at least four, and never gold.
pub proof fn lemma_take_double_needs_four(g: Game, c: Gem)
    requires
        g.wf(),
        g.legal_action(Action::TakeDouble(c)),
    ensures
        c != Gem::Gold,
        g.bank.count(c) >= 4,
{
}

/// A card cannot be reserved blind from an empty deck.
pub proof fn lemma_no_blind_reserve_from_empty_deck(g: Game, t: usize)
    requires
        g.wf(),
        t < 3,
        g.decks@[t as int]@.len() == 0,
    ensures
        !g.legal_action(Action::ReserveHidden(t)),
{
}

/// After two passes by every player the game is over.
pub proof fn lemma_deadlock_ends_game(g: Game)
    requires
        g.wf(),
        g.deadlock_count == 2 * g.num_players(),
    ensures
        g.over(),
        forall|a: Action| !g.legal_action(a),
{
}

/// Passing at the start of a turn is allowed only when nothing else is.
pub proof fn lemma_pass_only_when_stuck(g: Game, b: Action)
    requires
        g.wf(),
        g.current_phase == Phase::PlayerStart,
        g.legal_action(Action::Pass),
    ensures
        !g.legal_in_start(b),
{
}

/// Two players agree in everything they hold.
pub open spec fn same_player(p: Player, q: Player) -> bool {
    p.points == q.points && p.noble_points == q.noble_points && p.reserved@ == q.reserved@
        && p.gems == q.gems && p.developments == q.developments && p.blind_reserved@
        == q.blind_reserved@
}

/// Two games agree in everything that play can observe or change.
pub open spec fn same_state(a: Game, b: Game) -> bool {
    a.players@.len() == b.players@.len() && (forall|i: int|
        0 <= i < a.players@.len() ==> same_player(#[trigger] a.players@[i], b.players@[i]))
        && a.bank == b.bank && a.decks@.len() == b.decks@.len() && (forall|t: int|
        0 <= t < a.decks@.len() ==> (#[trigger] a.decks@[t])@ == b.decks@[t]@)
        && a.dealt_cards@.len() == b.dealt_cards@.len() && (forall|t: int|
        0 <= t < a.dealt_cards@.len() ==> (#[trigger] a.dealt_cards@[t])@ == b.dealt_cards@[t]@)
        && a.nobles@ == b.nobles@ && a.current_player == b.current_player && a.current_phase
        == b.current_phase && a.history.history@ == b.history.history@ && a.deadlock_count
        == b.deadlock_count && a.card_lookup@ == b.card_lookup@
}

/// In a valid game a face-up card lies at one place of one row.
proof fn lemma_face_up_place(g: Game, id: CardId, t1: int, i1: int, t2: int, i2: int)
    requires
        g.wf(),
        0 <= t1 < 3 && 0 <= i1 < g.dealt_cards@[t1]@.len() && g.dealt_cards@[t1]@[i1] == id,
        0 <= t2 < 3 && 0 <= i2 < g.dealt_cards@[t2]@.len() && g.dealt_cards@[t2]@[i2] == id,
    ensures
        t1 == t2 && i1 == i2,
{
    assert(crate::game::dealt_id_ok(g.dealt_cards@[t1]@[i1], t1));
    assert(crate::game::dealt_id_ok(g.dealt_cards@[t2]@[i2], t2));
    assert(g.dealt_cards@[t1]@.no_duplicates());
}

/// Playing the same legal action from two games that agree leads to two games
/// that agree: the outcome of an action is fixed by the state it is played in.
pub proof fn lemma_play_is_deterministic(a: Game, b: Game, a2: Game, b2: Game, action: Action)
    requires
        a.wf(),
        b.wf(),
        same_state(a, b),
        a.legal_action(action),
        a.step_effects(action, &a2),
        b.step_effects(action, &b2),
    ensures
        same_state(a2, b2),
{
    assert(a.me() == a.players@[a.current_player as int]);
    assert(same_player(a.me(), b.me()));
    assert(a.tokens_taken(action) == b.tokens_taken(action));
    assert forall|i: int| 0 <= i < a2.players@.len() implies same_player(#[trigger] a2.players@[i], b2.players@[i]) by {
        if i != a.current_player {
            assert(same_player(a.players@[i], b.players@[i]));
        }
    }
    match action {
        Action::Reserve(id) => {
            lemma_board_took_same(a, b, a2, b2, id);
        },
        Action::Purchase(id, _) => {
            if a.on_board(id) {
                lemma_board_took_same(a, b, a2, b2, id);
            }
        },
        Action::AttractNoble(nid) => {
            let i = choose|i: int| 0 <= i < a.nobles@.len() && a.nobles@[i].id == nid
                && (forall|j: int| 0 <= j < i ==> (#[trigger] a.nobles@[j]).id != nid)
                && a2.nobles@ == a.nobles@.remove(i);
            let k = choose|k: int| 0 <= k < b.nobles@.len() && b.nobles@[k].id == nid
                && (forall|j: int| 0 <= j < k ==> (#[trigger] b.nobles@[j]).id != nid)
                && b2.nobles@ == b.nobles@.remove(k);
            if i < k {
                assert(b.nobles@[i].id != nid);
            } else if k < i {
                assert(a.nobles@[k].id != nid);
            }
        },
        _ => {},
    }
}

/// Taking the same face-up card from two boards that agree leaves boards that agree.
proof fn lemma_board_took_same(a: Game, b: Game, a2: Game, b2: Game, id: CardId)
    requires
        a.wf(),
        same_state(a, b),
        a.board_took(&a2, id),
        b.board_took(&b2, id),
    ensures
        a2.decks@.len() == b2.decks@.len(),
        forall|t: int| 0 <= t < a2.decks@.len() ==> (#[trigger] a2.decks@[t])@ == b2.decks@[t]@,
        a2.dealt_cards@.len() == b2.dealt_cards@.len(),
        forall|t: int| 0 <= t < a2.dealt_cards@.len() ==> (#[trigger] a2.dealt_cards@[t])@ == b2.dealt_cards@[t]@,
{
    let (t1, i1) = choose|t: int, i: int|
        0 <= t < 3 && 0 <= i < a.dealt_cards@[t]@.len() && a.dealt_cards@[t]@[i] == id
            && a2.dealt_cards@[t]@ == (if a.decks@[t]@.len() > 0 {
            a.dealt_cards@[t]@.remove(i).push(a.decks@[t]@.last().id)
        } else {
            a.dealt_cards@[t]@.remove(i)
        }) && a2.decks@[t]@ == (if a.decks@[t]@.len() > 0 {
            a.decks@[t]@.drop_last()
        } else {
            a.decks@[t]@
        }) && forall|u: int|
            0 <= u < 3 && u != t ==> (#[trigger] a2.decks@[u])@ == a.decks@[u]@
                && a2.dealt_cards@[u]@ == a.dealt_cards@[u]@;
    let (t2, i2) = choose|t: int, i: int|
        0 <= t < 3 && 0 <= i < b.dealt_cards@[t]@.len() && b.dealt_cards@[t]@[i] == id
            && b2.dealt_cards@[t]@ == (if b.decks@[t]@.len() > 0 {
            b.dealt_cards@[t]@.remove(i).push(b.decks@[t]@.last().id)
        } else {
            b.dealt_cards@[t]@.remove(i)
        }) && b2.decks@[t]@ == (if b.decks@[t]@.len() > 0 {
            b.decks@[t]@.drop_last()
        } else {
            b.decks@[t]@
        }) && forall|u: int|
            0 <= u < 3 && u != t ==> (#[trigger] b2.decks@[u])@ == b.decks@[u]@
                && b2.dealt_cards@[u]@ == b.dealt_cards@[u]@;
    assert(b.dealt_cards@[t2]@ == a.dealt_cards@[t2]@);
    lemma_face_up_place(a, id, t1, i1, t2, i2);
    assert forall|t: int| 0 <= t < 3 implies (#[trigger] a2.decks@[t])@ == b2.decks@[t]@ by {
        assert(a.decks@[t]@ == b.decks@[t]@);
    }
    assert forall|t: int| 0 <= t < 3 implies (#[trigger] a2.dealt_cards@[t])@ == b2.dealt_cards@[t]@ by {
        assert(a.decks@[t]@ == b.decks@[t]@);
        assert(a.dealt_cards@[t]@ == b.dealt_cards@[t]@);
        if t == t1 {
            assert(t2 == t1 && i2 == i1);
            if a.decks@[t]@.len() > 0 {
                assert(a.decks@[t]@.last() == b.decks@[t]@.last());
                assert(a2.dealt_cards@[t]@ == a.dealt_cards@[t]@.remove(i1).push(a.decks@[t]@.last().id));
                assert(b2.dealt_cards@[t]@ == b.dealt_cards@[t]@.remove(i1).push(b.decks@[t]@.last().id));
            } else {
                assert(b2.dealt_cards@[t]@ == b.dealt_cards@[t]@.remove(i1));
            }
        } else {
            assert(t != t2);
            assert(a2.decks@[t]@ == a.decks@[t]@);
            assert(b2.decks@[t]@ == b.decks@[t]@);
            assert(a2.dealt_cards@[t]@ == a.dealt_cards@[t]@);
            assert(b2.dealt_cards@[t]@ == b.dealt_cards@[t]@);
        }
    }
}

/// `h` is reached from `g` by playing the actions of `acts` in order, each legal
/// when played.
pub open spec fn runs(g: Game, acts: Seq<Action>, h: Game) -> bool
    decreases acts.len(),
{
    if acts.len() == 0 {
        same_state(g, h)
    } else {
        exists|m: Game| runs(g, acts.drop_last(), m) && m.wf() && m.legal_action(acts.last())
            && #[trigger] m.step_effects(acts.last(), &h)
    }
}

/// Every game agrees with itself.
pub proof fn lemma_same_state_refl(g: Game)
    ensures
        same_state(g, g),
{
}

/// Replay: playing the same actions from games that agree reaches games that
/// agree, so replaying a log from the initial state reproduces the state seen
/// after each of its actions.
pub proof fn lemma_replay_reproduces(g: Game, g2: Game, acts: Seq<Action>, h: Game, h2: Game)
    requires
        g.wf(),
        g2.wf(),
        same_state(g, g2),
        runs(g, acts, h),
        runs(g2, acts, h2),
    ensures
        same_state(h, h2),
    decreases acts.len(),
{
    if acts.len() == 0 {
        assert forall|i: int| 0 <= i < h.players@.len() implies same_player(#[trigger] h.players@[i], h2.players@[i]) by {
            assert(same_player(g.players@[i], h.players@[i]));
            assert(same_player(g2.players@[i], h2.players@[i]));
            assert(same_player(g.players@[i], g2.players@[i]));
        }
        assert forall|t: int| 0 <= t < h.decks@.len() implies (#[trigger] h.decks@[t])@ == h2.decks@[t]@ by {
            assert(g.decks@[t]@ == h.decks@[t]@);
            assert(g2.decks@[t]@ == h2.decks@[t]@);
            assert(g.decks@[t]@ == g2.decks@[t]@);
        }
        assert forall|t: int| 0 <= t < h.dealt_cards@.len() implies (#[trigger] h.dealt_cards@[t])@ == h2.dealt_cards@[t]@ by {
            assert(g.dealt_cards@[t]@ == h.dealt_cards@[t]@);
            assert(g2.dealt_cards@[t]@ == h2.dealt_cards@[t]@);
            assert(g.dealt_cards@[t]@ == g2.dealt_cards@[t]@);
        }
    } else {
        assert(exists|m: Game| runs(g, acts.drop_last(), m) && m.wf() && m.legal_action(acts.last())
            && #[trigger] m.step_effects(acts.last(), &h));
        assert(exists|m: Game| runs(g2, acts.drop_last(), m) && m.wf() && m.legal_action(acts.last())
            && #[trigger] m.step_effects(acts.last(), &h2));
        let m = choose|m: Game| runs(g, acts.drop_last(), m) && m.wf() && m.legal_action(acts.last())
            && #[trigger] m.step_effects(acts.last(), &h);
        let m2 = choose|m: Game| runs(g2, acts.drop_last(), m) && m.wf() && m.legal_action(acts.last())
            && #[trigger] m.step_effects(acts.last(), &h2);
        lemma_replay_reproduces(g, g2, acts.drop_last(), m, m2);
        lemma_play_is_deterministic(m, m2, h, h2, acts.last());
    }
}

} // verus!
