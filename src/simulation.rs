use vstd::prelude::*;

use crate::contestant::Contestant;
use crate::round::{
    change_door, chek_if_won, choose_door, monty_open_door, new_doors, prize_at, select_door,
    selected_at, open_at, won, lemma_switch_moves_selection, DOOR_COUNT,
};

verus! {

/// The contestant wins a round with the prize behind door `prize`: a keeper
/// wins when the first pick was the prize door, a switcher when it was not.
pub open spec fn round_won(prize: int, c: Contestant) -> bool {
    c.changes_door != (prize == c.choice)
}

/// How many of the rounds, one per prize door in `prizes`, the contestant wins.
pub open spec fn wins(prizes: Seq<usize>, c: Contestant) -> nat
    decreases prizes.len(),
{
    if prizes.len() == 0 {
        0
    } else {
        wins(prizes.drop_last(), c) + if round_won(prizes.last() as int, c) {
            1nat
        } else {
            0nat
        }
    }
}

/// Plays one whole round with the prize behind door `prize`: the contestant
/// picks, the host opens a safe door, the contestant switches or not, and the
/// result tells whether the selected door holds the prize.
pub fn run_round(prize: usize, contestant: &Contestant) -> (r: bool)
    requires
        prize < DOOR_COUNT,
        contestant.choice < DOOR_COUNT,
    ensures
        r == round_won(prize as int, *contestant),
{
    let mut doors = new_doors(prize);
    choose_door(&mut doors, contestant.choice);
    monty_open_door(&mut doors);
    let ghost revealed_doors = doors@;
    if contestant.changes_door {
        change_door(&mut doors);
    }
    let r = chek_if_won(&doors);
    proof {
        let c = contestant.choice as int;
        let p = prize as int;
        assert(prize_at(revealed_doors, p));
        assert(selected_at(revealed_doors, c));
        if contestant.changes_door {
            lemma_switch_moves_selection(revealed_doors, doors@);
            let k = choose|k: int|
                selected_at(doors@, k) && !doors@[k].spec_is_open()
                    && !revealed_doors[k].is_selected;
            let (p2, c2, o) = choose|p2: int, c2: int, o: int|
                prize_at(revealed_doors, p2) && selected_at(revealed_doors, c2)
                    && open_at(revealed_doors, o) && o != p2 && o != c2;
            assert(revealed_doors[p].has_prize);
            assert(revealed_doors[c].is_selected);
            assert(prize_at(doors@, p));
            if p != c {
                assert(doors@[p].has_prize);
                assert(k == p);
                assert(doors@[k].is_selected && doors@[k].has_prize);
            } else {
                assert(won(doors@) ==> doors@[p].is_selected);
            }
        } else {
            if p == c {
                assert(doors@[p].is_selected && doors@[p].has_prize);
            }
        }
    }
    r
}

/// Plays one round with the prize behind a door drawn uniformly at random.
pub fn play_round(contestant: &Contestant) -> (r: bool)
    requires
        contestant.choice < DOOR_COUNT,
    ensures
        exists|p: int| 0 <= p < 3 && r == round_won(p, *contestant),
{
    let prize = select_door(DOOR_COUNT);
    run_round(prize, contestant)
}

/// A contestant never wins more rounds than were played.
pub proof fn lemma_wins_at_most_rounds(prizes: Seq<usize>, c: Contestant)
    ensures
        wins(prizes, c) <= prizes.len(),
    decreases prizes.len(),
{
    if prizes.len() > 0 {
        lemma_wins_at_most_rounds(prizes.drop_last(), c);
    }
}

/// Plays one round for each prize door in `prizes` and counts the wins.
pub fn count_wins(contestant: &Contestant, prizes: &Vec<usize>) -> (r: usize)
    requires
        contestant.choice < DOOR_COUNT,
        forall|i: int| 0 <= i < prizes@.len() ==> #[trigger] prizes@[i] < DOOR_COUNT,
    ensures
        r == wins(prizes@, *contestant),
{
    let mut won: usize = 0;
    let mut i: usize = 0;
    while i < prizes.len()
        invariant
            i <= prizes@.len(),
            contestant.choice < DOOR_COUNT,
            forall|j: int| 0 <= j < prizes@.len() ==> #[trigger] prizes@[j] < DOOR_COUNT,
            won == wins(prizes@.take(i as int), *contestant),
        decreases prizes@.len() - i,
    {
        proof {
            lemma_wins_at_most_rounds(prizes@.take(i as int), *contestant);
            assert(prizes@.take(i as int + 1).drop_last() =~= prizes@.take(i as int));
        }
        if run_round(prizes[i], contestant) {
            won += 1;
        }
        i += 1;
    }
    assert(prizes@.take(i as int) =~= prizes@);
    won
}

/// Draws `trials` prize doors uniformly at random, one per round.
fn draw_prizes(trials: usize) -> (prizes: Vec<usize>)
    ensures
        prizes@.len() == trials,
        forall|i: int| 0 <= i < prizes@.len() ==> #[trigger] prizes@[i] < DOOR_COUNT,
{
    let mut prizes: Vec<usize> = Vec::new();
    let mut i: usize = 0;
    while i < trials
        invariant
            i <= trials,
            prizes@.len() == i,
            forall|j: int| 0 <= j < prizes@.len() ==> #[trigger] prizes@[j] < DOOR_COUNT,
        decreases trials - i,
    {
        let p = select_door(DOOR_COUNT);
        prizes.push(p);
        i += 1;
    }
    prizes
}

/// `n` is the number of wins of `c` over some `trials` rounds, with any prize doors.
pub open spec fn wins_of_some_draw(n: usize, trials: usize, c: Contestant) -> bool {
    exists|prizes: Seq<usize>|
        prizes.len() == trials && (forall|j: int| 0 <= j < trials ==> #[trigger] prizes[j] < 3)
            && n == #[trigger] wins(prizes, c)
}

/// Plays `trials` rounds for each contestant, in order, and gives each one's
/// number of wins. Each contestant gets rounds of its own, with prize doors
/// drawn uniformly at random.
pub fn simulation_wins(contestants: &[Contestant], trials: usize) -> (r: Vec<usize>)
    requires
        forall|i: int| 0 <= i < contestants@.len() ==> (#[trigger] contestants@[i]).choice
            < DOOR_COUNT,
    ensures
        r@.len() == contestants@.len(),
        forall|i: int| 0 <= i < r@.len()
            ==> wins_of_some_draw(#[trigger] r@[i], trials, contestants@[i]),
        forall|i: int| 0 <= i < r@.len() ==> #[trigger] r@[i] <= trials,
{
    let mut out: Vec<usize> = Vec::new();
    let mut i: usize = 0;
    while i < contestants.len()
        invariant
            i <= contestants@.len(),
            out@.len() == i,
            forall|k: int| 0 <= k < contestants@.len() ==> (#[trigger] contestants@[k]).choice
                < DOOR_COUNT,
            forall|k: int| 0 <= k < out@.len()
                ==> wins_of_some_draw(#[trigger] out@[k], trials, contestants@[k]),
            forall|k: int| 0 <= k < out@.len() ==> #[trigger] out@[k] <= trials,
        decreases contestants@.len() - i,
    {
        let prizes = draw_prizes(trials);
        let won = count_wins(&contestants[i], &prizes);
        proof {
            lemma_wins_at_most_rounds(prizes@, contestants@[i as int]);
        }
        out.push(won);
        assert(out@[i as int] == wins(prizes@, contestants@[i as int]));
        i += 1;
    }
    out
}

/// A keeper and a switcher who pick the same door split every set of rounds:
/// on each prize door exactly one of the two wins.
pub proof fn lemma_keep_and_switch_split(prizes: Seq<usize>, choice: usize)
    ensures
        wins(prizes, Contestant { choice, changes_door: false }) + wins(
            prizes,
            Contestant { choice, changes_door: true },
        ) == prizes.len(),
    decreases prizes.len(),
{
    if prizes.len() > 0 {
        lemma_keep_and_switch_split(prizes.drop_last(), choice);
    }
}

/// Over the three prize doors, one round each, a switcher wins two rounds and
/// a keeper one, whichever door they pick first.
pub proof fn lemma_switch_wins_two_of_three(c: Contestant)
    requires
        c.choice < 3,
    ensures
        wins(seq![0usize, 1, 2], c) == if c.changes_door {
            2nat
        } else {
            1nat
        },
{
    let s = seq![0usize, 1, 2];
    assert(s.drop_last() =~= seq![0usize, 1]);
    assert(s.drop_last().drop_last() =~= seq![0usize]);
    assert(s.drop_last().drop_last().drop_last() =~= Seq::<usize>::empty());
    reveal_with_fuel(wins, 4);
}

} // verus!
