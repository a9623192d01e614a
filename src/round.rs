use vstd::prelude::*;

use rand::Rng;

use crate::door::{Door, State};

verus! {

/// The number of doors in a round.
pub const DOOR_COUNT: usize = 3;

/// How often the host draws a door at random before he picks among the safe
/// doors directly.
pub const HOST_DRAWS: usize = 64;

/// The prize is behind door `p` and behind no other.
pub open spec fn prize_at(doors: Seq<Door>, p: int) -> bool {
    &&& 0 <= p < doors.len()
    &&& forall|i: int| 0 <= i < doors.len() ==> (#[trigger] doors[i]).has_prize == (i == p)
}

/// Exactly one door holds the prize.
pub open spec fn one_prize(doors: Seq<Door>) -> bool {
    exists|p: int| prize_at(doors, p)
}

/// Door `c` is the selected one, and no other is.
pub open spec fn selected_at(doors: Seq<Door>, c: int) -> bool {
    &&& 0 <= c < doors.len()
    &&& forall|i: int| 0 <= i < doors.len() ==> (#[trigger] doors[i]).is_selected == (i == c)
}

/// Door `o` is the open one, and no other is.
pub open spec fn open_at(doors: Seq<Door>, o: int) -> bool {
    &&& 0 <= o < doors.len()
    &&& forall|i: int| 0 <= i < doors.len() ==> (#[trigger] doors[i]).spec_is_open() == (i == o)
}

/// No door is open.
pub open spec fn all_closed(doors: Seq<Door>) -> bool {
    forall|i: int| 0 <= i < doors.len() ==> !(#[trigger] doors[i]).spec_is_open()
}

/// A door the host may open: closed, not selected, without the prize.
pub open spec fn is_safe(d: Door) -> bool {
    !d.spec_is_open() && !d.is_selected && !d.has_prize
}

/// The round after its initialization: three closed doors, none selected, one prize.
pub open spec fn initialized(doors: Seq<Door>) -> bool {
    &&& doors.len() == 3
    &&& all_closed(doors)
    &&& forall|i: int| 0 <= i < doors.len() ==> !(#[trigger] doors[i]).is_selected
    &&& one_prize(doors)
}

/// The round after the contestant's choice: three closed doors, one selected, one prize.
pub open spec fn chosen(doors: Seq<Door>) -> bool {
    &&& doors.len() == 3
    &&& all_closed(doors)
    &&& one_prize(doors)
    &&& exists|c: int| selected_at(doors, c)
}

/// The round after the host's reveal: one prize, one selected door, and one open
/// door that is neither the selected one nor the prize door.
pub open spec fn revealed(doors: Seq<Door>) -> bool {
    &&& doors.len() == 3
    &&& exists|p: int, c: int, o: int|
        prize_at(doors, p) && selected_at(doors, c) && open_at(doors, o) && o != p && o != c
}

/// The contestant wins: some door is both selected and the prize door.
pub open spec fn won(doors: Seq<Door>) -> bool {
    exists|i: int| 0 <= i < doors.len() && (#[trigger] doors[i]).is_selected && doors[i].has_prize
}

/// A door after the switch: a closed door has its selection flipped, an open
/// door stays as it is.
pub open spec fn switched(d: Door) -> Door {
    if !d.spec_is_open() {
        Door { is_selected: !d.is_selected, ..d }
    } else {
        d
    }
}

/// Relies on rand's `thread_rng().gen_range(0..n)`: a number in `[0, n)`,
/// drawn uniformly; it panics on an empty range, which `requires` rules out.
#[verifier::external_body]
pub(crate) fn select_door(max_index: usize) -> (r: usize)
    requires
        max_index > 0,
    ensures
        r < max_index,
{
    rand::thread_rng().gen_range(0..max_index)
}

/// Three closed, unselected doors with the prize behind door `prize`.
pub fn new_doors(prize: usize) -> (doors: Vec<Door>)
    requires
        prize < DOOR_COUNT,
    ensures
        initialized(doors@),
        prize_at(doors@, prize as int),
{
    let mut doors: Vec<Door> = Vec::new();
    let mut i: usize = 0;
    while i < DOOR_COUNT
        invariant
            i <= DOOR_COUNT,
            prize < DOOR_COUNT,
            doors@.len() == i,
            forall|j: int| 0 <= j < i ==> !(#[trigger] doors@[j]).spec_is_open()
                && !doors@[j].is_selected && doors@[j].has_prize == (j == prize),
        decreases DOOR_COUNT - i,
    {
        let mut d = Door::new();
        d.has_prize = i == prize;
        doors.push(d);
        i += 1;
    }
    assert(prize_at(doors@, prize as int));
    doors
}

/// A fresh round: three closed, unselected doors, the prize behind one drawn
/// uniformly at random.
pub fn init_doors() -> (doors: Vec<Door>)
    ensures
        initialized(doors@),
{
    let prize = select_door(DOOR_COUNT);
    new_doors(prize)
}

/// Marks door `index` as the contestant's choice; nothing else changes.
pub fn choose_door(doors: &mut Vec<Door>, index: usize)
    requires
        index < old(doors)@.len(),
        !old(doors)@[index as int].spec_is_open(),
    ensures
        final(doors)@ == old(doors)@.update(
            index as int,
            Door { is_selected: true, ..old(doors)@[index as int] },
        ),
        initialized(old(doors)@) ==> chosen(final(doors)@)
            && selected_at(final(doors)@, index as int),
        forall|p: int| prize_at(old(doors)@, p) ==> prize_at(final(doors)@, p),
{
    doors[index].is_selected = true;
    proof {
        if initialized(old(doors)@) {
            let p = choose|p: int| prize_at(old(doors)@, p);
            assert(prize_at(doors@, p));
            assert(selected_at(doors@, index as int));
        }
        assert forall|q: int| prize_at(old(doors)@, q) implies prize_at(doors@, q) by {
            assert forall|i: int| 0 <= i < doors@.len() implies (#[trigger] doors@[i]).has_prize
                == (i == q) by {
                assert(old(doors)@[i].has_prize == (i == q));
            }
        }
    }
}

/// Opens door `index` when the host may open it, and tells whether it did.
fn open_if_safe(doors: &mut Vec<Door>, index: usize) -> (opened: bool)
    requires
        index < old(doors)@.len(),
    ensures
        opened == is_safe(old(doors)@[index as int]),
        opened ==> final(doors)@ == old(doors)@.update(
            index as int,
            Door { state: State::Open, ..old(doors)@[index as int] },
        ),
        !opened ==> final(doors)@ == old(doors)@,
{
    let d = doors[index];
    if !d.is_open() && !d.is_selected && !d.has_prize {
        doors[index].open();
        true
    } else {
        false
    }
}

/// The indexes of the doors the host may open, in increasing order.
fn safe_doors(doors: &Vec<Door>) -> (safe: Vec<usize>)
    ensures
        forall|j: int| 0 <= j < safe@.len() ==> (#[trigger] safe@[j]) < doors@.len()
            && is_safe(doors@[safe@[j] as int]),
        forall|i: int| 0 <= i < doors@.len() && is_safe(#[trigger] doors@[i])
            ==> safe@.contains(i as usize),
{
    let mut safe: Vec<usize> = Vec::new();
    let mut i: usize = 0;
    while i < doors.len()
        invariant
            i <= doors@.len(),
            forall|j: int| 0 <= j < safe@.len() ==> (#[trigger] safe@[j]) < doors@.len()
                && is_safe(doors@[safe@[j] as int]),
            forall|k: int| 0 <= k < i && is_safe(#[trigger] doors@[k])
                ==> safe@.contains(k as usize),
        decreases doors@.len() - i,
    {
        let d = doors[i];
        if !d.is_open() && !d.is_selected && !d.has_prize {
            let ghost prev = safe@;
            safe.push(i);
            assert forall|k: int| 0 <= k < i && is_safe(#[trigger] doors@[k])
                implies safe@.contains(k as usize) by {
                let j = choose|j: int| 0 <= j < prev.len() && prev[j] == k as usize;
                assert(safe@[j] == k as usize);
            }
            assert(safe@[safe@.len() - 1] == i);
        }
        i += 1;
    }
    safe
}

/// In a chosen round some door is safe for the host to open.
proof fn lemma_safe_door_exists(doors: Seq<Door>) -> (w: int)
    requires
        chosen(doors),
    ensures
        0 <= w < 3,
        is_safe(doors[w]),
{
    let p = choose|p: int| prize_at(doors, p);
    let c = choose|c: int| selected_at(doors, c);
    let w = if p != 0 && c != 0 {
        0
    } else if p != 1 && c != 1 {
        1
    } else {
        2
    };
    assert(doors[w].has_prize == (w == p));
    assert(doors[w].is_selected == (w == c));
    w
}

/// The host opens one door that is closed, not selected and without the
/// prize. He draws doors uniformly at random until he meets such a door; after
/// `HOST_DRAWS` misses he draws uniformly among the safe doors instead, which
/// gives each safe door the same chance as the unbounded search would.
pub fn monty_open_door(doors: &mut Vec<Door>)
    requires
        chosen(old(doors)@),
    ensures
        exists|k: int| 0 <= k < 3 && is_safe(old(doors)@[k]) && final(doors)@
            == old(doors)@.update(k, Door { state: State::Open, ..old(doors)@[k] }),
        revealed(final(doors)@),
        final(doors)@.len() == old(doors)@.len(),
        forall|i: int| 0 <= i < old(doors)@.len() ==> (#[trigger] final(doors)@[i]).has_prize
            == old(doors)@[i].has_prize && final(doors)@[i].is_selected
            == old(doors)@[i].is_selected,
        forall|p: int| prize_at(old(doors)@, p) ==> prize_at(final(doors)@, p),
        forall|c: int| selected_at(old(doors)@, c) ==> selected_at(final(doors)@, c),
{
    let ghost start = doors@;
    proof {
        lemma_safe_door_exists(start);
    }
    let mut draws: usize = 0;
    let mut opened = false;
    while draws < HOST_DRAWS && !opened
        invariant
            chosen(start),
            !opened ==> doors@ == start,
            opened ==> exists|k: int| 0 <= k < 3 && is_safe(start[k]) && doors@
                == start.update(k, Door { state: State::Open, ..start[k] }),
        decreases HOST_DRAWS - draws,
    {
        let index = select_door(doors.len());
        opened = open_if_safe(doors, index);
        draws += 1;
    }
    if !opened {
        let safe = safe_doors(doors);
        proof {
            let w = lemma_safe_door_exists(start);
            assert(safe@.contains(w as usize));
        }
        let pick = select_door(safe.len());
        let index = safe[pick];
        opened = open_if_safe(doors, index);
    }
    proof {
        let k = choose|k: int| 0 <= k < 3 && is_safe(start[k]) && doors@
            == start.update(k, Door { state: State::Open, ..start[k] });
        let p = choose|p: int| prize_at(start, p);
        let c = choose|c: int| selected_at(start, c);
        assert(prize_at(doors@, p));
        assert(selected_at(doors@, c));
        assert(open_at(doors@, k));
        assert forall|q: int| prize_at(start, q) implies prize_at(doors@, q) by {
            assert forall|i: int| 0 <= i < doors@.len() implies (#[trigger] doors@[i]).has_prize
                == (i == q) by {
                assert(start[i].has_prize == (i == q));
            }
        }
        assert forall|q: int| selected_at(start, q) implies selected_at(doors@, q) by {
            assert forall|i: int| 0 <= i < doors@.len() implies (#[trigger] doors@[i]).is_selected
                == (i == q) by {
                assert(start[i].is_selected == (i == q));
            }
        }
    }
}

/// The contestant switches: every closed door has its selection flipped, so
/// the selected one is let go and the other closed one is taken; open doors
/// stay as they are.
pub fn change_door(doors: &mut Vec<Door>)
    ensures
        final(doors)@.len() == old(doors)@.len(),
        forall|i: int| 0 <= i < old(doors)@.len() ==> (#[trigger] final(doors)@[i]) == switched(
            old(doors)@[i],
        ),
        revealed(old(doors)@) ==> revealed(final(doors)@),
        forall|p: int| prize_at(old(doors)@, p) ==> prize_at(final(doors)@, p),
{
    let mut i: usize = 0;
    while i < doors.len()
        invariant
            i <= doors@.len(),
            doors@.len() == old(doors)@.len(),
            forall|j: int| 0 <= j < i ==> (#[trigger] doors@[j]) == switched(old(doors)@[j]),
            forall|j: int| i <= j < doors@.len() ==> (#[trigger] doors@[j]) == old(doors)@[j],
        decreases doors@.len() - i,
    {
        if !doors[i].is_open() {
            doors[i].is_selected = !doors[i].is_selected;
        }
        i += 1;
    }
    proof {
        if revealed(old(doors)@) {
            lemma_switch_moves_selection(old(doors)@, doors@);
        }
        assert forall|q: int| prize_at(old(doors)@, q) implies prize_at(doors@, q) by {
            assert forall|i: int| 0 <= i < doors@.len() implies (#[trigger] doors@[i]).has_prize
                == (i == q) by {
                assert(doors@[i] == switched(old(doors)@[i]));
            }
        }
    }
}

/// Switching after the reveal hands the selection to a closed door other than
/// the one selected before, keeps the prize and the open door where they were,
/// and so leaves the round revealed.
pub proof fn lemma_switch_moves_selection(before: Seq<Door>, after: Seq<Door>)
    requires
        revealed(before),
        after.len() == before.len(),
        forall|i: int| 0 <= i < before.len() ==> (#[trigger] after[i]) == switched(before[i]),
    ensures
        revealed(after),
        exists|k: int| selected_at(after, k) && !after[k].spec_is_open() && !before[k].is_selected,
        forall|p: int| prize_at(before, p) ==> prize_at(after, p),
{
    let (p, c, o) = choose|p: int, c: int, o: int|
        prize_at(before, p) && selected_at(before, c) && open_at(before, o) && o != p && o != c;
    let k = 3 - c - o;
    assert(before[k].is_selected == (k == c));
    assert(before[k].spec_is_open() == (k == o));
    assert(after[c] == switched(before[c]));
    assert(after[o] == switched(before[o]));
    assert(after[k] == switched(before[k]));
    assert(selected_at(after, k));
    assert(open_at(after, o));
    assert(prize_at(after, p));
    assert forall|q: int| prize_at(before, q) implies prize_at(after, q) by {
        assert forall|i: int| 0 <= i < after.len() implies (#[trigger] after[i]).has_prize == (i
            == q) by {
            assert(after[i] == switched(before[i]));
        }
    }
}

/// Whether the selected door holds the prize.
pub fn chek_if_won(doors: &Vec<Door>) -> (r: bool)
    ensures
        r == won(doors@),
{
    let mut out = false;
    let mut i: usize = 0;
    while i < doors.len()
        invariant
            i <= doors@.len(),
            out == exists|j: int| 0 <= j < i && (#[trigger] doors@[j]).is_selected
                && doors@[j].has_prize,
        decreases doors@.len() - i,
    {
        if doors[i].is_selected && doors[i].has_prize {
            out = true;
        }
        i += 1;
    }
    out
}

} // verus!
