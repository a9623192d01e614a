use monty_hall::{
    change_door, check_if_valid, chek_if_won, choose_door, count_wins, init_doors,
    monty_open_door, new_doors, play_round, run_round, simulation_wins, Contestant, Door, State,
    DOOR_COUNT,
};

fn prize_count(doors: &[Door]) -> usize {
    doors.iter().filter(|d| d.has_prize).count()
}

fn selected_index(doors: &[Door]) -> usize {
    let sel: Vec<usize> = (0..doors.len()).filter(|&i| doors[i].is_selected).collect();
    assert_eq!(sel.len(), 1);
    sel[0]
}

#[test]
fn door_starts_closed_empty_unselected() {
    let d = Door::new();
    assert!(!d.is_open());
    assert!(!d.has_prize);
    assert!(!d.is_selected);
    assert_eq!(d.state, State::Closed);
}

#[test]
fn door_open_keeps_prize_and_selection() {
    let mut d = Door::new();
    d.has_prize = true;
    d.is_selected = true;
    d.open();
    assert!(d.is_open());
    assert!(d.has_prize);
    assert!(d.is_selected);
}

#[test]
fn canonical_contestants() {
    let a = Contestant::new_alice();
    let b = Contestant::new_bob();
    assert_eq!(a.choice, 0);
    assert!(!a.changes_door);
    assert_eq!(b.choice, 0);
    assert!(b.changes_door);
}

#[test]
fn mode_two_is_rejected() {
    assert!(!check_if_valid(&2, &[0, 1]));
    assert!(check_if_valid(&0, &[0, 1]));
    assert!(check_if_valid(&1, &[0, 1]));
}

#[test]
fn door_number_validity() {
    assert!(check_if_valid(&3, &[1, 2, 3]));
    assert!(!check_if_valid(&0, &[1, 2, 3]));
    assert!(!check_if_valid(&4, &[1, 2, 3]));
    assert!(!check_if_valid(&1, &[]));
}

#[test]
fn new_doors_places_prize() {
    for p in 0..DOOR_COUNT {
        let doors = new_doors(p);
        assert_eq!(doors.len(), 3);
        for (i, d) in doors.iter().enumerate() {
            assert_eq!(d.has_prize, i == p);
            assert!(!d.is_open());
            assert!(!d.is_selected);
        }
    }
}

#[test]
fn init_doors_has_one_prize_and_uses_every_door() {
    let mut seen = [false; 3];
    for _ in 0..300 {
        let doors = init_doors();
        assert_eq!(doors.len(), 3);
        assert_eq!(prize_count(&doors), 1);
        assert!(doors.iter().all(|d| !d.is_open() && !d.is_selected));
        seen[doors.iter().position(|d| d.has_prize).unwrap()] = true;
    }
    assert_eq!(seen, [true, true, true]);
}

#[test]
fn choose_door_marks_only_that_door() {
    let mut doors = new_doors(2);
    choose_door(&mut doors, 1);
    assert_eq!(selected_index(&doors), 1);
    assert_eq!(prize_count(&doors), 1);
    assert!(doors[2].has_prize);
}

#[test]
fn host_opens_a_safe_door() {
    for p in 0..3 {
        for c in 0..3 {
            for _ in 0..50 {
                let mut doors = new_doors(p);
                choose_door(&mut doors, c);
                monty_open_door(&mut doors);
                let open: Vec<usize> = (0..3).filter(|&i| doors[i].is_open()).collect();
                assert_eq!(open.len(), 1);
                assert_ne!(open[0], p);
                assert_ne!(open[0], c);
                assert_eq!(selected_index(&doors), c);
                assert_eq!(prize_count(&doors), 1);
                assert!(doors[p].has_prize);
            }
        }
    }
}

#[test]
fn host_picks_both_safe_doors_when_choice_is_prize() {
    let mut opened = [false; 3];
    for _ in 0..200 {
        let mut doors = new_doors(0);
        choose_door(&mut doors, 0);
        monty_open_door(&mut doors);
        opened[(0..3).find(|&i| doors[i].is_open()).unwrap()] = true;
    }
    assert_eq!(opened, [false, true, true]);
}

#[test]
fn switch_moves_to_other_closed_door() {
    for p in 0..3 {
        for c in 0..3 {
            let mut doors = new_doors(p);
            choose_door(&mut doors, c);
            monty_open_door(&mut doors);
            let open = (0..3).find(|&i| doors[i].is_open()).unwrap();
            change_door(&mut doors);
            let now = selected_index(&doors);
            assert_ne!(now, c);
            assert_ne!(now, open);
            assert!(!doors[now].is_open());
            assert_eq!(prize_count(&doors), 1);
            assert!(doors[p].has_prize);
        }
    }
}

#[test]
fn change_door_on_given_state() {
    let mut doors = new_doors(1);
    choose_door(&mut doors, 0);
    doors[2].open();
    change_door(&mut doors);
    assert!(!doors[0].is_selected);
    assert!(doors[1].is_selected);
    assert!(!doors[2].is_selected);
    assert!(chek_if_won(&doors));
}

#[test]
fn win_check_is_idempotent() {
    for p in 0..3 {
        let mut doors = new_doors(p);
        choose_door(&mut doors, 0);
        monty_open_door(&mut doors);
        let first = chek_if_won(&doors);
        let second = chek_if_won(&doors);
        assert_eq!(first, second);
        assert_eq!(first, p == 0);
    }
}

#[test]
fn win_check_without_selection_is_false() {
    let doors = new_doors(0);
    assert!(!chek_if_won(&doors));
}

#[test]
fn run_round_outcomes() {
    let keep = Contestant::new_alice();
    let switch = Contestant::new_bob();
    assert!(run_round(0, &keep));
    assert!(!run_round(1, &keep));
    assert!(!run_round(2, &keep));
    assert!(!run_round(0, &switch));
    assert!(run_round(1, &switch));
    assert!(run_round(2, &switch));
    let third = Contestant { choice: 2, changes_door: true };
    assert!(!run_round(2, &third));
    assert!(run_round(0, &third));
}

#[test]
fn count_wins_over_each_prize_door() {
    let prizes = vec![0, 1, 2];
    assert_eq!(count_wins(&Contestant::new_alice(), &prizes), 1);
    assert_eq!(count_wins(&Contestant::new_bob(), &prizes), 2);
    assert_eq!(count_wins(&Contestant::new_bob(), &vec![]), 0);
    let many = vec![0, 0, 1, 2, 0, 1];
    let k = count_wins(&Contestant::new_alice(), &many);
    let s = count_wins(&Contestant::new_bob(), &many);
    assert_eq!(k, 3);
    assert_eq!(k + s, many.len());
}

#[test]
fn play_round_gives_both_outcomes() {
    let keep = Contestant::new_alice();
    let mut wins = 0;
    for _ in 0..300 {
        if play_round(&keep) {
            wins += 1;
        }
    }
    assert!(wins > 0 && wins < 300);
}

#[test]
fn simulation_of_thousand_trials() {
    let contestants = [Contestant::new_alice(), Contestant::new_bob()];
    let wins = simulation_wins(&contestants, 1000);
    assert_eq!(wins.len(), 2);
    let keep = wins[0] as f64 / 1000.0;
    let switch = wins[1] as f64 / 1000.0;
    assert!((0.0..=1.0).contains(&keep));
    assert!((0.0..=1.0).contains(&switch));
    assert!((keep - 1.0 / 3.0).abs() < 0.07);
    assert!((switch - 2.0 / 3.0).abs() < 0.07);
}

#[test]
fn win_fractions_converge() {
    let contestants = [Contestant::new_alice(), Contestant::new_bob()];
    let wins = simulation_wins(&contestants, 10_000);
    let keep = wins[0] as f64 / 10_000.0;
    let switch = wins[1] as f64 / 10_000.0;
    assert!((keep - 1.0 / 3.0).abs() < 0.02);
    assert!((switch - 2.0 / 3.0).abs() < 0.02);
}

#[test]
fn simulation_keeps_order_and_handles_empty() {
    let contestants = [Contestant::new_bob(), Contestant::new_alice(), Contestant::new_bob()];
    let wins = simulation_wins(&contestants, 0);
    assert_eq!(wins, vec![0, 0, 0]);
    assert!(simulation_wins(&[], 10).is_empty());
    let wins = simulation_wins(&contestants, 500);
    assert_eq!(wins.len(), 3);
    assert!(wins[0] > wins[1] && wins[2] > wins[1]);
}

#[test]
fn change_door_leaves_open_doors_alone() {
    let mut doors = new_doors(0);
    choose_door(&mut doors, 2);
    doors[2].open();
    change_door(&mut doors);
    assert!(doors[0].is_selected);
    assert!(doors[1].is_selected);
    assert!(doors[2].is_selected);
    assert!(doors[2].is_open());
}
