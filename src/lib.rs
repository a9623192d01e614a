//! A three-door Monty Hall puzzle: the doors, the host's reveal, the switch,
//! the win check, and a driver that counts wins over many rounds.

pub mod contestant;
pub mod door;
pub mod input;
pub mod round;
pub mod simulation;

pub use contestant::Contestant;
pub use door::{Door, State};
pub use input::check_if_valid;
pub use round::{
    change_door, chek_if_won, choose_door, init_doors, monty_open_door, new_doors, DOOR_COUNT,
    HOST_DRAWS,
};
pub use simulation::{count_wins, play_round, run_round, simulation_wins};
