//! Dining philosophers on one shared table.
//!
//! `N` philosophers sit on a ring. A philosopher may eat only while neither
//! neighbour eats, so no fork is ever held twice. The seats live behind a
//! single lock; a philosopher that cannot eat yet sleeps on its own signal
//! and is woken by whichever neighbour stops eating.
//!
//! * [`seating`]: who sits next to whom.
//! * [`state`]: the seats themselves and the two moves a philosopher makes.
//! * [`laws`]: what every sequence of such moves preserves.
//! * [`dinner`]: why a dinner of finitely many meals always comes to its end.
//! * [`table`]: the seats behind their lock, with blocking acquisition.
//! * [`actor`]: one turn of a philosopher's endless think-and-eat cycle.
pub mod actor;
pub mod dinner;
pub mod error;
pub mod laws;
pub mod seating;
pub mod state;
pub mod table;

pub use actor::{narration, philosopher, Delays, Turn, MAX_SLEEP_TIME, MIN_SLEEP_TIME, PHILOSOPHERS};
pub use error::{ConfigurationError, Fault};
pub use seating::{left_neighbour_of, right_neighbour_of, PID};
pub use state::{PhilosopherState, TableState};
pub use table::{acquire_forks, release_forks, sit_down, unpoisoned, Released, Table};
