//! One philosopher's endless round of thinking and eating, a turn at a time.
//!
//! A turn is a pause: the philosopher thinks or eats for a while. What happens
//! between two pauses is decided here; the pausing itself, and saying so out
//! loud, is the caller's business.
use vstd::prelude::*;
use vstd::string::StringExecFns;
use rand::rngs::ThreadRng;
use rand::Rng;
use crate::error::{ConfigurationError, Fault};
use crate::seating::PID;
use crate::state::{blocked, peaceful, PhilosopherState};
use crate::table::{acquire_forks, release_forks, Table};

verus! {

/// How many philosophers sit at the customary table.
pub const PHILOSOPHERS: usize = 5;

/// The customary shortest pause, in milliseconds.
pub const MIN_SLEEP_TIME: u32 = 5000;

/// The customary bound that pauses stay below, in milliseconds.
pub const MAX_SLEEP_TIME: u32 = 15000;

/// `rand::rngs::ThreadRng`, opaque to the verifier.
#[verifier::external_type_specification]
#[verifier::external_body]
pub struct ExThreadRng(ThreadRng);

/// `rand::thread_rng` hands out the calling thread's generator. Nothing is
/// claimed of its state. (It panics if the system can give it no seed.)
pub assume_specification[ rand::thread_rng ]() -> (generator: ThreadRng)
;

/// `Rng::gen_range` on `low..high` draws a number that is at least `low` and
/// below `high`. It panics on an empty range, so `low < high` is required.
/// Which number comes out is left open. (The generator reseeds itself now
/// and then, and panics if the system then has no seed to give.)
#[verifier::external_body]
fn draw_between(generator: &mut ThreadRng, low: u32, high: u32) -> (drawn: u32)
    requires
        low < high,
    ensures
        low <= drawn < high,
{
    generator.gen_range(low..high)
}

/// The range from which the length of a pause is drawn: at least `shortest`
/// and less than `bound` milliseconds. The range is never empty.
#[derive(Clone, Copy, Debug)]
pub struct Delays {
    min: u32,
    max: u32,
}

impl Delays {
    #[verifier::type_invariant]
    spec fn well_formed(&self) -> bool {
        self.min < self.max
    }

    /// The shortest pause.
    pub closed spec fn shortest(&self) -> int {
        self.min as int
    }

    /// What every pause stays below.
    pub closed spec fn bound(&self) -> int {
        self.max as int
    }

    /// A range of pauses from `min` up to, not including, `max`.
    pub fn new(min: u32, max: u32) -> (made: Result<Delays, ConfigurationError>)
        ensures
            made is Ok <==> min < max,
            made matches Ok(delays) ==> delays.shortest() == min && delays.bound() == max,
            made matches Err(e) ==> e == ConfigurationError::EmptyDelayRange,
    {
        if min < max {
            Ok(Delays { min, max })
        } else {
            Err(ConfigurationError::EmptyDelayRange)
        }
    }

    /// The shortest pause.
    pub fn min(&self) -> (min: u32)
        ensures
            min == self.shortest(),
            min < self.bound(),
    {
        proof {
            use_type_invariant(self);
        }
        self.min
    }

    /// What every pause stays below.
    pub fn max(&self) -> (max: u32)
        ensures
            max == self.bound(),
            self.shortest() < max,
    {
        proof {
            use_type_invariant(self);
        }
        self.max
    }

    /// Draws the length of one pause, in milliseconds.
    pub fn sleep_random_time(&self) -> (millis: u64)
        ensures
            self.shortest() <= millis < self.bound(),
    {
        proof {
            use_type_invariant(self);
        }
        let mut generator = rand::thread_rng();
        let drawn: u32 = draw_between(&mut generator, self.min, self.max);
        drawn as u64
    }
}

impl Default for Delays {
    /// The customary range, [`MIN_SLEEP_TIME`] to [`MAX_SLEEP_TIME`].
    fn default() -> (delays: Delays)
        ensures
            delays.shortest() == MIN_SLEEP_TIME,
            delays.bound() == MAX_SLEEP_TIME,
    {
        Delays { min: MIN_SLEEP_TIME, max: MAX_SLEEP_TIME }
    }
}

/// The character that stands for the digit `d`.
pub open spec fn digit(d: int) -> char {
    if d == 0 {
        '0'
    } else if d == 1 {
        '1'
    } else if d == 2 {
        '2'
    } else if d == 3 {
        '3'
    } else if d == 4 {
        '4'
    } else if d == 5 {
        '5'
    } else if d == 6 {
        '6'
    } else if d == 7 {
        '7'
    } else if d == 8 {
        '8'
    } else {
        '9'
    }
}

/// `n` written in decimal, without leading zeros.
pub open spec fn decimal(n: nat) -> Seq<char>
    decreases n,
{
    if n < 10 {
        seq![digit(n as int)]
    } else {
        decimal(n / 10).push(digit((n % 10) as int))
    }
}

/// The words that follow a philosopher's number when it starts on `activity`.
pub open spec fn announcement(activity: PhilosopherState) -> Seq<char> {
    match activity {
        PhilosopherState::Thinking => " thinking..."@,
        PhilosopherState::Eating => " eating!"@,
    }
}

fn digit_text(d: usize) -> (text: &'static str)
    requires
        d < 10,
    ensures
        text@ == seq![digit(d as int)],
{
    proof {
        reveal_strlit("0");
        reveal_strlit("1");
        reveal_strlit("2");
        reveal_strlit("3");
        reveal_strlit("4");
        reveal_strlit("5");
        reveal_strlit("6");
        reveal_strlit("7");
        reveal_strlit("8");
        reveal_strlit("9");
    }
    if d == 0 {
        "0"
    } else if d == 1 {
        "1"
    } else if d == 2 {
        "2"
    } else if d == 3 {
        "3"
    } else if d == 4 {
        "4"
    } else if d == 5 {
        "5"
    } else if d == 6 {
        "6"
    } else if d == 7 {
        "7"
    } else if d == 8 {
        "8"
    } else {
        "9"
    }
}

fn append_decimal(line: &mut String, n: usize)
    ensures
        final(line)@ == old(line)@ + decimal(n as nat),
    decreases n,
{
    if n >= 10 {
        append_decimal(line, n / 10);
    }
    line.append(digit_text(n % 10));
}

/// The line that tells the world what philosopher `id` has started to do:
/// `Philosopher 3 thinking...` or `Philosopher 3 eating!`.
pub fn narration(id: PID, activity: PhilosopherState) -> (line: String)
    ensures
        line@ == "Philosopher "@ + decimal(id as nat) + announcement(activity),
{
    let mut line = String::from_str("Philosopher ");
    append_decimal(&mut line, id);
    match activity {
        PhilosopherState::Thinking => line.append(" thinking..."),
        PhilosopherState::Eating => line.append(" eating!"),
    }
    line
}

/// What a philosopher that has finished `activity` turns to.
pub open spec fn following(activity: PhilosopherState) -> PhilosopherState {
    match activity {
        PhilosopherState::Thinking => PhilosopherState::Eating,
        PhilosopherState::Eating => PhilosopherState::Thinking,
    }
}

/// One pause in a philosopher's life: what it does, for how many
/// milliseconds, and how the table looked when it turned to it.
#[derive(Debug)]
pub struct Turn {
    pub activity: PhilosopherState,
    pub millis: u64,
    /// The seats as they stood when the philosopher took or put down its
    /// forks, before the lock was let go.
    pub seen: Vec<PhilosopherState>,
}

/// Moves philosopher `id` from the activity it has just `finished` on to the
/// next one. After thinking it picks up its forks, which may take as long as
/// a neighbour eats; after eating it puts them down. The result says what the
/// philosopher does now, how long that is to last, and what the table looked
/// like at the change: its own seat shows the new activity, and when that is
/// eating, no neighbour eats.
pub fn philosopher<const N: usize>(
    id: PID,
    table: &Table<N>,
    finished: PhilosopherState,
    delays: &Delays,
) -> (next: Result<Turn, Fault>)
    requires
        id < N,
    ensures
        next matches Ok(turn) ==> {
            &&& turn.activity == following(finished)
            &&& delays.shortest() <= turn.millis < delays.bound()
            &&& turn.seen@.len() == N
            &&& turn.seen@[id as int] == turn.activity
            &&& turn.activity == PhilosopherState::Eating ==> !blocked(turn.seen@, id as int)
            &&& peaceful(turn.seen@)
        },
{
    let seen = match finished {
        PhilosopherState::Thinking => {
            match acquire_forks(id, table) {
                Ok(seen) => seen,
                Err(fault) => {
                    return Err(fault);
                },
            }
        },
        PhilosopherState::Eating => {
            match release_forks(id, table) {
                Ok(released) => released.seen,
                Err(fault) => {
                    return Err(fault);
                },
            }
        },
    };
    Ok(Turn::after(finished, delays.sleep_random_time(), seen))
}

impl Turn {
    /// The turn that comes after the philosopher has `finished` an activity:
    /// the other activity, for `millis` milliseconds, at a table that looked
    /// like `seen`.
    pub fn after(finished: PhilosopherState, millis: u64, seen: Vec<PhilosopherState>) -> (turn:
        Turn)
        ensures
            turn.activity == following(finished),
            turn.millis == millis,
            turn.seen == seen,
    {
        let activity = match finished {
            PhilosopherState::Thinking => PhilosopherState::Eating,
            PhilosopherState::Eating => PhilosopherState::Thinking,
        };
        Turn { activity, millis, seen }
    }
}

} // verus!
