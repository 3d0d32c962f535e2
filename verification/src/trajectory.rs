//! The decisions along one trajectory of a test particle.
//!
//! A trajectory is driven from outside: the caller measures the squared
//! distance from the particle to every graviton, hands the readings to
//! `Trajectory::observe`, and is told either that the trajectory has ended or
//! which step to take before it measures again. How a step moves the particle
//! is the caller's business; when the trajectory ends, and with which
//! graviton, is decided here.

use vstd::prelude::*;
use crate::capture::{
    captures, is_first_capture, is_nearest, least_reading, lemma_first_capture,
    lemma_first_capture_unique, lemma_least_reading, lemma_nearest, lemma_nearest_unique, nearest,
    nearest_of, none_captures, scan, scan_of, Scan, CAPTURE_RADIUS_SQUARED,
};
use crate::graviton::{Data, LARGEST_FINITE};

verus! {

/// The number of steps after which a trajectory is given up.
pub const MAX_ITERATIONS: u32 = 1000;

/// Bit pattern of the factor from the distance to the nearest graviton to the
/// length of an adaptive step, one tenth.
pub const ADAPTIVE_STEP_FACTOR: u32 = 0x3DCC_CCCD;

/// Bit pattern of the shortest adaptive step, two thousandths.
pub const SHORTEST_STEP: u32 = 0x3B03_126F;

/// Bit pattern of the longest adaptive step, five hundredths.
pub const LONGEST_STEP: u32 = 0x3D4C_CCCD;

/// Bit pattern of the fixed step, one hundredth.
pub const FIXED_STEP: u32 = 0x3C23_D70A;

/// How a trajectory is followed.
#[derive(Clone, Copy, Debug, PartialEq, Eq, Structural)]
pub enum Fidelity {
    /// Fourth order Runge-Kutta steps whose length follows the distance to the
    /// nearest graviton.
    AdaptiveRk4,
    /// Semi-implicit Euler steps of length `FIXED_STEP`.
    FixedEuler,
    /// No steps at all: the nearest graviton is the answer.
    Nearest,
}

/// The step to take before the next readings.
#[derive(Clone, Copy, Debug, PartialEq, Eq, Structural)]
pub enum Step {
    /// A Runge-Kutta step. Its length is the square root of the least reading,
    /// held here, times `ADAPTIVE_STEP_FACTOR`, kept between `SHORTEST_STEP`
    /// and `LONGEST_STEP`.
    Adaptive(u32),
    /// An Euler step of length `FIXED_STEP`.
    Fixed,
}

/// How a trajectory ended.
///
/// A trajectory that used up `MAX_ITERATIONS` steps without capture ends with
/// no graviton and `captured` false: its start point belongs to no basin, and
/// its cell of a field is left without colour and without coverage.
#[derive(Clone, Copy, Debug, PartialEq, Eq, Structural)]
pub struct Outcome {
    /// The graviton the start point belongs to, by its position in the scene.
    pub attractor: Option<usize>,
    /// Whether the particle came within the capture radius of that graviton.
    pub captured: bool,
    /// The number of steps taken.
    pub iterations: u32,
}

/// Why a query was refused.
#[derive(Clone, Copy, Debug, PartialEq, Eq, Structural)]
pub enum QueryError {
    /// The scene holds no graviton.
    EmptySet,
    /// The readings are not one for each graviton.
    ReadingCount,
}

/// A trajectory under way.
#[derive(Clone, Copy, Debug, PartialEq, Eq, Structural)]
pub struct Trajectory {
    /// How the trajectory is followed.
    pub fidelity: Fidelity,
    /// The number of gravitons in the scene.
    pub gravitons: usize,
    /// The number of steps taken so far.
    pub iteration: u32,
}

/// What follows a row of readings.
#[derive(Clone, Copy, Debug, PartialEq, Eq, Structural)]
pub enum Progress {
    /// Take this step, then hand the new readings to the trajectory given.
    Advance(Trajectory, Step),
    /// The trajectory has ended.
    Finish(Outcome),
}

impl Fidelity {
    /// The step this fidelity takes when the least reading is `least`.
    pub open spec fn step(self, least: u32) -> Step {
        match self {
            Fidelity::FixedEuler => Step::Fixed,
            _ => Step::Adaptive(least),
        }
    }
}

impl Trajectory {
    /// The answer of the fidelity that takes no steps: the first among the
    /// nearest gravitons, captured if its reading is within the capture radius.
    pub open spec fn nearest_outcome(self, readings: Seq<u32>) -> Outcome {
        let at = nearest_of(readings).unwrap();
        Outcome {
            attractor: Some(at as usize),
            captured: captures(readings[at]),
            iterations: self.iteration,
        }
    }

    /// What `observe` returns on these readings.
    ///
    /// An empty scene is an error, and so are readings that are not one for
    /// each graviton. Otherwise the first graviton whose reading captures ends
    /// the trajectory. Without a capture the trajectory takes another step,
    /// unless that step would be the last of `MAX_ITERATIONS`: nothing is
    /// measured behind the last step, so the trajectory ends there,
    /// uncaptured and with every step counted.
    pub open spec fn next(self, readings: Seq<u32>) -> Result<Progress, QueryError> {
        if self.gravitons == 0 {
            Err(QueryError::EmptySet)
        } else if readings.len() != self.gravitons {
            Err(QueryError::ReadingCount)
        } else if self.fidelity == Fidelity::Nearest {
            Ok(Progress::Finish(self.nearest_outcome(readings)))
        } else {
            match scan_of(readings) {
                Scan::Captured(at) => Ok(
                    Progress::Finish(
                        Outcome { attractor: Some(at), captured: true, iterations: self.iteration },
                    ),
                ),
                Scan::Free(least) => if self.iteration >= MAX_ITERATIONS - 1 {
                    Ok(
                        Progress::Finish(
                            Outcome {
                                attractor: None,
                                captured: false,
                                iterations: MAX_ITERATIONS,
                            },
                        ),
                    )
                } else {
                    Ok(
                        Progress::Advance(
                            Trajectory {
                                fidelity: self.fidelity,
                                gravitons: self.gravitons,
                                iteration: (self.iteration + 1) as u32,
                            },
                            self.fidelity.step(least),
                        ),
                    )
                },
            }
        }
    }

    /// Starts a trajectory in `scene`, with no step taken yet.
    pub fn start(fidelity: Fidelity, scene: &Data) -> (started: Result<Self, QueryError>)
        ensures
            started == (if scene@.len() == 0 {
                Err(QueryError::EmptySet)
            } else {
                Ok(fresh(fidelity, scene@.len()))
            }),
            scene@.len() <= usize::MAX,
    {
        let gravitons: usize = scene.len();
        if gravitons == 0 {
            Err(QueryError::EmptySet)
        } else {
            Ok(Trajectory { fidelity, gravitons, iteration: 0 })
        }
    }

    /// Decides what follows the readings taken at the particle's position.
    pub fn observe(self, readings: &Vec<u32>) -> (told: Result<Progress, QueryError>)
        ensures
            told == self.next(readings@),
    {
        if self.gravitons == 0 {
            return Err(QueryError::EmptySet);
        }
        if readings.len() != self.gravitons {
            return Err(QueryError::ReadingCount);
        }
        match self.fidelity {
            Fidelity::Nearest => {
                match nearest(readings) {
                    Some(at) => {
                        let captured: bool = readings[at] < CAPTURE_RADIUS_SQUARED;
                        Ok(
                            Progress::Finish(
                                Outcome {
                                    attractor: Some(at),
                                    captured,
                                    iterations: self.iteration,
                                },
                            ),
                        )
                    },
                    None => Err(QueryError::EmptySet),
                }
            },
            _ => {
                match scan(readings) {
                    Scan::Captured(at) => Ok(
                        Progress::Finish(
                            Outcome {
                                attractor: Some(at),
                                captured: true,
                                iterations: self.iteration,
                            },
                        ),
                    ),
                    Scan::Free(least) => {
                        if self.iteration >= MAX_ITERATIONS - 1 {
                            Ok(
                                Progress::Finish(
                                    Outcome {
                                        attractor: None,
                                        captured: false,
                                        iterations: MAX_ITERATIONS,
                                    },
                                ),
                            )
                        } else {
                            let step: Step = match self.fidelity {
                                Fidelity::FixedEuler => Step::Fixed,
                                _ => Step::Adaptive(least),
                            };
                            Ok(
                                Progress::Advance(
                                    Trajectory {
                                        fidelity: self.fidelity,
                                        gravitons: self.gravitons,
                                        iteration: self.iteration + 1,
                                    },
                                    step,
                                ),
                            )
                        }
                    },
                }
            },
        }
    }
}

/// The trajectory in a scene of `gravitons` gravitons before its first step.
pub open spec fn fresh(fidelity: Fidelity, gravitons: nat) -> Trajectory {
    Trajectory { fidelity, gravitons: gravitons as usize, iteration: 0 }
}

/// The trajectory `steps` steps after `first`.
pub open spec fn after_steps(first: Trajectory, steps: int) -> Trajectory {
    Trajectory {
        fidelity: first.fidelity,
        gravitons: first.gravitons,
        iteration: (first.iteration + steps) as u32,
    }
}

/// `states` and `rows` record a whole run from `start` that ends in `result`.
///
/// The run begins at `start`. Each row is what `measure` gave for the state
/// beside it. Every row but the last told the trajectory to take a step, and
/// the next state is what `advance` made of the state and that step. The last
/// row ended the trajectory, with `result`.
pub open spec fn is_run<P, M: Fn(P) -> Vec<u32>, A: Fn(P, Step) -> P>(
    measure: &M,
    advance: &A,
    first: Trajectory,
    start: P,
    states: Seq<P>,
    rows: Seq<Vec<u32>>,
    result: Result<Outcome, QueryError>,
) -> bool {
    &&& 1 <= rows.len() <= MAX_ITERATIONS
    &&& states.len() == rows.len()
    &&& states[0] == start
    &&& forall|i: int|
        0 <= i < rows.len() ==> call_ensures(*measure, (states[i],), #[trigger] rows[i])
    &&& forall|i: int|
        0 <= i < rows.len() - 1 ==> match after_steps(first, i).next((#[trigger] rows[i])@) {
            Ok(Progress::Advance(_, step)) => call_ensures(
                *advance,
                (states[i], step),
                states[i + 1],
            ),
            _ => false,
        }
    &&& match after_steps(first, rows.len() - 1).next(rows.last()@) {
        Ok(Progress::Finish(outcome)) => result == Ok::<Outcome, QueryError>(outcome),
        Ok(Progress::Advance(_, _)) => false,
        Err(e) => result == Err::<Outcome, QueryError>(e),
    }
}

/// Some run from `start` in a scene of `gravitons` gravitons ends in `result`.
pub open spec fn ends_in<P, M: Fn(P) -> Vec<u32>, A: Fn(P, Step) -> P>(
    measure: &M,
    advance: &A,
    fidelity: Fidelity,
    gravitons: nat,
    start: P,
    result: Result<Outcome, QueryError>,
) -> bool {
    exists|states: Seq<P>, rows: Seq<Vec<u32>>| #[trigger]
        is_run(measure, advance, fresh(fidelity, gravitons), start, states, rows, result)
}

/// `measure` gives the same readings whenever it is asked about the same state.
pub open spec fn measures_one_way<P, M: Fn(P) -> Vec<u32>>(measure: &M) -> bool {
    forall|p: P, a: Vec<u32>, b: Vec<u32>|
        #[trigger] call_ensures(*measure, (p,), a) && #[trigger] call_ensures(*measure, (p,), b)
            ==> a@ == b@
}

/// `advance` makes the same state whenever it is given the same state and step.
pub open spec fn advances_one_way<P, A: Fn(P, Step) -> P>(advance: &A) -> bool {
    forall|p: P, step: Step, a: P, b: P|
        #[trigger] call_ensures(*advance, (p, step), a) && #[trigger] call_ensures(
            *advance,
            (p, step),
            b,
        ) ==> a == b
}

/// Follows the trajectory of a test particle released at `start` until a
/// graviton captures it or `MAX_ITERATIONS` steps are used up.
///
/// `measure` gives the readings at a state of the particle, one for each
/// graviton of the scene and in the scene's order; `advance` moves the
/// particle by one step. In an empty scene the query fails before anything is
/// measured.
pub fn simulate<P: Copy, M: Fn(P) -> Vec<u32>, A: Fn(P, Step) -> P>(
    fidelity: Fidelity,
    scene: &Data,
    start: P,
    measure: &M,
    advance: &A,
) -> (result: Result<Outcome, QueryError>)
    requires
        forall|p: P| call_requires(*measure, (p,)),
        forall|p: P, step: Step| call_requires(*advance, (p, step)),
    ensures
        scene@.len() == 0 ==> result == Err::<Outcome, QueryError>(QueryError::EmptySet),
        scene@.len() > 0 ==> ends_in(measure, advance, fidelity, scene@.len(), start, result),
        match result {
            Ok(outcome) => {
                &&& scene@.len() > 0
                &&& outcome.iterations <= MAX_ITERATIONS
                &&& outcome.attractor matches Some(at) ==> at < scene@.len()
                &&& outcome.captured ==> outcome.attractor is Some
                &&& outcome.attractor is None ==> outcome.iterations == MAX_ITERATIONS
            },
            Err(e) => (e == QueryError::EmptySet) == (scene@.len() == 0),
        },
{
    let first: Trajectory = match Trajectory::start(fidelity, scene) {
        Ok(first) => first,
        Err(e) => {
            return Err(e);
        },
    };
    let mut trajectory: Trajectory = first;
    let mut particle: P = start;
    let ghost mut states: Seq<P> = seq![start];
    let ghost mut rows: Seq<Vec<u32>> = Seq::empty();
    loop
        invariant
            first == fresh(fidelity, scene@.len()),
            0 < scene@.len() <= usize::MAX,
            forall|p: P| call_requires(*measure, (p,)),
            forall|p: P, step: Step| call_requires(*advance, (p, step)),
            rows.len() < MAX_ITERATIONS,
            trajectory == after_steps(first, rows.len() as int),
            states.len() == rows.len() + 1,
            states[0] == start,
            states.last() == particle,
            forall|i: int|
                0 <= i < rows.len() ==> call_ensures(*measure, (states[i],), #[trigger] rows[i]),
            forall|i: int|
                0 <= i < rows.len() ==> match after_steps(first, i).next((#[trigger] rows[i])@) {
                    Ok(Progress::Advance(_, step)) => call_ensures(
                        *advance,
                        (states[i], step),
                        states[i + 1],
                    ),
                    _ => false,
                },
        decreases MAX_ITERATIONS - rows.len(),
    {
        let readings: Vec<u32> = measure(particle);
        let told = trajectory.observe(&readings);
        proof {
            rows = rows.push(readings);
        }
        match told {
            Ok(Progress::Advance(onward, step)) => {
                particle = advance(particle, step);
                trajectory = onward;
                proof {
                    states = states.push(particle);
                }
            },
            Ok(Progress::Finish(outcome)) => {
                proof {
                    assert(is_run(measure, advance, first, start, states, rows, Ok(outcome)));
                    lemma_run_result(
                        measure,
                        advance,
                        fidelity,
                        scene@.len(),
                        start,
                        states,
                        rows,
                        Ok(outcome),
                    );
                }
                return Ok(outcome);
            },
            Err(e) => {
                proof {
                    assert(is_run(measure, advance, first, start, states, rows, Err(e)));
                    lemma_run_result(
                        measure,
                        advance,
                        fidelity,
                        scene@.len(),
                        start,
                        states,
                        rows,
                        Err(e),
                    );
                }
                return Err(e);
            },
        }
    }
}

/// What every run from a fresh trajectory ends in: an error only where a row
/// of readings had the wrong length; a graviton only if the scene holds it;
/// never more than `MAX_ITERATIONS` steps, and exactly as many steps as there
/// were rows before the last, unless the steps were used up.
pub proof fn lemma_run_result<P, M: Fn(P) -> Vec<u32>, A: Fn(P, Step) -> P>(
    measure: &M,
    advance: &A,
    fidelity: Fidelity,
    gravitons: nat,
    start: P,
    states: Seq<P>,
    rows: Seq<Vec<u32>>,
    result: Result<Outcome, QueryError>,
)
    requires
        0 < gravitons <= usize::MAX,
        is_run(measure, advance, fresh(fidelity, gravitons), start, states, rows, result),
    ensures
        match result {
            Ok(outcome) => {
                &&& outcome.iterations <= MAX_ITERATIONS
                &&& outcome.attractor matches Some(at) ==> at < gravitons
                &&& outcome.captured ==> outcome.attractor is Some
                &&& outcome.attractor is Some ==> outcome.iterations == rows.len() - 1
                &&& outcome.attractor is None ==> outcome.iterations == MAX_ITERATIONS
                    && rows.len() == MAX_ITERATIONS
                &&& fidelity == Fidelity::Nearest ==> rows.len() == 1 && outcome.attractor is Some
            },
            Err(e) => e == QueryError::ReadingCount && rows.last()@.len() != gravitons,
        },
{
    let readings = rows.last()@;
    lemma_first_capture(readings);
    lemma_nearest(readings);
    if rows.len() > 1 {
        let before = rows[rows.len() - 2];
        assert(after_steps(fresh(fidelity, gravitons), rows.len() - 2).next(before@) is Ok);
    }
}

/// A run that takes steps ends at the first row in which a graviton captures
/// the particle, with the earliest graviton that does: no row before the last
/// holds a capture, and the last holds none only where the steps were used up.
pub proof fn lemma_run_ends_at_first_capture<P, M: Fn(P) -> Vec<u32>, A: Fn(P, Step) -> P>(
    measure: &M,
    advance: &A,
    fidelity: Fidelity,
    gravitons: nat,
    start: P,
    states: Seq<P>,
    rows: Seq<Vec<u32>>,
    result: Result<Outcome, QueryError>,
)
    requires
        fidelity != Fidelity::Nearest,
        0 < gravitons <= usize::MAX,
        is_run(measure, advance, fresh(fidelity, gravitons), start, states, rows, result),
    ensures
        forall|i: int| 0 <= i < rows.len() - 1 ==> none_captures((#[trigger] rows[i])@),
        match result {
            Ok(outcome) => match outcome.attractor {
                Some(at) => outcome.captured && is_first_capture(rows.last()@, at as int),
                None => !outcome.captured && none_captures(rows.last()@),
            },
            Err(_) => true,
        },
{
    let first = fresh(fidelity, gravitons);
    assert forall|i: int| 0 <= i < rows.len() - 1 implies none_captures(
        (#[trigger] rows[i])@,
    ) by {
        assert(after_steps(first, i).next(rows[i]@) is Ok);
        lemma_step_is_outside_radius(after_steps(first, i), rows[i]@);
    }
    lemma_first_capture(rows.last()@);
}

/// A run whose start point lies within the capture radius of a graviton ends
/// on its first row, with that graviton and no step taken, provided no
/// graviton is closer and no earlier graviton holds the point within its own
/// capture radius.
pub proof fn lemma_run_captured_at_start<P, M: Fn(P) -> Vec<u32>, A: Fn(P, Step) -> P>(
    measure: &M,
    advance: &A,
    fidelity: Fidelity,
    start: P,
    states: Seq<P>,
    rows: Seq<Vec<u32>>,
    result: Result<Outcome, QueryError>,
    at: int,
)
    requires
        fidelity != Fidelity::Nearest,
        0 < rows[0]@.len() <= usize::MAX,
        is_run(measure, advance, fresh(fidelity, rows[0]@.len()), start, states, rows, result),
        0 <= at < rows[0]@.len(),
        captures(rows[0]@[at]),
        forall|j: int| 0 <= j < rows[0]@.len() ==> rows[0]@[at] <= #[trigger] rows[0]@[j],
        forall|j: int| 0 <= j < at ==> !captures(#[trigger] rows[0]@[j]),
    ensures
        rows.len() == 1,
        result == Ok::<Outcome, QueryError>(
            Outcome { attractor: Some(at as usize), captured: true, iterations: 0 },
        ),
{
    lemma_capture_at_start(fidelity, rows[0]@, at);
    assert(after_steps(fresh(fidelity, rows[0]@.len()), 0) == fresh(fidelity, rows[0]@.len()));
}

/// Two runs from one start agree on every state that both reach, where the
/// readings and the steps are functions of their arguments.
proof fn lemma_runs_share_states<P, M: Fn(P) -> Vec<u32>, A: Fn(P, Step) -> P>(
    measure: &M,
    advance: &A,
    first: Trajectory,
    start: P,
    states: Seq<P>,
    rows: Seq<Vec<u32>>,
    result: Result<Outcome, QueryError>,
    other_states: Seq<P>,
    other_rows: Seq<Vec<u32>>,
    other_result: Result<Outcome, QueryError>,
    reached: int,
)
    requires
        measures_one_way(measure),
        advances_one_way(advance),
        is_run(measure, advance, first, start, states, rows, result),
        is_run(measure, advance, first, start, other_states, other_rows, other_result),
        0 <= reached < rows.len(),
        reached < other_rows.len(),
    ensures
        states[reached] == other_states[reached],
        rows[reached]@ == other_rows[reached]@,
    decreases reached,
{
    if reached > 0 {
        lemma_runs_share_states(
            measure,
            advance,
            first,
            start,
            states,
            rows,
            result,
            other_states,
            other_rows,
            other_result,
            reached - 1,
        );
        let before = reached - 1;
        assert(after_steps(first, before).next(rows[before]@) is Ok);
        assert(after_steps(first, before).next(other_rows[before]@) is Ok);
    }
    assert(call_ensures(*measure, (states[reached],), rows[reached]));
    assert(call_ensures(*measure, (other_states[reached],), other_rows[reached]));
}

/// The result of a trajectory is a function of the scene's size, the fidelity
/// and the start point: where the readings and the steps are functions of
/// their arguments, any two runs from one start end alike.
pub proof fn lemma_runs_agree<P, M: Fn(P) -> Vec<u32>, A: Fn(P, Step) -> P>(
    measure: &M,
    advance: &A,
    first: Trajectory,
    start: P,
    states: Seq<P>,
    rows: Seq<Vec<u32>>,
    result: Result<Outcome, QueryError>,
    other_states: Seq<P>,
    other_rows: Seq<Vec<u32>>,
    other_result: Result<Outcome, QueryError>,
)
    requires
        measures_one_way(measure),
        advances_one_way(advance),
        is_run(measure, advance, first, start, states, rows, result),
        is_run(measure, advance, first, start, other_states, other_rows, other_result),
    ensures
        rows.len() == other_rows.len(),
        result == other_result,
{
    let shorter = if rows.len() <= other_rows.len() {
        rows.len() - 1
    } else {
        other_rows.len() - 1
    };
    lemma_runs_share_states(
        measure,
        advance,
        first,
        start,
        states,
        rows,
        result,
        other_states,
        other_rows,
        other_result,
        shorter,
    );
    if rows.len() < other_rows.len() {
        assert(after_steps(first, shorter).next(other_rows[shorter]@) is Ok);
    } else if other_rows.len() < rows.len() {
        assert(after_steps(first, shorter).next(rows[shorter]@) is Ok);
    }
}

/// A start point within the capture radius of a graviton ends the trajectory
/// at once, with that graviton and no step taken, provided no graviton is
/// closer and no earlier graviton holds the point within its own capture
/// radius.
pub proof fn lemma_capture_at_start(fidelity: Fidelity, readings: Seq<u32>, at: int)
    requires
        fidelity != Fidelity::Nearest,
        0 < readings.len() <= usize::MAX,
        0 <= at < readings.len(),
        captures(readings[at]),
        forall|j: int| 0 <= j < readings.len() ==> readings[at] <= #[trigger] readings[j],
        forall|j: int| 0 <= j < at ==> !captures(#[trigger] readings[j]),
    ensures
        (Trajectory { fidelity, gravitons: readings.len() as usize, iteration: 0 }).next(readings)
            == Ok::<Progress, QueryError>(
            Progress::Finish(
                Outcome { attractor: Some(at as usize), captured: true, iterations: 0 },
            ),
        ),
{
    lemma_first_capture_unique(readings, at);
}

/// Where two gravitons both hold the particle within their capture radius,
/// the trajectory ends with a graviton that is not behind the earlier of the
/// two: the later one never wins.
pub proof fn lemma_earlier_capture_wins(
    trajectory: Trajectory,
    readings: Seq<u32>,
    earlier: int,
    later: int,
)
    requires
        trajectory.fidelity != Fidelity::Nearest,
        trajectory.gravitons == readings.len(),
        0 <= earlier < later < readings.len(),
        captures(readings[earlier]),
        captures(readings[later]),
    ensures
        match trajectory.next(readings) {
            Ok(Progress::Finish(outcome)) => {
                &&& outcome.captured
                &&& outcome.iterations == trajectory.iteration
                &&& outcome.attractor matches Some(winner)
                &&& winner <= earlier
                &&& is_first_capture(readings, winner as int)
            },
            _ => false,
        },
{
    lemma_first_capture(readings);
}

/// A step is only ever asked for outside every capture radius: the least
/// reading that an adaptive step carries is not below the squared capture
/// radius, and the trajectory goes on with one step more behind it.
pub proof fn lemma_step_is_outside_radius(trajectory: Trajectory, readings: Seq<u32>)
    requires
        trajectory.next(readings) matches Ok(Progress::Advance(_, _)),
    ensures
        trajectory.fidelity != Fidelity::Nearest,
        trajectory.iteration < MAX_ITERATIONS - 1,
        trajectory.next(readings) matches Ok(Progress::Advance(onward, step)) && {
            &&& onward == after_steps(trajectory, 1)
            &&& step == trajectory.fidelity.step(least_reading(readings))
            &&& step matches Step::Adaptive(least) ==> CAPTURE_RADIUS_SQUARED <= least
                <= LARGEST_FINITE
        },
        none_captures(readings),
{
    lemma_first_capture(readings);
    lemma_least_reading(readings);
    let least = least_reading(readings);
    if least != LARGEST_FINITE {
        let j = choose|j: int| 0 <= j < readings.len() && #[trigger] readings[j] == least;
        assert(!captures(readings[j]));
    }
}

/// The fidelity that takes no steps answers with the first of the nearest
/// gravitons.
pub proof fn lemma_nearest_answer(trajectory: Trajectory, readings: Seq<u32>, at: int)
    requires
        trajectory.fidelity == Fidelity::Nearest,
        trajectory.gravitons == readings.len(),
        is_nearest(readings, at),
    ensures
        trajectory.next(readings) == Ok::<Progress, QueryError>(
            Progress::Finish(
                Outcome {
                    attractor: Some(at as usize),
                    captured: captures(readings[at]),
                    iterations: trajectory.iteration,
                },
            ),
        ),
{
    lemma_nearest_unique(readings, at);
}

} // verus!
