use std::cell::{Cell, RefCell};

use glam::{vec2, Vec2};
use gravity_basins::compositor::present;
use gravity_basins::computer::{BasinFieldComputer, Pass};
use gravity_basins::field::{Domain, FieldBuffer, FieldError, Rgba};
use gravity_basins::graviton::{Data, Graviton};
use gravity_basins::trajectory::{simulate, Fidelity, Outcome, QueryError, Step};

#[derive(Clone, Copy, Debug, PartialEq)]
struct Particle {
    position: Vec2,
    velocity: Vec2,
}

const RED: [f32; 3] = [1., 0., 0.];
const GREEN: [f32; 3] = [0., 1., 0.];
const BLUE: [f32; 3] = [0., 0., 1.];

fn graviton(x: f32, y: f32, color: [f32; 3], mass: f32) -> Graviton {
    Graviton::new(
        x.to_bits(),
        y.to_bits(),
        color[0].to_bits(),
        color[1].to_bits(),
        color[2].to_bits(),
        mass.to_bits(),
    )
}

fn scene_of(gravitons: &[Graviton]) -> Data {
    let mut scene = Data::empty();
    for g in gravitons {
        scene.push(*g).unwrap();
    }
    scene
}

fn three() -> Data {
    scene_of(&[
        graviton(200., 100., RED, 1.),
        graviton(300., 400., GREEN, 1.),
        graviton(450., 50., BLUE, 1.),
    ])
}

fn place_of(g: &Graviton) -> Vec2 {
    vec2(f32::from_bits(g.position_x), f32::from_bits(g.position_y))
}

fn at_rest(x: f32, y: f32) -> Particle {
    Particle { position: vec2(x, y), velocity: Vec2::ZERO }
}

fn readings(scene: &Data, p: Particle) -> Vec<u32> {
    (0..scene.len())
        .map(|i| place_of(&scene.get(i).unwrap()).distance_squared(p.position).to_bits())
        .collect()
}

fn accel(coord: Vec2, scene: &Data) -> Vec2 {
    let mut acceleration = Vec2::ZERO;
    for i in 0..scene.len() {
        let g = scene.get(i).unwrap();
        let vector = place_of(&g) - coord;
        let distance_squared = place_of(&g).distance_squared(coord).max(f32::MIN_POSITIVE);
        let distance = distance_squared.sqrt();
        acceleration += vector * (f32::from_bits(g.mass) / (distance_squared * distance));
    }
    acceleration
}

fn rk4_step(p: Particle, dt: f32, scene: &Data) -> Particle {
    let a1 = accel(p.position, scene);
    let v1 = p.velocity;
    let a2 = accel(p.position + v1 * (dt * 0.5), scene);
    let v2 = p.velocity + a1 * (dt * 0.5);
    let a3 = accel(p.position + v2 * (dt * 0.5), scene);
    let v3 = p.velocity + a2 * (dt * 0.5);
    let a4 = accel(p.position + v3 * dt, scene);
    let v4 = p.velocity + a3 * dt;
    Particle {
        position: p.position + (v1 + v2 * 2.0 + v3 * 2.0 + v4) * (dt / 6.0),
        velocity: p.velocity + (a1 + a2 * 2.0 + a3 * 2.0 + a4) * (dt / 6.0),
    }
}

fn advance(scene: &Data, p: Particle, step: Step) -> Particle {
    match step {
        Step::Adaptive(least) => {
            let dt = (f32::from_bits(least).sqrt() * 0.1).clamp(0.002, 0.05);
            rk4_step(p, dt, scene)
        }
        Step::Fixed => {
            let velocity = p.velocity + accel(p.position, scene) * 0.01;
            Particle { position: p.position + velocity * 0.01, velocity }
        }
    }
}

fn query(fidelity: Fidelity, scene: &Data, x: f32, y: f32) -> Result<Outcome, QueryError> {
    simulate(
        fidelity,
        scene,
        at_rest(x, y),
        &|p: Particle| readings(scene, p),
        &|p: Particle, step: Step| advance(scene, p, step),
    )
}

fn colour(c: [f32; 3], a: f32) -> Rgba {
    Rgba { r: c[0].to_bits(), g: c[1].to_bits(), b: c[2].to_bits(), a: a.to_bits() }
}

fn field_of(
    computer: &mut BasinFieldComputer,
    scene: &Data,
    origin: Vec2,
    released: &Cell<u32>,
) -> Result<Pass, QueryError> {
    computer.compute(
        scene,
        &|x: u32, y: u32| {
            released.set(released.get() + 1);
            Particle { position: origin + vec2(x as f32, y as f32), velocity: Vec2::ZERO }
        },
        &|p: Particle| readings(scene, p),
        &|p: Particle, step: Step| advance(scene, p, step),
    )
}

#[test]
fn a_point_on_a_graviton_is_captured_at_once() {
    let scene = scene_of(&[graviton(200., 100., RED, 1.)]);
    let outcome = query(Fidelity::AdaptiveRk4, &scene, 200., 100.).unwrap();
    assert_eq!(outcome, Outcome { attractor: Some(0), captured: true, iterations: 0 });
    let mut computer = BasinFieldComputer::new(Fidelity::AdaptiveRk4, 1, 1).unwrap();
    let released = Cell::new(0);
    assert_eq!(field_of(&mut computer, &scene, vec2(200., 100.), &released), Ok(Pass::Computed));
    let field = computer.lookup(&scene).unwrap();
    assert_eq!(field.get(0, 0), Some(colour(RED, 1.)));
}

#[test]
fn three_gravitons_golden_capture() {
    let scene = three();
    let outcome = query(Fidelity::AdaptiveRk4, &scene, 200., 400.).unwrap();
    assert_eq!(outcome, Outcome { attractor: Some(1), captured: true, iterations: 31 });
    let mut computer = BasinFieldComputer::new(Fidelity::AdaptiveRk4, 1, 1).unwrap();
    let released = Cell::new(0);
    assert_eq!(field_of(&mut computer, &scene, vec2(200., 400.), &released), Ok(Pass::Computed));
    assert_eq!(computer.lookup(&scene).unwrap().get(0, 0), Some(colour(GREEN, 1.)));
}

#[test]
fn an_empty_scene_is_an_error() {
    let scene = Data::empty();
    for fidelity in [Fidelity::AdaptiveRk4, Fidelity::FixedEuler, Fidelity::Nearest] {
        assert_eq!(query(fidelity, &scene, 200., 100.), Err(QueryError::EmptySet));
        assert_eq!(query(fidelity, &scene, 0., 0.), Err(QueryError::EmptySet));
        let mut computer = BasinFieldComputer::new(fidelity, 4, 3).unwrap();
        let released = Cell::new(0);
        assert_eq!(
            field_of(&mut computer, &scene, Vec2::ZERO, &released),
            Err(QueryError::EmptySet)
        );
        assert_eq!(released.get(), 0);
        assert!(computer.field().is_none());
    }
}

#[test]
fn inside_the_radius_with_none_closer_is_captured_at_once() {
    let scene = three();
    for (x, y, winner) in [(250., 130., 0), (300., 320., 1), (449., 120., 2), (200., 199., 0)] {
        let outcome = query(Fidelity::AdaptiveRk4, &scene, x, y).unwrap();
        assert_eq!(outcome, Outcome { attractor: Some(winner), captured: true, iterations: 0 });
        let outcome = query(Fidelity::FixedEuler, &scene, x, y).unwrap();
        assert_eq!(outcome, Outcome { attractor: Some(winner), captured: true, iterations: 0 });
    }
}

#[test]
fn the_earlier_graviton_wins_where_two_capture() {
    let scene =
        scene_of(&[graviton(200., 100., RED, 1.), graviton(260., 100., GREEN, 1.)]);
    let outcome = query(Fidelity::AdaptiveRk4, &scene, 255., 100.).unwrap();
    assert_eq!(outcome, Outcome { attractor: Some(0), captured: true, iterations: 0 });
    let outcome = query(Fidelity::Nearest, &scene, 255., 100.).unwrap();
    assert_eq!(outcome, Outcome { attractor: Some(1), captured: true, iterations: 0 });
}

#[test]
fn a_distant_particle_runs_out_of_steps() {
    let scene = scene_of(&[graviton(0., 0., RED, 1.)]);
    for fidelity in [Fidelity::AdaptiveRk4, Fidelity::FixedEuler] {
        let outcome = query(fidelity, &scene, 5000., 0.).unwrap();
        assert_eq!(outcome, Outcome { attractor: None, captured: false, iterations: 1000 });
    }
    let outcome = query(Fidelity::Nearest, &scene, 5000., 0.).unwrap();
    assert_eq!(outcome, Outcome { attractor: Some(0), captured: false, iterations: 0 });
}

#[test]
fn a_heavy_graviton_pulls_the_particle_in() {
    let scene = scene_of(&[graviton(0., 0., RED, 1.0e6)]);
    let outcome = query(Fidelity::AdaptiveRk4, &scene, 120., 0.).unwrap();
    assert_eq!(outcome.attractor, Some(0));
    assert!(outcome.captured);
    assert!(0 < outcome.iterations && outcome.iterations < 1000);
    let euler = query(Fidelity::FixedEuler, &scene, 120., 0.).unwrap();
    assert_eq!(euler.attractor, Some(0));
    assert!(euler.iterations > outcome.iterations);
}

#[test]
fn a_query_is_a_function_of_scene_and_point() {
    let scene = three();
    for (x, y) in [(200., 400.), (0., 0.), (320., 200.), (450., 151.)] {
        let first = query(Fidelity::AdaptiveRk4, &scene, x, y);
        let second = query(Fidelity::AdaptiveRk4, &scene, x, y);
        assert_eq!(first, second);
    }
}

#[test]
fn a_wrong_number_of_readings_is_an_error() {
    let scene = three();
    let told = simulate(
        Fidelity::AdaptiveRk4,
        &scene,
        at_rest(0., 0.),
        &|_p: Particle| vec![0u32, 0u32],
        &|p: Particle, _step: Step| p,
    );
    assert_eq!(told, Err(QueryError::ReadingCount));
}

#[test]
fn a_field_takes_the_colours_of_the_winners() {
    let scene = three();
    let mut computer = BasinFieldComputer::new(Fidelity::Nearest, 3, 2).unwrap();
    let released = Cell::new(0);
    let pass = computer.compute(
        &scene,
        &|x: u32, y: u32| {
            released.set(released.get() + 1);
            at_rest(200. + 125. * x as f32, 100. + 300. * y as f32)
        },
        &|p: Particle| readings(&scene, p),
        &|p: Particle, step: Step| advance(&scene, p, step),
    );
    assert_eq!(pass, Ok(Pass::Computed));
    assert_eq!(released.get(), 6);
    let field = computer.lookup(&scene).unwrap();
    assert_eq!(field.domain(), Domain { width: 3, height: 2 });
    assert_eq!(field.generation(), scene.generation());
    let expected = vec![
        colour(RED, 1.),
        colour(RED, 1.),
        colour(BLUE, 1.),
        colour(GREEN, 1.),
        colour(GREEN, 1.),
        colour(GREEN, 1.),
    ];
    assert_eq!(field.cells(), &expected);
    assert_eq!(field.get(2, 0), Some(colour(BLUE, 1.)));
    assert_eq!(field.at(0, 1), colour(GREEN, 1.));
    assert_eq!(field.get(3, 0), None);
    assert_eq!(field.get(0, 2), None);
}

#[test]
fn an_uncaptured_cell_has_no_colour_and_no_coverage() {
    let scene = scene_of(&[graviton(0., 0., RED, 1.)]);
    let mut computer = BasinFieldComputer::new(Fidelity::AdaptiveRk4, 2, 1).unwrap();
    let released = Cell::new(0);
    let pass = computer.compute(
        &scene,
        &|x: u32, _y: u32| {
            released.set(released.get() + 1);
            at_rest(5000. * x as f32, 0.)
        },
        &|p: Particle| readings(&scene, p),
        &|p: Particle, step: Step| advance(&scene, p, step),
    );
    assert_eq!(pass, Ok(Pass::Computed));
    let field = computer.field().unwrap();
    assert_eq!(field.cells(), &vec![colour(RED, 1.), Rgba { r: 0, g: 0, b: 0, a: 0 }]);
}

#[test]
fn compute_twice_is_served_from_the_kept_field() {
    let scene = three();
    let mut computer = BasinFieldComputer::new(Fidelity::AdaptiveRk4, 4, 3).unwrap();
    let released = Cell::new(0);
    assert!(computer.lookup(&scene).is_none());
    assert_eq!(field_of(&mut computer, &scene, vec2(198., 98.), &released), Ok(Pass::Computed));
    assert_eq!(released.get(), 12);
    let first: Vec<Rgba> = computer.lookup(&scene).unwrap().cells().clone();
    assert_eq!(field_of(&mut computer, &scene, vec2(198., 98.), &released), Ok(Pass::Reused));
    assert_eq!(released.get(), 12);
    assert_eq!(computer.lookup(&scene).unwrap().cells(), &first);
}

#[test]
fn a_new_generation_is_computed_anew() {
    let mut scene = three();
    let mut computer = BasinFieldComputer::new(Fidelity::Nearest, 2, 2).unwrap();
    let released = Cell::new(0);
    assert_eq!(field_of(&mut computer, &scene, vec2(440., 40.), &released), Ok(Pass::Computed));
    assert_eq!(computer.field().unwrap().cells(), &vec![colour(BLUE, 1.); 4]);
    scene.push(graviton(441., 41., RED, 1.)).unwrap();
    assert!(computer.lookup(&scene).is_none());
    assert!(computer.field().is_some());
    assert_eq!(field_of(&mut computer, &scene, vec2(440., 40.), &released), Ok(Pass::Computed));
    assert_eq!(released.get(), 8);
    assert_eq!(computer.field().unwrap().cells(), &vec![colour(RED, 1.); 4]);
    assert_eq!(computer.field().unwrap().generation(), 4);
}

#[test]
fn resize_drops_the_kept_field() {
    let scene = three();
    let mut computer = BasinFieldComputer::new(Fidelity::Nearest, 2, 2).unwrap();
    let released = Cell::new(0);
    assert_eq!(field_of(&mut computer, &scene, Vec2::ZERO, &released), Ok(Pass::Computed));
    assert_eq!(computer.resize(2, 2), Ok(()));
    assert!(computer.lookup(&scene).is_some());
    assert_eq!(computer.resize(0, 2), Err(FieldError::EmptyDomain));
    assert_eq!(computer.resize(2, 0), Err(FieldError::EmptyDomain));
    assert_eq!(computer.domain(), Domain { width: 2, height: 2 });
    assert!(computer.lookup(&scene).is_some());
    assert_eq!(computer.resize(3, 2), Ok(()));
    assert_eq!(computer.domain(), Domain { width: 3, height: 2 });
    assert!(computer.field().is_none());
    assert_eq!(field_of(&mut computer, &scene, Vec2::ZERO, &released), Ok(Pass::Computed));
    assert_eq!(released.get(), 10);
    assert_eq!(computer.field().unwrap().domain(), Domain { width: 3, height: 2 });
}

#[test]
fn a_change_of_fidelity_drops_the_kept_field() {
    let scene = three();
    let mut computer = BasinFieldComputer::new(Fidelity::Nearest, 1, 1).unwrap();
    let released = Cell::new(0);
    assert_eq!(field_of(&mut computer, &scene, Vec2::ZERO, &released), Ok(Pass::Computed));
    computer.set_fidelity(Fidelity::Nearest);
    assert!(computer.field().is_some());
    computer.set_fidelity(Fidelity::FixedEuler);
    assert_eq!(computer.fidelity(), Fidelity::FixedEuler);
    assert!(computer.field().is_none());
}

#[test]
fn a_failed_pass_keeps_the_earlier_field() {
    let mut scene = three();
    let mut computer = BasinFieldComputer::new(Fidelity::Nearest, 2, 1).unwrap();
    let released = Cell::new(0);
    assert_eq!(field_of(&mut computer, &scene, Vec2::ZERO, &released), Ok(Pass::Computed));
    let kept: Vec<Rgba> = computer.field().unwrap().cells().clone();
    scene.push(graviton(0., 0., BLUE, 1.)).unwrap();
    let pass = computer.compute(
        &scene,
        &|x: u32, y: u32| at_rest(x as f32, y as f32),
        &|_p: Particle| vec![1u32],
        &|p: Particle, _step: Step| p,
    );
    assert_eq!(pass, Err(QueryError::ReadingCount));
    assert_eq!(computer.field().unwrap().cells(), &kept);
    assert_eq!(computer.field().unwrap().generation(), 3);
}

#[test]
fn domains() {
    assert_eq!(Domain::new(0, 5), Err(FieldError::EmptyDomain));
    assert_eq!(Domain::new(5, 0), Err(FieldError::EmptyDomain));
    assert_eq!(Domain::new(0, 0), Err(FieldError::EmptyDomain));
    let d = Domain::new(640, 480).unwrap();
    assert_eq!(d, Domain { width: 640, height: 480 });
    assert_eq!(d.cell_count(), Ok(307200));
    assert_eq!(d.index(0, 0), Some(0));
    assert_eq!(d.index(639, 0), Some(639));
    assert_eq!(d.index(0, 1), Some(640));
    assert_eq!(d.index(17, 3), Some(3 * 640 + 17));
    assert_eq!(d.index(640, 0), None);
    assert_eq!(d.index(0, 480), None);
    assert_eq!(d.coordinate(3 * 640 + 17), Some((17, 3)));
    assert_eq!(d.coordinate(307199), Some((639, 479)));
    assert_eq!(d.coordinate(307200), None);
    assert!(BasinFieldComputer::new(Fidelity::Nearest, 0, 1).is_err());
}

#[test]
fn assemble_checks_the_outcomes() {
    let scene = three();
    let d = Domain::new(2, 1).unwrap();
    let won = |at: usize| Outcome { attractor: Some(at), captured: true, iterations: 0 };
    let lost = Outcome { attractor: None, captured: false, iterations: 1000 };
    let field = FieldBuffer::assemble(d, &scene, &vec![won(2), lost]).unwrap();
    assert_eq!(field.cells(), &vec![colour(BLUE, 1.), Rgba { r: 0, g: 0, b: 0, a: 0 }]);
    assert_eq!(
        FieldBuffer::assemble(d, &scene, &vec![won(0)]).err(),
        Some(FieldError::OutcomeCount)
    );
    assert_eq!(
        FieldBuffer::assemble(d, &scene, &vec![won(0), won(3)]).err(),
        Some(FieldError::UnknownAttractor(1))
    );
    assert_eq!(
        FieldBuffer::assemble(Domain { width: 0, height: 1 }, &scene, &vec![]).err(),
        Some(FieldError::EmptyDomain)
    );
    assert_eq!(
        FieldBuffer::assemble(d, &Data::empty(), &vec![lost, lost]).err(),
        Some(FieldError::EmptyScene)
    );
}

#[test]
fn install_takes_outcomes_computed_elsewhere() {
    let scene = three();
    let mut computer = BasinFieldComputer::new(Fidelity::AdaptiveRk4, 2, 2).unwrap();
    let starts = [(200., 100.), (200., 400.), (450., 50.), (5000., 5000.)];
    let outcomes: Vec<Outcome> = starts
        .iter()
        .map(|(x, y)| query(Fidelity::AdaptiveRk4, &scene, *x, *y).unwrap())
        .collect();
    assert_eq!(computer.install(&scene, &outcomes), Ok(()));
    let field = computer.lookup(&scene).unwrap();
    let expected = vec![
        colour(RED, 1.),
        colour(GREEN, 1.),
        colour(BLUE, 1.),
        Rgba { r: 0, g: 0, b: 0, a: 0 },
    ];
    assert_eq!(field.cells(), &expected);
    let released = Cell::new(0);
    assert_eq!(field_of(&mut computer, &scene, Vec2::ZERO, &released), Ok(Pass::Reused));
    assert_eq!(released.get(), 0);
}

#[test]
fn refused_outcomes_keep_the_earlier_field() {
    let scene = three();
    let mut computer = BasinFieldComputer::new(Fidelity::Nearest, 2, 1).unwrap();
    let won = |at: usize| Outcome { attractor: Some(at), captured: true, iterations: 0 };
    assert_eq!(computer.install(&scene, &vec![won(0), won(1)]), Ok(()));
    let kept: Vec<Rgba> = computer.field().unwrap().cells().clone();
    assert_eq!(computer.install(&scene, &vec![won(0)]), Err(FieldError::OutcomeCount));
    assert_eq!(
        computer.install(&scene, &vec![won(3), won(4)]),
        Err(FieldError::UnknownAttractor(0))
    );
    assert_eq!(
        computer.install(&Data::empty(), &vec![won(0), won(1)]),
        Err(FieldError::EmptyScene)
    );
    assert_eq!(computer.field().unwrap().cells(), &kept);
}

#[test]
fn present_at_the_same_size_passes_the_field_through() {
    let scene = three();
    let d = Domain::new(2, 2).unwrap();
    let won = |at: usize| Outcome { attractor: Some(at), captured: true, iterations: 0 };
    let field = FieldBuffer::assemble(d, &scene, &vec![won(0), won(1), won(2), won(0)]).unwrap();
    let frame = present(&field, d).unwrap();
    assert_eq!(frame.cells(), field.cells());
    assert_eq!(frame.domain(), d);
    assert_eq!(frame.generation(), field.generation());
}

#[test]
fn present_resamples_to_the_viewport() {
    let scene = three();
    let d = Domain::new(2, 2).unwrap();
    let won = |at: usize| Outcome { attractor: Some(at), captured: true, iterations: 0 };
    let lost = Outcome { attractor: None, captured: false, iterations: 1000 };
    let field = FieldBuffer::assemble(d, &scene, &vec![won(0), won(1), won(2), lost]).unwrap();
    let (r, g, b) = (colour(RED, 1.), colour(GREEN, 1.), colour(BLUE, 1.));
    let n = Rgba { r: 0, g: 0, b: 0, a: 0 };
    let wide = present(&field, Domain { width: 4, height: 2 }).unwrap();
    assert_eq!(wide.cells(), &vec![r, r, g, g, b, b, n, n]);
    let tall = present(&field, Domain { width: 2, height: 3 }).unwrap();
    assert_eq!(tall.cells(), &vec![r, g, r, g, b, n]);
    let small = present(&field, Domain { width: 1, height: 1 }).unwrap();
    assert_eq!(small.cells(), &vec![r]);
    let odd = present(&field, Domain { width: 3, height: 1 }).unwrap();
    assert_eq!(odd.cells(), &vec![r, r, g]);
    assert_eq!(field.cells(), &vec![r, g, b, n]);
    assert_eq!(
        present(&field, Domain { width: 0, height: 1 }).err(),
        Some(FieldError::EmptyDomain)
    );
}

#[test]
fn a_lone_graviton_never_lets_the_particle_escape() {
    let cases = [
        (150., 0., 1.0e5),
        (0., -180., 3.0e5),
        (120., 90., 5.0e4),
        (-101., 7., 1.),
        (400., 300., 1.0e7),
    ];
    for (x, y, mass) in cases {
        let scene = scene_of(&[graviton(0., 0., RED, mass)]);
        let seen: RefCell<Vec<f32>> = RefCell::new(Vec::new());
        let outcome = simulate(
            Fidelity::AdaptiveRk4,
            &scene,
            at_rest(x, y),
            &|p: Particle| {
                let row = readings(&scene, p);
                seen.borrow_mut().push(f32::from_bits(row[0]));
                row
            },
            &|p: Particle, step: Step| advance(&scene, p, step),
        )
        .unwrap();
        let seen = seen.into_inner();
        assert!(seen.len() <= 1000);
        assert!(seen.windows(2).all(|pair| pair[1] <= pair[0]));
        if outcome.captured {
            assert_eq!(outcome.attractor, Some(0));
            assert_eq!(outcome.iterations as usize, seen.len() - 1);
            assert!(seen[seen.len() - 1] < 10000.);
        } else {
            assert_eq!(outcome, Outcome { attractor: None, captured: false, iterations: 1000 });
            assert_eq!(seen.len(), 1000);
        }
    }
}
