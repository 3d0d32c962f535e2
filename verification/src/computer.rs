//! The computer of basin fields: one trajectory for every cell of its
//! domain, and a memory of the last field it made.

use vstd::prelude::*;
use vstd::pervasive::unreached;
use crate::field::{known, shade, shade_of, shades_of, Domain, FieldBuffer, FieldError, Rgba};
use crate::graviton::{Data, Graviton};
use crate::trajectory::{ends_in, simulate, Fidelity, Outcome, QueryError, Step};

verus! {

/// How a call of `compute` was served.
#[derive(Clone, Copy, Debug, PartialEq, Eq, Structural)]
pub enum Pass {
    /// The field kept from an earlier call was still the right one.
    Reused,
    /// Every trajectory was followed anew.
    Computed,
}

/// The column of the cell at `place` in a grid of the given width.
pub open spec fn column_of(width: u32, place: int) -> u32 {
    (place % (width as int)) as u32
}

/// The row of the cell at `place` in a grid of the given width.
pub open spec fn row_of(width: u32, place: int) -> u32 {
    (place / (width as int)) as u32
}

/// Some trajectory of a particle released for the cell in column `x` of row
/// `y` ends in `result`.
pub open spec fn cell_ends_in<
    P,
    S: Fn(u32, u32) -> P,
    M: Fn(P) -> Vec<u32>,
    A: Fn(P, Step) -> P,
>(
    release: &S,
    measure: &M,
    advance: &A,
    fidelity: Fidelity,
    gravitons: nat,
    x: u32,
    y: u32,
    result: Result<Outcome, QueryError>,
) -> bool {
    exists|start: P| #[trigger]
        call_ensures(*release, (x, y), start) && ends_in(
            measure,
            advance,
            fidelity,
            gravitons,
            start,
            result,
        )
}

/// `colour` is the colour of the outcome of some trajectory of a particle
/// released for the cell in column `x` of row `y`.
pub open spec fn cell_shows<
    P,
    S: Fn(u32, u32) -> P,
    M: Fn(P) -> Vec<u32>,
    A: Fn(P, Step) -> P,
>(
    release: &S,
    measure: &M,
    advance: &A,
    fidelity: Fidelity,
    scene: Seq<Graviton>,
    x: u32,
    y: u32,
    colour: Rgba,
) -> bool {
    exists|outcome: Outcome| #[trigger]
        cell_ends_in(release, measure, advance, fidelity, scene.len(), x, y, Ok(outcome))
            && known(scene, outcome) && colour == shade_of(scene, outcome)
}

/// The compute stage for one cell: releases a particle for the cell in column
/// `x` of row `y`, follows its trajectory through `data`, and gives the colour
/// that the cell takes: that of the graviton the trajectory ended with, or no
/// colour and no coverage where it ended with none.
pub fn cs_main<P: Copy, S: Fn(u32, u32) -> P, M: Fn(P) -> Vec<u32>, A: Fn(P, Step) -> P>(
    x: u32,
    y: u32,
    data: &Data,
    fidelity: Fidelity,
    release: &S,
    measure: &M,
    advance: &A,
) -> (written: Result<Rgba, QueryError>)
    requires
        call_requires(*release, (x, y)),
        forall|p: P| call_requires(*measure, (p,)),
        forall|p: P, step: Step| call_requires(*advance, (p, step)),
    ensures
        data@.len() == 0 ==> written == Err::<Rgba, QueryError>(QueryError::EmptySet),
        data@.len() > 0 ==> match written {
            Ok(colour) => cell_shows(release, measure, advance, fidelity, data@, x, y, colour),
            Err(e) => {
                &&& e == QueryError::ReadingCount
                &&& cell_ends_in(release, measure, advance, fidelity, data@.len(), x, y, Err(e))
            },
        },
{
    if data.is_empty() {
        return Err(QueryError::EmptySet);
    }
    let start: P = release(x, y);
    let result = simulate(fidelity, data, start, measure, advance);
    proof {
        assert(cell_ends_in(release, measure, advance, fidelity, data@.len(), x, y, result));
    }
    match result {
        Ok(outcome) => match shade(data, &outcome) {
            Some(colour) => Ok(colour),
            None => unreached(),
        },
        Err(e) => Err(e),
    }
}

/// Computes basin fields over one domain at one fidelity, and keeps the last.
#[derive(Debug)]
pub struct BasinFieldComputer {
    fidelity: Fidelity,
    domain: Domain,
    cached: Option<FieldBuffer>,
}

impl BasinFieldComputer {
    /// How the trajectories are followed.
    pub closed spec fn mode(self) -> Fidelity {
        self.fidelity
    }

    /// The domain that fields are computed over.
    pub closed spec fn extent(self) -> Domain {
        self.domain
    }

    /// The field kept from the last computation, if there is one.
    pub closed spec fn kept(self) -> Option<FieldBuffer> {
        self.cached
    }

    /// The domain is valid, and a kept field covers it.
    pub open spec fn wf(self) -> bool {
        &&& self.extent().wf()
        &&& self.kept() matches Some(field) ==> field.wf() && field.extent() == self.extent()
    }

    /// The kept field was computed against the given generation.
    pub open spec fn serves(self, generation: u64) -> bool {
        self.kept() matches Some(field) && field.version() == generation
    }

    /// A computer over the given domain, with no field kept.
    pub fn new(fidelity: Fidelity, width: u32, height: u32) -> (made: Result<Self, FieldError>)
        ensures
            match made {
                Ok(computer) => {
                    &&& computer.wf()
                    &&& computer.mode() == fidelity
                    &&& computer.extent() == (Domain { width, height })
                    &&& computer.kept() is None
                },
                Err(e) => (Domain { width, height }).checked_cells() == Err::<usize, FieldError>(e),
            },
    {
        match Domain::new(width, height) {
            Ok(domain) => Ok(BasinFieldComputer { fidelity, domain, cached: None }),
            Err(e) => Err(e),
        }
    }

    /// Changes the domain. A size that differs from the present one drops the
    /// kept field; a size that is refused changes nothing.
    pub fn resize(&mut self, width: u32, height: u32) -> (resized: Result<(), FieldError>)
        requires
            old(self).wf(),
        ensures
            final(self).wf(),
            final(self).mode() == old(self).mode(),
            match resized {
                Ok(()) => {
                    &&& final(self).extent() == (Domain { width, height })
                    &&& final(self).kept() == (if old(self).extent() == (Domain { width, height }) {
                        old(self).kept()
                    } else {
                        None
                    })
                },
                Err(e) => {
                    &&& (Domain { width, height }).checked_cells() == Err::<usize, FieldError>(e)
                    &&& *final(self) == *old(self)
                },
            },
    {
        match Domain::new(width, height) {
            Ok(domain) => {
                if !(self.domain.width == width && self.domain.height == height) {
                    self.domain = domain;
                    self.cached = None;
                }
                Ok(())
            },
            Err(e) => Err(e),
        }
    }

    /// Changes how trajectories are followed. A fidelity that differs from the
    /// present one drops the kept field.
    pub fn set_fidelity(&mut self, fidelity: Fidelity)
        requires
            old(self).wf(),
        ensures
            final(self).wf(),
            final(self).mode() == fidelity,
            final(self).extent() == old(self).extent(),
            final(self).kept() == (if old(self).mode() == fidelity {
                old(self).kept()
            } else {
                None
            }),
    {
        let same: bool = match (self.fidelity, fidelity) {
            (Fidelity::AdaptiveRk4, Fidelity::AdaptiveRk4) => true,
            (Fidelity::FixedEuler, Fidelity::FixedEuler) => true,
            (Fidelity::Nearest, Fidelity::Nearest) => true,
            _ => false,
        };
        if !same {
            self.fidelity = fidelity;
            self.cached = None;
        }
    }

    pub fn fidelity(&self) -> (fidelity: Fidelity)
        ensures
            fidelity == self.mode(),
    {
        self.fidelity
    }

    pub fn domain(&self) -> (domain: Domain)
        ensures
            domain == self.extent(),
    {
        self.domain
    }

    /// The kept field, whatever generation it was computed against.
    pub fn field(&self) -> (field: Option<&FieldBuffer>)
        ensures
            match field {
                Some(kept) => self.kept() == Some(*kept),
                None => self.kept() is None,
            },
    {
        self.cached.as_ref()
    }

    /// The kept field, if it was computed against the generation of `scene`.
    pub fn lookup(&self, scene: &Data) -> (field: Option<&FieldBuffer>)
        ensures
            match field {
                Some(kept) => self.serves(scene.version()) && self.kept() == Some(*kept),
                None => !self.serves(scene.version()),
            },
    {
        match &self.cached {
            Some(kept) => {
                if kept.generation() == scene.generation() {
                    Some(kept)
                } else {
                    None
                }
            },
            None => None,
        }
    }

    /// Makes the kept field the one of `scene`, from the outcome of every cell,
    /// row by row: for a caller that has followed the trajectories itself, in
    /// whatever order and on however many threads. Outcomes that are refused
    /// leave the computer as it was.
    pub fn install(&mut self, scene: &Data, outcomes: &Vec<Outcome>) -> (installed: Result<
        (),
        FieldError,
    >)
        requires
            old(self).wf(),
        ensures
            final(self).wf(),
            final(self).mode() == old(self).mode(),
            final(self).extent() == old(self).extent(),
            match installed {
                Ok(()) => {
                    &&& scene@.len() > 0
                    &&& outcomes@.len() == old(self).extent().cells()
                    &&& forall|i: int|
                        0 <= i < outcomes@.len() ==> known(scene@, #[trigger] outcomes@[i])
                    &&& final(self).serves(scene.version())
                    &&& final(self).kept() matches Some(field) && field@ == shades_of(
                        scene@,
                        outcomes@,
                    )
                },
                Err(e) => {
                    &&& *final(self) == *old(self)
                    &&& match e {
                        FieldError::EmptyScene => scene@.len() == 0,
                        FieldError::OutcomeCount => {
                            &&& scene@.len() > 0
                            &&& outcomes@.len() != old(self).extent().cells()
                        },
                        FieldError::UnknownAttractor(at) => {
                            &&& scene@.len() > 0
                            &&& outcomes@.len() == old(self).extent().cells()
                            &&& at < outcomes@.len()
                            &&& !known(scene@, outcomes@[at as int])
                            &&& forall|i: int|
                                0 <= i < at ==> known(scene@, #[trigger] outcomes@[i])
                        },
                        FieldError::EmptyDomain => false,
                        FieldError::DomainTooLarge => false,
                    }
                },
            },
    {
        match FieldBuffer::assemble(self.domain, scene, outcomes) {
            Ok(field) => {
                self.cached = Some(field);
                Ok(())
            },
            Err(e) => Err(e),
        }
    }

    /// Makes the kept field the one of `scene`.
    ///
    /// An empty scene is refused. A kept field of the scene's generation is
    /// left as it is, and nothing is released, measured or advanced: the
    /// generation stands for the contents, so one computer is to be given the
    /// generations of one scene. Otherwise
    /// a particle is released for every cell, row by row, its trajectory is
    /// followed, and the cell takes the colour of the graviton that the
    /// trajectory ended with, or no colour and no coverage where it ended
    /// with none. A trajectory that fails leaves the computer as it was.
    pub fn compute<P: Copy, S: Fn(u32, u32) -> P, M: Fn(P) -> Vec<u32>, A: Fn(P, Step) -> P>(
        &mut self,
        scene: &Data,
        release: &S,
        measure: &M,
        advance: &A,
    ) -> (served: Result<Pass, QueryError>)
        requires
            old(self).wf(),
            forall|x: u32, y: u32| call_requires(*release, (x, y)),
            forall|p: P| call_requires(*measure, (p,)),
            forall|p: P, step: Step| call_requires(*advance, (p, step)),
        ensures
            final(self).wf(),
            final(self).mode() == old(self).mode(),
            final(self).extent() == old(self).extent(),
            served is Ok ==> final(self).serves(scene.version()),
            served is Err ==> *final(self) == *old(self),
            scene@.len() == 0 ==> served == Err::<Pass, QueryError>(QueryError::EmptySet),
            scene@.len() > 0 && old(self).serves(scene.version()) ==> {
                &&& served == Ok::<Pass, QueryError>(Pass::Reused)
                &&& *final(self) == *old(self)
            },
            scene@.len() > 0 && !old(self).serves(scene.version()) ==> match served {
                Ok(pass) => {
                    &&& pass == Pass::Computed
                    &&& final(self).kept() matches Some(field)
                    &&& forall|place: int|
                        0 <= place < field@.len() ==> cell_shows(
                            release,
                            measure,
                            advance,
                            old(self).mode(),
                            scene@,
                            column_of(old(self).extent().width, place),
                            row_of(old(self).extent().width, place),
                            #[trigger] field@[place],
                        )
                },
                Err(e) => {
                    &&& e == QueryError::ReadingCount
                    &&& exists|place: int|
                        0 <= place < old(self).extent().cells() && #[trigger] cell_ends_in(
                            release,
                            measure,
                            advance,
                            old(self).mode(),
                            scene@.len(),
                            column_of(old(self).extent().width, place),
                            row_of(old(self).extent().width, place),
                            Err(e),
                        )
                },
            },
    {
        if scene.is_empty() {
            return Err(QueryError::EmptySet);
        }
        let reuse: bool = match &self.cached {
            Some(kept) => kept.generation() == scene.generation(),
            None => false,
        };
        if reuse {
            return Ok(Pass::Reused);
        }
        let fidelity: Fidelity = self.fidelity;
        let domain: Domain = self.domain;
        let count: usize = match domain.cell_count() {
            Ok(count) => count,
            Err(_) => unreached(),
        };
        let mut cells: Vec<Rgba> = Vec::new();
        let mut place: usize = 0;
        while place < count
            invariant
                place <= count,
                domain.wf(),
                count == domain.cells(),
                0 < scene@.len(),
                *self == *old(self),
                self.wf(),
                fidelity == self.mode(),
                domain == self.extent(),
                !self.serves(scene.version()),
                cells@.len() == place,
                forall|x: u32, y: u32| call_requires(*release, (x, y)),
                forall|p: P| call_requires(*measure, (p,)),
                forall|p: P, step: Step| call_requires(*advance, (p, step)),
                forall|k: int|
                    0 <= k < place ==> cell_shows(
                        release,
                        measure,
                        advance,
                        fidelity,
                        scene@,
                        column_of(domain.width, k),
                        row_of(domain.width, k),
                        #[trigger] cells@[k],
                    ),
            decreases count - place,
        {
            let (x, y): (u32, u32) = match domain.coordinate(place) {
                Some(cell) => cell,
                None => unreached(),
            };
            assert(x == column_of(domain.width, place as int));
            assert(y == row_of(domain.width, place as int));
            match cs_main(x, y, scene, fidelity, release, measure, advance) {
                Ok(colour) => {
                    cells.push(colour);
                },
                Err(e) => {
                    assert(cell_ends_in(
                        release,
                        measure,
                        advance,
                        fidelity,
                        scene@.len(),
                        column_of(domain.width, place as int),
                        row_of(domain.width, place as int),
                        Err(e),
                    ));
                    return Err(e);
                },
            }
            place += 1;
        }
        self.cached = Some(FieldBuffer::from_cells(domain, scene.generation(), cells));
        Ok(Pass::Computed)
    }
}

} // verus!