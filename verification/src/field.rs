//! The colour field of a domain, and the computer that keeps the last one.

use vstd::prelude::*;
use crate::graviton::{Data, Graviton, ONE};
use crate::trajectory::Outcome;

verus! {

/// Why a field was refused.
#[derive(Clone, Copy, Debug, PartialEq, Eq, Structural)]
pub enum FieldError {
    /// The domain has no width or no height.
    EmptyDomain,
    /// The domain has more cells than can be addressed.
    DomainTooLarge,
    /// The scene holds no graviton.
    EmptyScene,
    /// The outcomes are not one for each cell of the domain.
    OutcomeCount,
    /// The outcome of this cell names a graviton that the scene does not hold.
    UnknownAttractor(usize),
}

/// The size of a grid of cells, stored row by row.
#[derive(Clone, Copy, Debug, PartialEq, Eq, Structural)]
pub struct Domain {
    pub width: u32,
    pub height: u32,
}

/// One cell of a field: red, green, blue and coverage, each the bit pattern
/// of a single precision number.
#[derive(Clone, Copy, Debug, PartialEq, Eq, Structural)]
pub struct Rgba {
    pub r: u32,
    pub g: u32,
    pub b: u32,
    pub a: u32,
}

impl Domain {
    /// The domain has cells, and few enough to address.
    pub open spec fn wf(self) -> bool {
        &&& self.width > 0
        &&& self.height > 0
        &&& self.width * self.height <= usize::MAX
    }

    /// The number of cells.
    pub open spec fn cells(self) -> nat {
        (self.width * self.height) as nat
    }

    /// The place of the cell in column `x` of row `y`.
    pub open spec fn index_of(self, x: int, y: int) -> int {
        y * self.width + x
    }

    /// What `cell_count` returns.
    pub open spec fn checked_cells(self) -> Result<usize, FieldError> {
        if self.width == 0 || self.height == 0 {
            Err(FieldError::EmptyDomain)
        } else if self.width * self.height > usize::MAX {
            Err(FieldError::DomainTooLarge)
        } else {
            Ok((self.width * self.height) as usize)
        }
    }

    /// The domain of the given size, if it is a valid one.
    pub fn new(width: u32, height: u32) -> (made: Result<Self, FieldError>)
        ensures
            made == match (Domain { width, height }).checked_cells() {
                Ok(_) => Ok::<Domain, FieldError>(Domain { width, height }),
                Err(e) => Err(e),
            },
            made is Ok ==> made.unwrap().wf(),
    {
        let domain = Domain { width, height };
        match domain.cell_count() {
            Ok(_) => Ok(domain),
            Err(e) => Err(e),
        }
    }

    /// The number of cells of a valid domain, or why the domain is not valid.
    pub fn cell_count(&self) -> (counted: Result<usize, FieldError>)
        ensures
            counted == self.checked_cells(),
            counted is Ok <==> self.wf(),
    {
        if self.width == 0 || self.height == 0 {
            return Err(FieldError::EmptyDomain);
        }
        assert(self.width * self.height <= 0xFFFF_FFFF * 0xFFFF_FFFF) by (nonlinear_arith)
            requires
                self.width <= 0xFFFF_FFFF,
                self.height <= 0xFFFF_FFFF,
        ;
        let cells: u64 = (self.width as u64) * (self.height as u64);
        if cells > usize::MAX as u64 {
            Err(FieldError::DomainTooLarge)
        } else {
            Ok(cells as usize)
        }
    }

    /// The place of the cell in column `x` of row `y`, if the domain has it.
    pub fn index(&self, x: u32, y: u32) -> (place: Option<usize>)
        requires
            self.wf(),
        ensures
            place == (if x < self.width && y < self.height {
                Some(self.index_of(x as int, y as int) as usize)
            } else {
                None
            }),
            place is Some ==> place.unwrap() < self.cells(),
    {
        if x < self.width && y < self.height {
            proof {
                lemma_index_in_range(*self, x as int, y as int);
            }
            Some(y as usize * self.width as usize + x as usize)
        } else {
            None
        }
    }

    /// The column and row of the cell at `place`, if the domain has it.
    pub fn coordinate(&self, place: usize) -> (cell: Option<(u32, u32)>)
        requires
            self.wf(),
        ensures
            cell == (if place < self.cells() {
                Some(((place % self.width as usize) as u32, (place / self.width as usize) as u32))
            } else {
                None
            }),
            cell matches Some((x, y)) ==> x < self.width && y < self.height && self.index_of(
                x as int,
                y as int,
            ) == place,
    {
        let width: usize = self.width as usize;
        let cells: usize = width * self.height as usize;
        if place < cells {
            proof {
                lemma_coordinate_in_range(*self, place as int);
            }
            Some(((place % width) as u32, (place / width) as u32))
        } else {
            None
        }
    }
}

/// A cell inside the domain has a place below the number of cells.
pub proof fn lemma_index_in_range(domain: Domain, x: int, y: int)
    requires
        0 <= x < domain.width,
        0 <= y < domain.height,
    ensures
        0 <= domain.index_of(x, y) < domain.cells(),
{
    let w = domain.width as int;
    let h = domain.height as int;
    assert(y * w + x < w * h) by (nonlinear_arith)
        requires
            0 <= x < w,
            0 <= y < h,
    ;
    assert(0 <= y * w) by (nonlinear_arith)
        requires
            0 <= y,
            0 <= w,
    ;
}

/// A place below the number of cells is that of one cell inside the domain:
/// its column is the remainder and its row the quotient by the width.
pub proof fn lemma_coordinate_in_range(domain: Domain, place: int)
    requires
        domain.width > 0,
        0 <= place < domain.cells(),
    ensures
        0 <= place % (domain.width as int) < domain.width,
        0 <= place / (domain.width as int) < domain.height,
        domain.index_of(place % (domain.width as int), place / (domain.width as int)) == place,
{
    let w = domain.width as int;
    let h = domain.height as int;
    assert(0 <= place % w < w && 0 <= place / w < h && (place / w) * w + place % w == place)
        by (nonlinear_arith)
        requires
            w > 0,
            0 <= place < w * h,
    ;
}

/// The place of a cell gives back its column and row.
pub proof fn lemma_index_round_trip(domain: Domain, x: int, y: int)
    requires
        0 <= x < domain.width,
        0 <= y < domain.height,
    ensures
        domain.index_of(x, y) % (domain.width as int) == x,
        domain.index_of(x, y) / (domain.width as int) == y,
{
    let w = domain.width as int;
    assert((y * w + x) % w == x && (y * w + x) / w == y) by (nonlinear_arith)
        requires
            0 <= x < w,
            0 <= y,
    ;
}

/// The colour of a start point whose trajectory ended without a graviton:
/// black with no coverage.
pub open spec fn uncaptured() -> Rgba {
    Rgba { r: 0, g: 0, b: 0, a: 0 }
}

/// The colour of a graviton at full coverage.
pub open spec fn colour_of(graviton: Graviton) -> Rgba {
    Rgba { r: graviton.color_r, g: graviton.color_g, b: graviton.color_b, a: ONE }
}

/// The outcome names no graviton, or one that the scene holds.
pub open spec fn known(scene: Seq<Graviton>, outcome: Outcome) -> bool {
    outcome.attractor matches Some(at) ==> at < scene.len()
}

/// The colour of a cell: that of the outcome's graviton, or `uncaptured()`
/// where the outcome names none.
pub open spec fn shade_of(scene: Seq<Graviton>, outcome: Outcome) -> Rgba {
    match outcome.attractor {
        Some(at) => colour_of(scene[at as int]),
        None => uncaptured(),
    }
}

/// The colours of a row of outcomes, cell by cell.
pub open spec fn shades_of(scene: Seq<Graviton>, outcomes: Seq<Outcome>) -> Seq<Rgba> {
    Seq::new(outcomes.len(), |i: int| shade_of(scene, outcomes[i]))
}

/// The colour of one cell, or `None` where the outcome names a graviton that
/// the scene does not hold.
pub fn shade(scene: &Data, outcome: &Outcome) -> (colour: Option<Rgba>)
    ensures
        colour == (if known(scene@, *outcome) {
            Some(shade_of(scene@, *outcome))
        } else {
            None
        }),
{
    match outcome.attractor {
        Some(at) => match scene.get(at) {
            Some(graviton) => Some(
                Rgba { r: graviton.color_r, g: graviton.color_g, b: graviton.color_b, a: ONE },
            ),
            None => None,
        },
        None => Some(Rgba { r: 0, g: 0, b: 0, a: 0 }),
    }
}

/// The colours of a domain, computed against one generation of a scene.
#[derive(Debug)]
pub struct FieldBuffer {
    domain: Domain,
    generation: u64,
    cells: Vec<Rgba>,
}

impl View for FieldBuffer {
    type V = Seq<Rgba>;

    closed spec fn view(&self) -> Seq<Rgba> {
        self.cells@
    }
}

impl FieldBuffer {
    /// The size of the grid.
    pub closed spec fn extent(self) -> Domain {
        self.domain
    }

    /// The generation of the scene that the colours were computed against.
    pub closed spec fn version(self) -> u64 {
        self.generation
    }

    /// The buffer holds one colour for each cell of a valid domain.
    pub open spec fn wf(self) -> bool {
        &&& self.extent().wf()
        &&& self@.len() == self.extent().cells()
    }

    /// Builds the field of `domain` from the outcome of every cell, row by
    /// row, against the scene that the trajectories ran in. A scene without
    /// gravitons has no field.
    pub fn assemble(domain: Domain, scene: &Data, outcomes: &Vec<Outcome>) -> (made: Result<
        Self,
        FieldError,
    >)
        ensures
            match made {
                Ok(field) => {
                    &&& field.wf()
                    &&& field.extent() == domain
                    &&& field.version() == scene.version()
                    &&& scene@.len() > 0
                    &&& outcomes@.len() == domain.cells()
                    &&& forall|i: int|
                        0 <= i < outcomes@.len() ==> known(scene@, #[trigger] outcomes@[i])
                    &&& field@ == shades_of(scene@, outcomes@)
                },
                Err(FieldError::EmptyDomain) => domain.width == 0 || domain.height == 0,
                Err(FieldError::DomainTooLarge) => {
                    &&& domain.width > 0
                    &&& domain.height > 0
                    &&& domain.width * domain.height > usize::MAX
                },
                Err(FieldError::EmptyScene) => {
                    &&& domain.wf()
                    &&& scene@.len() == 0
                },
                Err(FieldError::OutcomeCount) => {
                    &&& domain.wf()
                    &&& scene@.len() > 0
                    &&& outcomes@.len() != domain.cells()
                },
                Err(FieldError::UnknownAttractor(at)) => {
                    &&& domain.wf()
                    &&& scene@.len() > 0
                    &&& outcomes@.len() == domain.cells()
                    &&& at < outcomes@.len()
                    &&& !known(scene@, outcomes@[at as int])
                    &&& forall|i: int| 0 <= i < at ==> known(scene@, #[trigger] outcomes@[i])
                },
            },
    {
        let count: usize = match domain.cell_count() {
            Ok(count) => count,
            Err(e) => {
                return Err(e);
            },
        };
        if scene.is_empty() {
            return Err(FieldError::EmptyScene);
        }
        if outcomes.len() != count {
            return Err(FieldError::OutcomeCount);
        }
        let mut cells: Vec<Rgba> = Vec::new();
        let mut i: usize = 0;
        while i < count
            invariant
                i <= count,
                count == outcomes@.len(),
                domain.wf(),
                count == domain.cells(),
                scene@.len() > 0,
                cells@.len() == i,
                forall|k: int| 0 <= k < i ==> known(scene@, #[trigger] outcomes@[k]),
                forall|k: int| 0 <= k < i ==> cells@[k] == shade_of(scene@, outcomes@[k]),
            decreases count - i,
        {
            match shade(scene, &outcomes[i]) {
                Some(colour) => {
                    cells.push(colour);
                },
                None => {
                    return Err(FieldError::UnknownAttractor(i));
                },
            }
            i += 1;
        }
        assert(cells@ =~= shades_of(scene@, outcomes@));
        Ok(FieldBuffer { domain, generation: scene.generation(), cells })
    }

    /// A field of `cells`, one for each cell of `domain`, row by row.
    pub(crate) fn from_cells(domain: Domain, generation: u64, cells: Vec<Rgba>) -> (field: Self)
        requires
            domain.wf(),
            cells@.len() == domain.cells(),
        ensures
            field.wf(),
            field.extent() == domain,
            field.version() == generation,
            field@ == cells@,
    {
        FieldBuffer { domain, generation, cells }
    }

    pub fn domain(&self) -> (domain: Domain)
        ensures
            domain == self.extent(),
    {
        self.domain
    }

    pub fn generation(&self) -> (generation: u64)
        ensures
            generation == self.version(),
    {
        self.generation
    }

    /// The colour of the cell in column `x` of row `y`, if the field has it.
    pub fn get(&self, x: u32, y: u32) -> (colour: Option<Rgba>)
        requires
            self.wf(),
        ensures
            colour == (if x < self.extent().width && y < self.extent().height {
                Some(self@[self.extent().index_of(x as int, y as int)])
            } else {
                None
            }),
    {
        proof {
            if x < self.extent().width && y < self.extent().height {
                lemma_index_in_range(self.extent(), x as int, y as int);
            }
        }
        match self.domain.index(x, y) {
            Some(place) => Some(self.cells[place]),
            None => None,
        }
    }

    /// The colour of the cell in column `x` of row `y`.
    pub fn at(&self, x: u32, y: u32) -> (colour: Rgba)
        requires
            self.wf(),
            x < self.extent().width,
            y < self.extent().height,
        ensures
            colour == self@[self.extent().index_of(x as int, y as int)],
    {
        proof {
            lemma_index_in_range(self.extent(), x as int, y as int);
        }
        self.cells[y as usize * self.domain.width as usize + x as usize]
    }

    /// The colours, row by row.
    pub fn cells(&self) -> (cells: &Vec<Rgba>)
        ensures
            cells@ == self@,
    {
        &self.cells
    }
}

} // verus!
