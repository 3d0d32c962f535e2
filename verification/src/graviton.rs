//! Gravitons and the bounded, versioned scene that holds them.

use vstd::prelude::*;

verus! {

/// Largest number of gravitons in one scene.
pub const MAX_GRAVITONS: usize = 32;

/// Bit pattern of the single precision number one.
pub const ONE: u32 = 0x3F80_0000;

/// Bit pattern of the largest finite single precision number.
pub const LARGEST_FINITE: u32 = 0x7F7F_FFFF;

/// Mask of the exponent bits of a single precision number.
pub const EXPONENT_MASK: u32 = 0x7F80_0000;

/// A fixed point source of attraction, tagged with a display colour.
///
/// Each field is the bit pattern of a single precision number.
#[derive(Clone, Copy, Debug, PartialEq, Eq, Structural)]
pub struct Graviton {
    pub color_r: u32,
    pub color_g: u32,
    pub color_b: u32,
    pub position_x: u32,
    pub position_y: u32,
    pub mass: u32,
}

/// A colour channel lies in the closed interval from zero to one.
pub open spec fn is_unit_interval(bits: u32) -> bool {
    bits <= ONE
}

/// The pattern is neither an infinity nor a NaN.
pub open spec fn is_finite(bits: u32) -> bool {
    bits & EXPONENT_MASK != EXPONENT_MASK
}

/// The pattern is a finite number that is not negative.
pub open spec fn is_finite_non_negative(bits: u32) -> bool {
    bits <= LARGEST_FINITE
}

impl Graviton {
    /// A graviton may enter a scene when its colour channels lie in the unit
    /// interval, its position is finite and its mass is finite and not negative.
    pub open spec fn valid(self) -> bool {
        &&& is_unit_interval(self.color_r)
        &&& is_unit_interval(self.color_g)
        &&& is_unit_interval(self.color_b)
        &&& is_finite(self.position_x)
        &&& is_finite(self.position_y)
        &&& is_finite_non_negative(self.mass)
    }

    pub fn new(
        position_x: u32,
        position_y: u32,
        color_r: u32,
        color_g: u32,
        color_b: u32,
        mass: u32,
    ) -> (g: Self)
        ensures
            g == (Graviton { color_r, color_g, color_b, position_x, position_y, mass }),
    {
        Graviton { color_r, color_g, color_b, position_x, position_y, mass }
    }

    pub fn is_valid(&self) -> (ok: bool)
        ensures
            ok == self.valid(),
    {
        self.color_r <= ONE && self.color_g <= ONE && self.color_b <= ONE
            && self.position_x & EXPONENT_MASK != EXPONENT_MASK
            && self.position_y & EXPONENT_MASK != EXPONENT_MASK
            && self.mass <= LARGEST_FINITE
    }
}

/// Why a scene was refused.
#[derive(Clone, Copy, Debug, PartialEq, Eq, Structural)]
pub enum SceneError {
    /// More gravitons than a scene can hold.
    CapacityExceeded,
    /// The graviton at this position is not valid.
    InvalidGraviton(usize),
    /// The generation counter cannot grow any further.
    GenerationExhausted,
}

/// An ordered scene of at most `MAX_GRAVITONS` gravitons.
///
/// The order is the priority among gravitons: the earlier one wins a tie. The
/// generation counts the changes made to the contents since the scene was built.
#[derive(Debug)]
pub struct Data {
    gravitons: Vec<Graviton>,
    generation: u64,
}

impl View for Data {
    type V = Seq<Graviton>;

    closed spec fn view(&self) -> Seq<Graviton> {
        self.gravitons@
    }
}

impl Data {
    /// The generation of this snapshot.
    pub closed spec fn version(self) -> u64 {
        self.generation
    }

    /// At most `MAX_GRAVITONS` gravitons, each of them valid.
    pub open spec fn wf(self) -> bool {
        &&& self@.len() <= MAX_GRAVITONS
        &&& forall|i: int| 0 <= i < self@.len() ==> (#[trigger] self@[i]).valid()
    }

    /// The scene without gravitons, at generation zero.
    pub fn empty() -> (data: Self)
        ensures
            data.wf(),
            data@ == Seq::<Graviton>::empty(),
            data.version() == 0,
    {
        Data { gravitons: Vec::new(), generation: 0 }
    }

    /// The scene of the given gravitons, at generation zero.
    pub(crate) fn from_gravitons(gravitons: Vec<Graviton>) -> (data: Self)
        requires
            gravitons@.len() <= MAX_GRAVITONS,
            forall|i: int| 0 <= i < gravitons@.len() ==> (#[trigger] gravitons@[i]).valid(),
        ensures
            data.wf(),
            data@ == gravitons@,
            data.version() == 0,
    {
        Data { gravitons, generation: 0 }
    }

    /// Builds a scene from the first `num_gravitons` entries of `gravitons`,
    /// at generation zero.
    ///
    /// The entries behind them are never read.
    pub fn new(gravitons: [Graviton; 32], num_gravitons: u32) -> (made: Result<Self, SceneError>)
        ensures
            match made {
                Ok(data) => {
                    &&& num_gravitons <= MAX_GRAVITONS
                    &&& data.wf()
                    &&& data@ == gravitons@.take(num_gravitons as int)
                    &&& data.version() == 0
                },
                Err(SceneError::CapacityExceeded) => num_gravitons > MAX_GRAVITONS,
                Err(SceneError::InvalidGraviton(at)) => {
                    &&& num_gravitons <= MAX_GRAVITONS
                    &&& at < num_gravitons
                    &&& !gravitons@[at as int].valid()
                    &&& forall|i: int| 0 <= i < at ==> (#[trigger] gravitons@[i]).valid()
                },
                Err(SceneError::GenerationExhausted) => false,
            },
    {
        Data::at_generation(gravitons, num_gravitons, 0)
    }


    /// Builds a scene from the first `num_gravitons` entries of `gravitons`,
    /// at the generation given: a scene that is taken over with its history.
    pub fn at_generation(gravitons: [Graviton; 32], num_gravitons: u32, generation: u64) -> (made:
        Result<Self, SceneError>)
        ensures
            match made {
                Ok(data) => {
                    &&& num_gravitons <= MAX_GRAVITONS
                    &&& data.wf()
                    &&& data@ == gravitons@.take(num_gravitons as int)
                    &&& data.version() == generation
                },
                Err(SceneError::CapacityExceeded) => num_gravitons > MAX_GRAVITONS,
                Err(SceneError::InvalidGraviton(at)) => {
                    &&& num_gravitons <= MAX_GRAVITONS
                    &&& at < num_gravitons
                    &&& !gravitons@[at as int].valid()
                    &&& forall|i: int| 0 <= i < at ==> (#[trigger] gravitons@[i]).valid()
                },
                Err(SceneError::GenerationExhausted) => false,
            },
    {
        if num_gravitons > 32 {
            return Err(SceneError::CapacityExceeded);
        }
        let count: usize = num_gravitons as usize;
        let mut kept: Vec<Graviton> = Vec::new();
        let mut i: usize = 0;
        while i < count
            invariant
                i <= count <= 32,
                count == num_gravitons,
                kept@ == gravitons@.take(i as int),
                forall|k: int| 0 <= k < i ==> (#[trigger] gravitons@[k]).valid(),
            decreases count - i,
        {
            let graviton: Graviton = gravitons[i];
            if !graviton.is_valid() {
                return Err(SceneError::InvalidGraviton(i));
            }
            kept.push(graviton);
            i += 1;
        }
        Ok(Data { gravitons: kept, generation })
    }

    /// Appends a graviton behind those already placed and starts a new
    /// generation. A refused graviton leaves the scene as it was.
    pub fn push(&mut self, graviton: Graviton) -> (pushed: Result<(), SceneError>)
        requires
            old(self).wf(),
        ensures
            final(self).wf(),
            match pushed {
                Ok(()) => {
                    &&& old(self)@.len() < MAX_GRAVITONS
                    &&& graviton.valid()
                    &&& final(self)@ == old(self)@.push(graviton)
                    &&& final(self).version() == old(self).version() + 1
                },
                Err(SceneError::CapacityExceeded) => {
                    &&& old(self)@.len() == MAX_GRAVITONS
                    &&& *final(self) == *old(self)
                },
                Err(SceneError::InvalidGraviton(at)) => {
                    &&& old(self)@.len() < MAX_GRAVITONS
                    &&& !graviton.valid()
                    &&& at == old(self)@.len()
                    &&& *final(self) == *old(self)
                },
                Err(SceneError::GenerationExhausted) => {
                    &&& old(self)@.len() < MAX_GRAVITONS
                    &&& graviton.valid()
                    &&& old(self).version() == u64::MAX
                    &&& *final(self) == *old(self)
                },
            },
    {
        let count: usize = self.gravitons.len();
        if count >= MAX_GRAVITONS {
            return Err(SceneError::CapacityExceeded);
        }
        if !graviton.is_valid() {
            return Err(SceneError::InvalidGraviton(count));
        }
        if self.generation == u64::MAX {
            return Err(SceneError::GenerationExhausted);
        }
        self.gravitons.push(graviton);
        self.generation = self.generation + 1;
        Ok(())
    }

    /// Puts the first `num_gravitons` entries of `gravitons` in the place of the
    /// present contents and starts a new generation. Contents that are refused
    /// leave the scene as it was.
    pub fn replace(&mut self, gravitons: [Graviton; 32], num_gravitons: u32) -> (replaced: Result<
        (),
        SceneError,
    >)
        requires
            old(self).wf(),
        ensures
            final(self).wf(),
            match replaced {
                Ok(()) => {
                    &&& num_gravitons <= MAX_GRAVITONS
                    &&& final(self)@ == gravitons@.take(num_gravitons as int)
                    &&& final(self).version() == old(self).version() + 1
                },
                Err(SceneError::CapacityExceeded) => {
                    &&& num_gravitons > MAX_GRAVITONS
                    &&& *final(self) == *old(self)
                },
                Err(SceneError::InvalidGraviton(at)) => {
                    &&& num_gravitons <= MAX_GRAVITONS
                    &&& at < num_gravitons
                    &&& !gravitons@[at as int].valid()
                    &&& forall|i: int| 0 <= i < at ==> (#[trigger] gravitons@[i]).valid()
                    &&& *final(self) == *old(self)
                },
                Err(SceneError::GenerationExhausted) => {
                    &&& num_gravitons <= MAX_GRAVITONS
                    &&& forall|i: int|
                        0 <= i < num_gravitons ==> (#[trigger] gravitons@[i]).valid()
                    &&& old(self).version() == u64::MAX
                    &&& *final(self) == *old(self)
                },
            },
    {
        match Data::new(gravitons, num_gravitons) {
            Ok(made) => {
                assert forall|i: int| 0 <= i < num_gravitons implies (#[trigger]
                gravitons@[i]).valid() by {
                    assert(made@[i] == gravitons@[i]);
                }
                if self.generation == u64::MAX {
                    return Err(SceneError::GenerationExhausted);
                }
                self.gravitons = made.gravitons;
                self.generation = self.generation + 1;
                Ok(())
            },
            Err(e) => Err(e),
        }
    }

    /// A copy of the scene as it is now, contents and generation.
    pub fn snapshot(&self) -> (copy: Self)
        ensures
            copy@ == self@,
            copy.version() == self.version(),
            self.wf() ==> copy.wf(),
    {
        let mut gravitons: Vec<Graviton> = Vec::new();
        let mut i: usize = 0;
        while i < self.gravitons.len()
            invariant
                i <= self.gravitons@.len(),
                gravitons@ == self.gravitons@.take(i as int),
            decreases self.gravitons@.len() - i,
        {
            gravitons.push(self.gravitons[i]);
            i += 1;
        }
        assert(self.gravitons@.take(i as int) =~= self.gravitons@);
        Data { gravitons, generation: self.generation }
    }

    /// The number of gravitons in the scene.
    pub fn len(&self) -> (n: usize)
        ensures
            n == self@.len(),
    {
        self.gravitons.len()
    }

    pub fn is_empty(&self) -> (none: bool)
        ensures
            none == (self@.len() == 0),
    {
        self.gravitons.len() == 0
    }

    /// The graviton at `index`, if the scene holds that many.
    pub fn get(&self, index: usize) -> (found: Option<Graviton>)
        ensures
            found == (if index < self@.len() {
                Some(self@[index as int])
            } else {
                None
            }),
    {
        if index < self.gravitons.len() {
            Some(self.gravitons[index])
        } else {
            None
        }
    }

    pub fn generation(&self) -> (g: u64)
        ensures
            g == self.version(),
    {
        self.generation
    }
}

} // verus!
