//! The layout of a scene as a row of 32-bit words, for handing it to another
//! device and taking it back.
//!
//! Thirty-two slots of eight words come first, one slot for each graviton the
//! scene could hold: red, green, blue, a word of padding, the two coordinates
//! of the position, the mass, and a word of padding. A slot behind the last
//! graviton is all zero. Then comes the number of gravitons, and three words
//! of padding.

use vstd::prelude::*;
use crate::graviton::{Data, Graviton, SceneError, MAX_GRAVITONS};

verus! {

/// The number of words in the slot of one graviton.
pub const GRAVITON_WORDS: usize = 8;

/// The place of the word that holds the number of gravitons.
pub const COUNT_WORD: usize = 256;

/// The number of words in the layout of a scene.
pub const DATA_WORDS: usize = 260;

/// Why a row of words is not the layout of a scene.
#[derive(Clone, Copy, Debug, PartialEq, Eq, Structural)]
pub enum LayoutError {
    /// The row does not have `DATA_WORDS` words.
    Length,
    /// The words describe a scene that is refused.
    Scene(SceneError),
}

/// The word at `field` of the slot of `graviton`.
pub open spec fn field_of(graviton: Graviton, field: int) -> u32 {
    if field == 0 {
        graviton.color_r
    } else if field == 1 {
        graviton.color_g
    } else if field == 2 {
        graviton.color_b
    } else if field == 4 {
        graviton.position_x
    } else if field == 5 {
        graviton.position_y
    } else if field == 6 {
        graviton.mass
    } else {
        0
    }
}

/// The word at `at` of the layout of `scene`.
pub open spec fn word_of(scene: Seq<Graviton>, at: int) -> u32 {
    if 0 <= at < COUNT_WORD {
        if at / 8 < scene.len() {
            field_of(scene[at / 8], at % 8)
        } else {
            0
        }
    } else if at == COUNT_WORD {
        scene.len() as u32
    } else {
        0
    }
}

/// The layout of `scene`.
pub open spec fn words_of(scene: Seq<Graviton>) -> Seq<u32> {
    Seq::new(DATA_WORDS as nat, |at: int| word_of(scene, at))
}

/// The graviton that the words hold in the slot `slot`.
pub open spec fn graviton_at(words: Seq<u32>, slot: int) -> Graviton {
    Graviton {
        color_r: words[8 * slot],
        color_g: words[8 * slot + 1],
        color_b: words[8 * slot + 2],
        position_x: words[8 * slot + 4],
        position_y: words[8 * slot + 5],
        mass: words[8 * slot + 6],
    }
}

/// The gravitons that the words hold, as many as the count word says.
pub open spec fn gravitons_of(words: Seq<u32>) -> Seq<Graviton> {
    Seq::new(words[COUNT_WORD as int] as nat, |slot: int| graviton_at(words, slot))
}

/// Reading the layout of a scene gives the scene back: the count word holds
/// the number of gravitons, and each slot in use holds its graviton. So the
/// layout of a scene of valid gravitons is never refused.
pub proof fn lemma_words_round_trip(scene: Seq<Graviton>)
    requires
        scene.len() <= MAX_GRAVITONS,
    ensures
        words_of(scene).len() == DATA_WORDS,
        words_of(scene)[COUNT_WORD as int] == scene.len(),
        forall|slot: int|
            0 <= slot < scene.len() ==> #[trigger] graviton_at(words_of(scene), slot)
                == scene[slot],
        gravitons_of(words_of(scene)) == scene,
{
    let words = words_of(scene);
    assert(words[COUNT_WORD as int] == scene.len());
    assert forall|slot: int| 0 <= slot < scene.len() implies graviton_at(words, slot)
        == scene[slot] by {
        assert(words[8 * slot] == word_of(scene, 8 * slot));
        assert(words[8 * slot + 1] == word_of(scene, 8 * slot + 1));
        assert(words[8 * slot + 2] == word_of(scene, 8 * slot + 2));
        assert(words[8 * slot + 4] == word_of(scene, 8 * slot + 4));
        assert(words[8 * slot + 5] == word_of(scene, 8 * slot + 5));
        assert(words[8 * slot + 6] == word_of(scene, 8 * slot + 6));
    }
    assert(gravitons_of(words) =~= scene);
}

/// Lays the scene out as words.
pub fn to_words(data: &Data) -> (words: Vec<u32>)
    requires
        data.wf(),
    ensures
        words@ == words_of(data@),
{
    let count: usize = data.len();
    let mut words: Vec<u32> = Vec::new();
    let mut slot: usize = 0;
    while slot < 32
        invariant
            slot <= 32,
            count == data@.len(),
            count <= 32,
            words@.len() == 8 * slot,
            forall|at: int| 0 <= at < 8 * slot ==> #[trigger] words@[at] == word_of(data@, at),
        decreases 32 - slot,
    {
        match data.get(slot) {
            Some(graviton) => {
                words.push(graviton.color_r);
                words.push(graviton.color_g);
                words.push(graviton.color_b);
                words.push(0);
                words.push(graviton.position_x);
                words.push(graviton.position_y);
                words.push(graviton.mass);
                words.push(0);
            },
            None => {
                let mut field: usize = 0;
                while field < 8
                    invariant
                        field <= 8,
                        slot < 32,
                        count == data@.len(),
                        count <= slot,
                        words@.len() == 8 * slot + field,
                        forall|at: int|
                            0 <= at < 8 * slot + field ==> #[trigger] words@[at] == word_of(
                                data@,
                                at,
                            ),
                    decreases 8 - field,
                {
                    words.push(0);
                    field += 1;
                }
            },
        }
        slot += 1;
    }
    words.push(count as u32);
    words.push(0);
    words.push(0);
    words.push(0);
    assert(words@ =~= words_of(data@));
    words
}

/// Reads a scene, at generation zero, from its layout. The padding is not
/// looked at, nor are the slots behind the last graviton.
pub fn from_words(words: &Vec<u32>) -> (read: Result<Data, LayoutError>)
    ensures
        match read {
            Ok(data) => {
                &&& words@.len() == DATA_WORDS
                &&& data.wf()
                &&& data@ == gravitons_of(words@)
                &&& data.version() == 0
            },
            Err(LayoutError::Length) => words@.len() != DATA_WORDS,
            Err(LayoutError::Scene(SceneError::CapacityExceeded)) => {
                &&& words@.len() == DATA_WORDS
                &&& words@[COUNT_WORD as int] > MAX_GRAVITONS
            },
            Err(LayoutError::Scene(SceneError::InvalidGraviton(at))) => {
                &&& words@.len() == DATA_WORDS
                &&& at < words@[COUNT_WORD as int] <= MAX_GRAVITONS
                &&& !graviton_at(words@, at as int).valid()
                &&& forall|slot: int|
                    0 <= slot < at ==> (#[trigger] graviton_at(words@, slot)).valid()
            },
            Err(LayoutError::Scene(SceneError::GenerationExhausted)) => false,
        },
{
    if words.len() != DATA_WORDS {
        return Err(LayoutError::Length);
    }
    if words[COUNT_WORD] > 32 {
        return Err(LayoutError::Scene(SceneError::CapacityExceeded));
    }
    let count: usize = words[COUNT_WORD] as usize;
    let mut gravitons: Vec<Graviton> = Vec::new();
    let mut slot: usize = 0;
    while slot < count
        invariant
            slot <= count <= 32,
            words@.len() == DATA_WORDS,
            count == words@[COUNT_WORD as int],
            gravitons@.len() == slot,
            forall|k: int| 0 <= k < slot ==> #[trigger] gravitons@[k] == graviton_at(words@, k),
            forall|k: int| 0 <= k < slot ==> (#[trigger] graviton_at(words@, k)).valid(),
        decreases count - slot,
    {
        let base: usize = 8 * slot;
        let graviton = Graviton::new(
            words[base + 4],
            words[base + 5],
            words[base],
            words[base + 1],
            words[base + 2],
            words[base + 6],
        );
        if !graviton.is_valid() {
            return Err(LayoutError::Scene(SceneError::InvalidGraviton(slot)));
        }
        gravitons.push(graviton);
        slot += 1;
    }
    assert(gravitons@ =~= gravitons_of(words@));
    Ok(Data::from_gravitons(gravitons))
}

} // verus!
