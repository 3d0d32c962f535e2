//! The compositor: a field resampled to the size of a viewport.

use vstd::prelude::*;
use vstd::pervasive::unreached;
use crate::field::{
    lemma_coordinate_in_range, lemma_index_in_range, lemma_index_round_trip, Domain, FieldBuffer,
    FieldError, Rgba,
};

verus! {

/// How a frame takes its colours from a field of another size.
#[derive(Clone, Copy, Debug, PartialEq, Eq, Structural)]
pub enum Filter {
    /// Each cell of the frame shows one cell of the field.
    Nearest,
    /// Each cell of the frame blends the four cells of the field around its
    /// centre.
    Linear,
}

/// Where a column (or row) of the viewport falls between two neighbouring
/// columns (or rows) of the field: at `weight` parts in `scale` of the way
/// from `low` to `high`.
#[derive(Clone, Copy, Debug, PartialEq, Eq, Structural)]
pub struct Tap {
    pub low: u32,
    pub high: u32,
    pub weight: u64,
    pub scale: u64,
}

/// The tap of column (or row) `at` of the viewport, where the field has
/// `from` columns and the viewport `to`.
///
/// The centre of the viewport's column lies at `(at + 1/2) * from / to` in
/// units of the field's columns, and the centre of the field's column `k` at
/// `k + 1/2`. Before the first centre and behind the last the tap rests on
/// that column alone.
pub open spec fn tap_of(from: u32, to: u32, at: int) -> Tap {
    let scale = 2 * to;
    let centre = (2 * at + 1) * from - to;
    if centre <= 0 {
        Tap { low: 0, high: 0, weight: 0, scale: scale as u64 }
    } else if centre / scale >= from - 1 {
        Tap { low: (from - 1) as u32, high: (from - 1) as u32, weight: 0, scale: scale as u64 }
    } else {
        Tap {
            low: (centre / scale) as u32,
            high: (centre / scale + 1) as u32,
            weight: (centre % scale) as u64,
            scale: scale as u64,
        }
    }
}

/// A tap rests on columns that the field has, and its weight is a proper
/// fraction. Between grids of one size it rests on the column itself.
pub proof fn lemma_tap_in_range(from: u32, to: u32, at: int)
    requires
        from > 0,
        0 <= at < to,
    ensures
        tap_of(from, to, at).low <= tap_of(from, to, at).high < from,
        tap_of(from, to, at).weight < tap_of(from, to, at).scale == 2 * to,
        from == to ==> tap_of(from, to, at).low == at && tap_of(from, to, at).weight == 0,
{
    let f = from as int;
    let t = to as int;
    let scale = 2 * t;
    let centre = (2 * at + 1) * f - t;
    if centre > 0 {
        assert(0 <= centre / scale && 0 <= centre % scale < scale) by (nonlinear_arith)
            requires
                centre > 0,
                scale > 0,
        ;
    }
    if f == t {
        assert((2 * at + 1) * t - t == at * (2 * t)) by (nonlinear_arith);
        assert((at * scale) / scale == at && (at * scale) % scale == 0) by (nonlinear_arith)
            requires
                scale > 0,
                0 <= at,
        ;
    }
}

/// The tap of column (or row) `at` of the viewport.
pub fn tap(from: u32, to: u32, at: u32) -> (found: Tap)
    requires
        from > 0,
        at < to,
    ensures
        found == tap_of(from, to, at as int),
        found.low <= found.high < from,
        found.weight < found.scale,
{
    proof {
        lemma_tap_in_range(from, to, at as int);
        assert((2 * at + 1) * from <= 0x2_0000_0000 * 0xFFFF_FFFF) by (nonlinear_arith)
            requires
                0 <= at <= 0xFFFF_FFFF,
                0 <= from <= 0xFFFF_FFFF,
        ;
    }
    let scale: u64 = 2 * (to as u64);
    let doubled: u128 = (2 * (at as u128) + 1) * (from as u128);
    if doubled <= to as u128 {
        return Tap { low: 0, high: 0, weight: 0, scale };
    }
    let centre: u128 = doubled - to as u128;
    let whole: u128 = centre / (scale as u128);
    if whole >= (from - 1) as u128 {
        Tap { low: from - 1, high: from - 1, weight: 0, scale }
    } else {
        Tap {
            low: whole as u32,
            high: whole as u32 + 1,
            weight: (centre % (scale as u128)) as u64,
            scale,
        }
    }
}

/// `colour` is what `mix` makes of the four cells of the field under the taps
/// `across` and `down`: the two cells of the upper row mixed at the weight of
/// `across`, the two of the lower row likewise, and the two results mixed at
/// the weight of `down`.
pub open spec fn blends<X: Fn(Rgba, Rgba, u64, u64) -> Rgba>(
    mix: &X,
    cells: Seq<Rgba>,
    extent: Domain,
    across: Tap,
    down: Tap,
    colour: Rgba,
) -> bool {
    exists|upper: Rgba, lower: Rgba|
        {
            &&& #[trigger] call_ensures(
                *mix,
                (
                    cells[extent.index_of(across.low as int, down.low as int)],
                    cells[extent.index_of(across.high as int, down.low as int)],
                    across.weight,
                    across.scale,
                ),
                upper,
            )
            &&& #[trigger] call_ensures(
                *mix,
                (
                    cells[extent.index_of(across.low as int, down.high as int)],
                    cells[extent.index_of(across.high as int, down.high as int)],
                    across.weight,
                    across.scale,
                ),
                lower,
            )
            &&& call_ensures(*mix, (upper, lower, down.weight, down.scale), colour)
        }
}

/// The column (or row) of the field that column (or row) `at` of the viewport
/// shows, where the field has `from` of them and the viewport `to`.
pub open spec fn source_of(from: u32, to: u32, at: int) -> int {
    at * from / (to as int)
}

/// Every column and row of the viewport shows one that the field has.
pub proof fn lemma_source_in_range(from: u32, to: u32, at: int)
    requires
        0 <= at < to,
    ensures
        0 <= source_of(from, to, at),
        from > 0 ==> source_of(from, to, at) < from,
        from == to ==> source_of(from, to, at) == at,
{
    let f = from as int;
    let t = to as int;
    assert(0 <= at * f / t) by (nonlinear_arith)
        requires
            0 <= at,
            0 <= f,
            0 < t,
    ;
    if f > 0 {
        assert(at * f / t < f) by (nonlinear_arith)
            requires
                0 <= at < t,
                0 < f,
        ;
    }
    if f == t {
        assert(at * t / t == at) by (nonlinear_arith)
            requires
                0 < t,
        ;
    }
}

/// The viewport shows the columns and rows of the field in their order.
pub proof fn lemma_source_in_order(from: u32, to: u32, before: int, behind: int)
    requires
        0 <= before <= behind < to,
    ensures
        source_of(from, to, before) <= source_of(from, to, behind),
{
    let f = from as int;
    let t = to as int;
    assert(before * f <= behind * f) by (nonlinear_arith)
        requires
            before <= behind,
            0 <= f,
    ;
    vstd::arithmetic::div_mod::lemma_div_is_ordered(before * f, behind * f, t);
}

/// The column (or row) of the field shown at `at`.
fn source(from: u32, to: u32, at: u32) -> (shown: u32)
    requires
        from > 0,
        at < to,
    ensures
        shown == source_of(from, to, at as int),
        shown < from,
{
    proof {
        lemma_source_in_range(from, to, at as int);
        assert(at * from <= 0xFFFF_FFFF * 0xFFFF_FFFF) by (nonlinear_arith)
            requires
                0 <= at <= 0xFFFF_FFFF,
                0 <= from <= 0xFFFF_FFFF,
        ;
    }
    let scaled: u64 = (at as u64) * (from as u64);
    (scaled / (to as u64)) as u32
}

/// The vertex stage: corner `idx` of the one triangle that is drawn to cover
/// the viewport, as its four homogeneous coordinates.
pub fn vs_main(idx: u32) -> (out_pos: (i32, i32, i32, i32))
    ensures
        out_pos == triangle_corner(idx as int),
{
    let x: i32 = if idx == 1 {
        3
    } else {
        -1
    };
    let y: i32 = if idx == 2 {
        3
    } else {
        -1
    };
    (x, y, 0, 1)
}

/// Corner `idx` of the covering triangle: the lower left one, the one far to
/// the right for 1, the one far up for 2.
pub open spec fn triangle_corner(idx: int) -> (i32, i32, i32, i32) {
    (
        if idx == 1 {
            3i32
        } else {
            -1i32
        },
        if idx == 2 {
            3i32
        } else {
            -1i32
        },
        0i32,
        1i32,
    )
}

/// The point `(x / unit, y / unit)` lies in the triangle of the corners 0, 1
/// and 2: not left of the edge from corner 0 to corner 2, not below the edge
/// from corner 0 to corner 1, not beyond the edge from corner 1 to corner 2.
pub open spec fn in_triangle(x: int, y: int, unit: int) -> bool {
    &&& x >= triangle_corner(0).0 * unit
    &&& y >= triangle_corner(0).1 * unit
    &&& x + y <= (triangle_corner(1).0 + triangle_corner(1).1) * unit
    &&& x + y <= (triangle_corner(2).0 + triangle_corner(2).1) * unit
}

/// The triangle covers the viewport: every point whose two coordinates lie
/// between minus one and one is in it.
pub proof fn lemma_triangle_covers_viewport(x: int, y: int, unit: int)
    requires
        unit > 0,
        -unit <= x <= unit,
        -unit <= y <= unit,
    ensures
        in_triangle(x, y, unit),
{
    assert(triangle_corner(0).0 * unit == -unit) by (nonlinear_arith)
        requires
            triangle_corner(0).0 == -1,
    ;
    assert(triangle_corner(0).1 * unit == -unit) by (nonlinear_arith)
        requires
            triangle_corner(0).1 == -1,
    ;
    assert((triangle_corner(1).0 + triangle_corner(1).1) * unit == 2 * unit) by (nonlinear_arith)
        requires
            triangle_corner(1).0 + triangle_corner(1).1 == 2,
    ;
    assert((triangle_corner(2).0 + triangle_corner(2).1) * unit == 2 * unit) by (nonlinear_arith)
        requires
            triangle_corner(2).0 + triangle_corner(2).1 == 2,
    ;
}

/// The fragment stage for one cell of the viewport: the colour of the cell of
/// `texture` that column `x` of row `y` of the viewport falls on.
pub fn fs_main(x: u32, y: u32, texture: &FieldBuffer, viewport: Domain) -> (out_color: Rgba)
    requires
        texture.wf(),
        x < viewport.width,
        y < viewport.height,
    ensures
        out_color == texture@[texture.extent().index_of(
            source_of(texture.extent().width, viewport.width, x as int),
            source_of(texture.extent().height, viewport.height, y as int),
        )],
{
    let from: Domain = texture.domain();
    texture.at(source(from.width, viewport.width, x), source(from.height, viewport.height, y))
}

/// The frame that shows `field` in a viewport of the given size.
///
/// Each cell of the frame takes the colour of the cell of the field that its
/// column and row fall on when both grids are stretched over the same
/// rectangle. A viewport of the field's own size shows the field unchanged.
/// The field itself is left as it is.
pub fn present(field: &FieldBuffer, viewport: Domain) -> (shown: Result<FieldBuffer, FieldError>)
    requires
        field.wf(),
    ensures
        match shown {
            Ok(frame) => {
                &&& frame.wf()
                &&& frame.extent() == viewport
                &&& frame.version() == field.version()
                &&& forall|x: int, y: int|
                    0 <= x < viewport.width && 0 <= y < viewport.height ==> frame@[#[trigger]
                    viewport.index_of(x, y)] == field@[field.extent().index_of(
                        source_of(field.extent().width, viewport.width, x),
                        source_of(field.extent().height, viewport.height, y),
                    )]
                &&& viewport == field.extent() ==> frame@ == field@
            },
            Err(e) => viewport.checked_cells() == Err::<usize, FieldError>(e),
        },
{
    let count: usize = match viewport.cell_count() {
        Ok(count) => count,
        Err(e) => {
            return Err(e);
        },
    };
    let from: Domain = field.domain();
    let mut cells: Vec<Rgba> = Vec::new();
    let mut place: usize = 0;
    while place < count
        invariant
            place <= count,
            field.wf(),
            from == field.extent(),
            viewport.wf(),
            count == viewport.cells(),
            cells@.len() == place,
            forall|k: int|
                0 <= k < place ==> #[trigger] cells@[k] == field@[from.index_of(
                    source_of(from.width, viewport.width, k % (viewport.width as int)),
                    source_of(from.height, viewport.height, k / (viewport.width as int)),
                )],
        decreases count - place,
    {
        let (x, y): (u32, u32) = match viewport.coordinate(place) {
            Some(cell) => cell,
            None => unreached(),
        };
        proof {
            lemma_coordinate_in_range(viewport, place as int);
            assert(x == place as int % (viewport.width as int));
            assert(y == place as int / (viewport.width as int));
        }
        cells.push(fs_main(x, y, field, viewport));
        place += 1;
    }
    proof {
        assert forall|x: int, y: int|
            0 <= x < viewport.width && 0 <= y < viewport.height implies cells@[#[trigger]
        viewport.index_of(x, y)] == field@[from.index_of(
            source_of(from.width, viewport.width, x),
            source_of(from.height, viewport.height, y),
        )] by {
            lemma_index_in_range(viewport, x, y);
            lemma_index_round_trip(viewport, x, y);
        }
        if viewport == from {
            assert forall|k: int| 0 <= k < cells@.len() implies cells@[k] == field@[k] by {
                lemma_coordinate_in_range(viewport, k);
                lemma_source_in_range(from.width, from.width, k % (from.width as int));
                lemma_source_in_range(from.height, from.height, k / (from.width as int));
            }
            assert(cells@ =~= field@);
        }
    }
    Ok(FieldBuffer::from_cells(viewport, field.generation(), cells))
}

/// The frame that shows `field` in a viewport of the given size, its colours
/// taken as `filter` says.
///
/// A viewport of the field's own size shows the field unchanged under either
/// filter, and nothing is mixed. Under the linear filter every cell of a
/// viewport of another size is mixed from the four cells under its taps:
/// `mix` is given two colours and a weight as parts of a scale, and blends
/// from the first colour towards the second.
pub fn present_with<X: Fn(Rgba, Rgba, u64, u64) -> Rgba>(
    field: &FieldBuffer,
    viewport: Domain,
    filter: Filter,
    mix: &X,
) -> (shown: Result<FieldBuffer, FieldError>)
    requires
        field.wf(),
        forall|a: Rgba, b: Rgba, weight: u64, scale: u64|
            weight < scale ==> call_requires(*mix, (a, b, weight, scale)),
    ensures
        match shown {
            Ok(frame) => {
                &&& frame.wf()
                &&& frame.extent() == viewport
                &&& frame.version() == field.version()
                &&& viewport == field.extent() ==> frame@ == field@
                &&& filter == Filter::Nearest ==> forall|x: int, y: int|
                    0 <= x < viewport.width && 0 <= y < viewport.height ==> frame@[#[trigger]
                    viewport.index_of(x, y)] == field@[field.extent().index_of(
                        source_of(field.extent().width, viewport.width, x),
                        source_of(field.extent().height, viewport.height, y),
                    )]
                &&& filter == Filter::Linear && viewport != field.extent() ==> forall|
                    x: int,
                    y: int,
                |
                    0 <= x < viewport.width && 0 <= y < viewport.height ==> blends(
                        mix,
                        field@,
                        field.extent(),
                        tap_of(field.extent().width, viewport.width, x),
                        tap_of(field.extent().height, viewport.height, y),
                        frame@[#[trigger] viewport.index_of(x, y)],
                    )
            },
            Err(e) => viewport.checked_cells() == Err::<usize, FieldError>(e),
        },
{
    let from: Domain = field.domain();
    let same: bool = from.width == viewport.width && from.height == viewport.height;
    match filter {
        Filter::Linear => {
            if same {
                return present(field, viewport);
            }
        },
        Filter::Nearest => {
            return present(field, viewport);
        },
    }
    let count: usize = match viewport.cell_count() {
        Ok(count) => count,
        Err(e) => {
            return Err(e);
        },
    };
    let mut cells: Vec<Rgba> = Vec::new();
    let mut place: usize = 0;
    while place < count
        invariant
            place <= count,
            field.wf(),
            from == field.extent(),
            viewport.wf(),
            count == viewport.cells(),
            cells@.len() == place,
            forall|a: Rgba, b: Rgba, weight: u64, scale: u64|
                weight < scale ==> call_requires(*mix, (a, b, weight, scale)),
            forall|k: int|
                0 <= k < place ==> blends(
                    mix,
                    field@,
                    from,
                    tap_of(from.width, viewport.width, k % (viewport.width as int)),
                    tap_of(from.height, viewport.height, k / (viewport.width as int)),
                    #[trigger] cells@[k],
                ),
        decreases count - place,
    {
        let (x, y): (u32, u32) = match viewport.coordinate(place) {
            Some(cell) => cell,
            None => unreached(),
        };
        proof {
            lemma_coordinate_in_range(viewport, place as int);
            assert(x == place as int % (viewport.width as int));
            assert(y == place as int / (viewport.width as int));
        }
        let across: Tap = tap(from.width, viewport.width, x);
        let down: Tap = tap(from.height, viewport.height, y);
        let upper: Rgba = mix(
            field.at(across.low, down.low),
            field.at(across.high, down.low),
            across.weight,
            across.scale,
        );
        let lower: Rgba = mix(
            field.at(across.low, down.high),
            field.at(across.high, down.high),
            across.weight,
            across.scale,
        );
        let colour: Rgba = mix(upper, lower, down.weight, down.scale);
        assert(blends(mix, field@, from, across, down, colour));
        cells.push(colour);
        place += 1;
    }
    proof {
        assert forall|x: int, y: int|
            0 <= x < viewport.width && 0 <= y < viewport.height implies blends(
            mix,
            field@,
            from,
            tap_of(from.width, viewport.width, x),
            tap_of(from.height, viewport.height, y),
            cells@[#[trigger] viewport.index_of(x, y)],
        ) by {
            lemma_index_in_range(viewport, x, y);
            lemma_index_round_trip(viewport, x, y);
        }
    }
    Ok(FieldBuffer::from_cells(viewport, field.generation(), cells))
}

} // verus!
