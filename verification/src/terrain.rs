//! A static height field and the collision queries made against it.
//!
//! The field is a grid of elevation samples laid out row by row. A query
//! snaps a world position to the nearest grid cell; positions that snap to
//! no cell are unconstrained.

use vstd::prelude::*;
use crate::geometry::{clip, sat_add, Vec3};

verus! {

/// Why a height field could not be built.
#[derive(Clone, Copy, Debug, PartialEq, Eq, Structural)]
pub enum FieldError {
    /// The grid has no columns or no rows.
    EmptyGrid,
    /// A cell has no positive extent along one of its sides.
    FlatCell,
    /// The number of samples is not `width * depth`.
    SampleCount,
}

/// Mathematical model of a [`HeightField`].
pub struct FieldModel {
    pub origin: Vec3,
    pub cell_width: int,
    pub cell_depth: int,
    pub width: nat,
    pub depth: nat,
    pub samples: Seq<i64>,
}

/// Index of the grid line nearest to an offset `d >= 0` along an axis whose
/// lines are `pitch` apart; a point halfway between two lines goes to the
/// farther one.
pub open spec fn nearest(d: int, pitch: int) -> int {
    (2 * d + pitch) / (2 * pitch)
}

/// The cell along one axis that `coord` snaps to, if any: nothing below
/// `start`, nothing at or beyond line `count`.
pub open spec fn axis_cell(coord: int, start: int, pitch: int, count: nat) -> Option<int> {
    if coord < start {
        None
    } else if nearest(coord - start, pitch) >= count {
        None
    } else {
        Some(nearest(coord - start, pitch))
    }
}

impl FieldModel {
    /// The grid is not empty, cells have positive extent, and there is
    /// exactly one sample per cell.
    pub open spec fn wf(self) -> bool {
        &&& self.width > 0
        &&& self.depth > 0
        &&& self.cell_width > 0
        &&& self.cell_depth > 0
        &&& self.samples.len() == self.width * self.depth
    }

    /// Terrain elevation under the world position `(x, z)`, or `None` where
    /// the field puts no constraint.
    pub open spec fn ground(self, x: int, z: int) -> Option<int> {
        match (
            axis_cell(x, self.origin.x as int, self.cell_width, self.width),
            axis_cell(z, self.origin.z as int, self.cell_depth, self.depth),
        ) {
            (Some(col), Some(row)) => Some(
                clip(self.samples[row * self.width + col] as int + self.origin.y as int),
            ),
            _ => None,
        }
    }

    /// Lowest eye level allowed over `(x, z)` for a body `height` tall.
    pub open spec fn floor(self, x: int, z: int, height: int) -> Option<int> {
        match self.ground(x, z) {
            Some(g) => Some(clip(g + height)),
            None => None,
        }
    }

    /// Whether `p` lies below the allowed eye level.
    pub open spec fn collides(self, p: Vec3, height: int) -> bool {
        match self.floor(p.x as int, p.z as int, height) {
            Some(f) => (p.y as int) < f,
            None => false,
        }
    }

    /// `p` lifted to the allowed eye level where it lies below it.
    pub open spec fn settled(self, p: Vec3, height: int) -> Vec3 {
        match self.floor(p.x as int, p.z as int, height) {
            Some(f) => if (p.y as int) < f {
                Vec3 { x: p.x, y: f as i64, z: p.z }
            } else {
                p
            },
            None => p,
        }
    }

    /// World extent of the grid along x: one cell width per column.
    pub open spec fn span_x(self) -> int {
        self.width * self.cell_width
    }

    /// World extent of the grid along z: one cell depth per row.
    pub open spec fn span_z(self) -> int {
        self.depth * self.cell_depth
    }

    /// Whether `(x, z)` lies in the half-open rectangle that the grid spans
    /// from its origin.
    pub open spec fn covers(self, x: int, z: int) -> bool {
        &&& self.origin.x <= x < self.origin.x + self.span_x()
        &&& self.origin.z <= z < self.origin.z + self.span_z()
    }
}

/// Number of intervals between `count` grid lines, never less than one.
pub open spec fn intervals(count: nat) -> int {
    if count > 1 {
        count - 1
    } else {
        1
    }
}

/// Distance between neighbouring grid lines when `count` lines span
/// `extent`: the extent divided by the number of intervals, to the nearest
/// step; zero for an extent that is not positive.
pub open spec fn pitch(extent: int, count: nat) -> int {
    if extent <= 0 {
        0
    } else {
        nearest(extent, intervals(count))
    }
}

/// What building a field from these parts gives: the field, or the first
/// check that fails.
pub open spec fn built(
    origin: Vec3,
    cell_width: int,
    cell_depth: int,
    width: nat,
    depth: nat,
    samples: Seq<i64>,
) -> Result<FieldModel, FieldError> {
    if width == 0 || depth == 0 {
        Err(FieldError::EmptyGrid)
    } else if cell_width <= 0 || cell_depth <= 0 {
        Err(FieldError::FlatCell)
    } else if samples.len() != width * depth {
        Err(FieldError::SampleCount)
    } else {
        Ok(FieldModel { origin, cell_width, cell_depth, width, depth, samples })
    }
}

/// Immutable grid of terrain elevations.
pub struct HeightField {
    origin: Vec3,
    cell_width: i64,
    cell_depth: i64,
    width: usize,
    depth: usize,
    samples: Vec<i64>,
}

impl View for HeightField {
    type V = FieldModel;

    closed spec fn view(&self) -> FieldModel {
        FieldModel {
            origin: self.origin,
            cell_width: self.cell_width as int,
            cell_depth: self.cell_depth as int,
            width: self.width as nat,
            depth: self.depth as nat,
            samples: self.samples@,
        }
    }
}

/// Snaps one coordinate to a grid line.
fn snap(coord: i64, start: i64, pitch: i64, count: usize) -> (r: Option<usize>)
    requires
        pitch > 0,
    ensures
        match r {
            Some(i) => axis_cell(coord as int, start as int, pitch as int, count as nat) == Some(
                i as int,
            ),
            None => axis_cell(coord as int, start as int, pitch as int, count as nat).is_none(),
        },
{
    if coord < start {
        return None;
    }
    let d: u128 = (coord as i128 - start as i128) as u128;
    let cell: u128 = (2 * d + pitch as u128) / (2 * pitch as u128);
    if cell >= count as u128 {
        None
    } else {
        Some(cell as usize)
    }
}

/// Cell size for `count` grid lines over `extent`.
fn cell_size(extent: i64, count: usize) -> (r: i64)
    ensures
        r == pitch(extent as int, count as nat),
{
    if extent <= 0 {
        return 0;
    }
    let gaps: u128 = if count > 1 {
        (count - 1) as u128
    } else {
        1
    };
    let e: u128 = extent as u128;
    let q: u128 = (2 * e + gaps) / (2 * gaps);
    assert(q <= e) by (nonlinear_arith)
        requires
            q == (2 * e + gaps) / (2 * gaps),
            gaps >= 1,
            e >= 1,
    ;
    q as i64
}

impl HeightField {
    /// Builds a field of `width` columns and `depth` rows from row-major
    /// samples. The checks are made in the order of the error variants.
    pub fn new(
        origin: Vec3,
        cell_width: i64,
        cell_depth: i64,
        width: usize,
        depth: usize,
        samples: Vec<i64>,
    ) -> (r: Result<HeightField, FieldError>)
        ensures
            match r {
                Ok(f) => f@.wf() && built(
                    origin,
                    cell_width as int,
                    cell_depth as int,
                    width as nat,
                    depth as nat,
                    samples@,
                ) == Ok::<FieldModel, FieldError>(f@),
                Err(e) => built(
                    origin,
                    cell_width as int,
                    cell_depth as int,
                    width as nat,
                    depth as nat,
                    samples@,
                ) == Err::<FieldModel, FieldError>(e),
            },
    {
        if width == 0 || depth == 0 {
            return Err(FieldError::EmptyGrid);
        }
        if cell_width <= 0 || cell_depth <= 0 {
            return Err(FieldError::FlatCell);
        }
        let count: usize = samples.len();
        match width.checked_mul(depth) {
            Some(cells) => {
                if count != cells {
                    return Err(FieldError::SampleCount);
                }
            },
            None => {
                return Err(FieldError::SampleCount);
            },
        }
        Ok(HeightField { origin, cell_width, cell_depth, width, depth, samples })
    }

    /// Builds a field whose first and last grid lines are `extent_x` apart
    /// along x and `extent_z` apart along z: the cell size is the extent
    /// divided by the number of intervals, to the nearest step. An extent
    /// that is not positive gives cells without extent.
    pub fn spanning(
        origin: Vec3,
        extent_x: i64,
        extent_z: i64,
        width: usize,
        depth: usize,
        samples: Vec<i64>,
    ) -> (r: Result<HeightField, FieldError>)
        ensures
            match r {
                Ok(f) => f@.wf() && built(
                    origin,
                    pitch(extent_x as int, width as nat),
                    pitch(extent_z as int, depth as nat),
                    width as nat,
                    depth as nat,
                    samples@,
                ) == Ok::<FieldModel, FieldError>(f@),
                Err(e) => built(
                    origin,
                    pitch(extent_x as int, width as nat),
                    pitch(extent_z as int, depth as nat),
                    width as nat,
                    depth as nat,
                    samples@,
                ) == Err::<FieldModel, FieldError>(e),
            },
    {
        if width == 0 || depth == 0 {
            return Err(FieldError::EmptyGrid);
        }
        let cell_width: i64 = cell_size(extent_x, width);
        let cell_depth: i64 = cell_size(extent_z, depth);
        HeightField::new(origin, cell_width, cell_depth, width, depth, samples)
    }

    pub fn origin(&self) -> (r: Vec3)
        ensures
            r == self@.origin,
    {
        self.origin
    }

    pub fn cell_width(&self) -> (r: i64)
        ensures
            r == self@.cell_width,
    {
        self.cell_width
    }

    pub fn cell_depth(&self) -> (r: i64)
        ensures
            r == self@.cell_depth,
    {
        self.cell_depth
    }

    pub fn width(&self) -> (r: usize)
        ensures
            r == self@.width,
    {
        self.width
    }

    pub fn depth(&self) -> (r: usize)
        ensures
            r == self@.depth,
    {
        self.depth
    }

    /// Terrain elevation at the grid cell nearest to `(x, z)`; `None` where
    /// the position snaps to no cell.
    pub fn height_at(&self, x: i64, z: i64) -> (r: Option<i64>)
        requires
            self@.wf(),
        ensures
            match r {
                Some(g) => self@.ground(x as int, z as int) == Some(g as int),
                None => self@.ground(x as int, z as int).is_none(),
            },
    {
        let col: usize = match snap(x, self.origin.x, self.cell_width, self.width) {
            Some(c) => c,
            None => {
                return None;
            },
        };
        let row: usize = match snap(z, self.origin.z, self.cell_depth, self.depth) {
            Some(r) => r,
            None => {
                return None;
            },
        };
        let count: usize = self.samples.len();
        proof {
            lemma_cell_in_grid(row as int, col as int, self.width as int, self.depth as int);
            assert(count == self.width * self.depth);
        }
        let index: usize = row * self.width + col;
        Some(sat_add(self.samples[index], self.origin.y))
    }

    /// Lowest eye level allowed over `(x, z)` for a body `height` tall.
    pub fn floor_at(&self, x: i64, z: i64, height: i64) -> (r: Option<i64>)
        requires
            self@.wf(),
        ensures
            match r {
                Some(f) => self@.floor(x as int, z as int, height as int) == Some(f as int),
                None => self@.floor(x as int, z as int, height as int).is_none(),
            },
    {
        match self.height_at(x, z) {
            Some(g) => Some(sat_add(g, height)),
            None => None,
        }
    }

    /// Whether a body `height` tall with its eyes at `position` sinks into
    /// the terrain. Never true where the field puts no constraint.
    pub fn check_collision(&self, position: Vec3, height: i64) -> (r: bool)
        requires
            self@.wf(),
        ensures
            r == self@.collides(position, height as int),
    {
        match self.floor_at(position.x, position.z, height) {
            Some(f) => position.y < f,
            None => false,
        }
    }

    /// Lifts `position` onto the terrain where it sinks into it; leaves it
    /// untouched otherwise. Only the vertical coordinate ever changes.
    pub fn adjust_position(&self, position: Vec3, height: i64) -> (r: Vec3)
        requires
            self@.wf(),
        ensures
            r == self@.settled(position, height as int),
            r.x == position.x,
            r.z == position.z,
            r.y >= position.y,
            !self@.collides(r, height as int),
    {
        match self.floor_at(position.x, position.z, height) {
            Some(f) => if position.y < f {
                Vec3 { x: position.x, y: f, z: position.z }
            } else {
                position
            },
            None => position,
        }
    }
}

/// A cell inside the grid has its sample inside the row-major array.
pub proof fn lemma_cell_in_grid(row: int, col: int, width: int, depth: int)
    requires
        0 <= row < depth,
        0 <= col < width,
    ensures
        0 <= row * width + col < width * depth,
        0 <= row * width <= row * width + col,
{
    assert(row * width + col < width * depth) by (nonlinear_arith)
        requires
            0 <= row < depth,
            0 <= col < width,
    ;
    assert(0 <= row * width) by (nonlinear_arith)
        requires
            0 <= row,
            0 <= width,
    ;
}

/// A query outside the rectangle that the grid spans from its origin is
/// unconstrained.
pub proof fn lemma_outside_is_unconstrained(m: FieldModel, x: int, z: int)
    requires
        m.wf(),
        !m.covers(x, z),
    ensures
        m.ground(x, z).is_none(),
        forall|p: Vec3, height: int|
            p.x == x && p.z == z ==> !m.collides(p, height) && m.settled(p, height) == p,
{
    lemma_beyond_last_line(x - m.origin.x, m.cell_width, m.width);
    lemma_beyond_last_line(z - m.origin.z, m.cell_depth, m.depth);
}

/// An offset of `count` whole pitches or more snaps to line `count` or
/// beyond.
pub proof fn lemma_beyond_last_line(d: int, pitch: int, count: nat)
    requires
        pitch > 0,
    ensures
        d >= count * pitch ==> nearest(d, pitch) >= count,
{
    if d >= count * pitch {
        assert((2 * d + pitch) / (2 * pitch) >= count) by (nonlinear_arith)
            requires
                pitch > 0,
                d >= count * pitch,
        ;
    }
}

/// The centre of every cell snaps to that cell: the query there returns
/// the cell's own sample, raised by the origin's elevation.
pub proof fn lemma_cell_centre(m: FieldModel, col: int, row: int)
    requires
        m.wf(),
        0 <= col < m.width,
        0 <= row < m.depth,
    ensures
        m.ground(m.origin.x + col * m.cell_width, m.origin.z + row * m.cell_depth) == Some(
            clip(m.samples[row * m.width + col] as int + m.origin.y as int),
        ),
{
    lemma_line_snaps_to_itself(col, m.cell_width);
    lemma_line_snaps_to_itself(row, m.cell_depth);
    assert(col * m.cell_width >= 0) by (nonlinear_arith)
        requires
            col >= 0,
            m.cell_width > 0,
    ;
    assert(row * m.cell_depth >= 0) by (nonlinear_arith)
        requires
            row >= 0,
            m.cell_depth > 0,
    ;
}

/// The offset of grid line `k` snaps to `k`.
pub proof fn lemma_line_snaps_to_itself(k: int, pitch: int)
    requires
        k >= 0,
        pitch > 0,
    ensures
        nearest(k * pitch, pitch) == k,
{
    assert((2 * (k * pitch) + pitch) / (2 * pitch) == k) by (nonlinear_arith)
        requires
            k >= 0,
            pitch > 0,
    ;
}

} // verus!
