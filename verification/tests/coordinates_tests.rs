use ppc::coordinates::{
    Aabb, AabbRelation, ComponentAccessible, CoordinateSystem, CoordinateSystemTransformer, Length,
    LengthType, Offset, OffsetType, Position, PositionType,
};
use std::cmp::Ordering;
use std::ops::{Add, Div, Mul, Sub};

// A two-dimensional grid with integer coordinates; `y` grows downwards when
// `FLIP` holds, as on a screen.
#[derive(Debug, Clone, Copy, PartialEq)]
struct GridPosition<const FLIP: bool> {
    x: i64,
    y: i64,
}

#[derive(Debug, Clone, Copy, PartialEq)]
struct GridOffset {
    x: i64,
    y: i64,
}

#[derive(Debug, Clone, Copy, PartialEq, PartialOrd)]
struct GridLength(i64);

impl<const FLIP: bool> From<(i64, i64)> for GridPosition<FLIP> {
    fn from((x, y): (i64, i64)) -> Self {
        Self { x, y }
    }
}

impl<const FLIP: bool> From<GridPosition<FLIP>> for (i64, i64) {
    fn from(p: GridPosition<FLIP>) -> Self {
        (p.x, p.y)
    }
}

impl From<(i64, i64)> for GridOffset {
    fn from((x, y): (i64, i64)) -> Self {
        Self { x, y }
    }
}

impl From<GridOffset> for (i64, i64) {
    fn from(o: GridOffset) -> Self {
        (o.x, o.y)
    }
}

impl From<i64> for GridLength {
    fn from(v: i64) -> Self {
        Self(v)
    }
}

impl From<GridLength> for i64 {
    fn from(l: GridLength) -> Self {
        l.0
    }
}

impl<const FLIP: bool> ComponentAccessible for GridPosition<FLIP> {
    type Component = i64;

    fn components() -> usize {
        2
    }

    fn zero() -> Self {
        Self { x: 0, y: 0 }
    }

    fn unit_component(idx: usize) -> Self {
        match idx {
            0 => Self { x: 1, y: 0 },
            _ => Self { x: 0, y: 1 },
        }
    }

    fn get_component(&self, idx: usize) -> i64 {
        match idx {
            0 => self.x,
            _ => self.y,
        }
    }

    fn set_component(&mut self, idx: usize, component: i64) {
        match idx {
            0 => self.x = component,
            _ => self.y = component,
        }
    }

    fn cmp_component(&self, rhs: &Self, idx: usize) -> Option<Ordering> {
        match idx {
            0 => self.x.partial_cmp(&rhs.x),
            _ => {
                if FLIP {
                    rhs.y.partial_cmp(&self.y)
                } else {
                    self.y.partial_cmp(&rhs.y)
                }
            }
        }
    }
}

impl ComponentAccessible for GridOffset {
    type Component = i64;

    fn components() -> usize {
        2
    }

    fn zero() -> Self {
        Self { x: 0, y: 0 }
    }

    fn unit_component(idx: usize) -> Self {
        match idx {
            0 => Self { x: 1, y: 0 },
            _ => Self { x: 0, y: 1 },
        }
    }

    fn get_component(&self, idx: usize) -> i64 {
        match idx {
            0 => self.x,
            _ => self.y,
        }
    }

    fn set_component(&mut self, idx: usize, component: i64) {
        match idx {
            0 => self.x = component,
            _ => self.y = component,
        }
    }

    fn cmp_component(&self, rhs: &Self, idx: usize) -> Option<Ordering> {
        match idx {
            0 => self.x.partial_cmp(&rhs.x),
            _ => self.y.partial_cmp(&rhs.y),
        }
    }
}

impl<const FLIP: bool> Sub for GridPosition<FLIP> {
    type Output = GridOffset;
    fn sub(self, rhs: Self) -> GridOffset {
        GridOffset { x: self.x - rhs.x, y: self.y - rhs.y }
    }
}

impl<const FLIP: bool> Add<GridOffset> for GridPosition<FLIP> {
    type Output = Self;
    fn add(self, rhs: GridOffset) -> Self {
        Self { x: self.x + rhs.x, y: self.y + rhs.y }
    }
}

impl<const FLIP: bool> Sub<GridOffset> for GridPosition<FLIP> {
    type Output = Self;
    fn sub(self, rhs: GridOffset) -> Self {
        Self { x: self.x - rhs.x, y: self.y - rhs.y }
    }
}

impl Add for GridOffset {
    type Output = Self;
    fn add(self, rhs: Self) -> Self {
        Self { x: self.x + rhs.x, y: self.y + rhs.y }
    }
}

impl Sub for GridOffset {
    type Output = Self;
    fn sub(self, rhs: Self) -> Self {
        Self { x: self.x - rhs.x, y: self.y - rhs.y }
    }
}

impl Mul<GridLength> for GridOffset {
    type Output = Self;
    fn mul(self, rhs: GridLength) -> Self {
        Self { x: self.x * rhs.0, y: self.y * rhs.0 }
    }
}

impl Div<GridLength> for GridOffset {
    type Output = Self;
    fn div(self, rhs: GridLength) -> Self {
        Self { x: self.x / rhs.0, y: self.y / rhs.0 }
    }
}

impl<const FLIP: bool> Add<GridPosition<FLIP>> for GridOffset {
    type Output = GridPosition<FLIP>;
    fn add(self, rhs: GridPosition<FLIP>) -> GridPosition<FLIP> {
        GridPosition { x: self.x + rhs.x, y: self.y + rhs.y }
    }
}

impl<const FLIP: bool> Sub<GridPosition<FLIP>> for GridOffset {
    type Output = GridPosition<FLIP>;
    fn sub(self, rhs: GridPosition<FLIP>) -> GridPosition<FLIP> {
        GridPosition { x: self.x - rhs.x, y: self.y - rhs.y }
    }
}

impl Add for GridLength {
    type Output = Self;
    fn add(self, rhs: Self) -> Self {
        Self(self.0 + rhs.0)
    }
}

impl Sub for GridLength {
    type Output = Self;
    fn sub(self, rhs: Self) -> Self {
        Self(self.0 - rhs.0)
    }
}

impl Mul for GridLength {
    type Output = Self;
    fn mul(self, rhs: Self) -> Self {
        Self(self.0 * rhs.0)
    }
}

impl Div for GridLength {
    type Output = Self;
    fn div(self, rhs: Self) -> Self {
        Self(self.0 / rhs.0)
    }
}

impl Mul<GridOffset> for GridLength {
    type Output = GridOffset;
    fn mul(self, rhs: GridOffset) -> GridOffset {
        rhs * self
    }
}

impl From<GridOffset> for GridLength {
    // The length along the grid lines.
    fn from(o: GridOffset) -> Self {
        Self(o.x.abs() + o.y.abs())
    }
}

impl<const FLIP: bool> PositionType<GridOffset, GridLength> for GridPosition<FLIP> {}

impl<const FLIP: bool> OffsetType<GridPosition<FLIP>, GridLength> for GridOffset {}

impl<const FLIP: bool> LengthType<GridPosition<FLIP>, GridOffset> for GridLength {
    fn zero() -> Self {
        Self(0)
    }

    fn unit() -> Self {
        Self(1)
    }
}

#[derive(Debug, Clone, Copy)]
struct Grid;

impl CoordinateSystem for Grid {
    type Component = i64;
    type Position = GridPosition<false>;
    type Offset = GridOffset;
    type Length = GridLength;
}

#[derive(Debug, Clone, Copy)]
struct FlippedGrid;

impl CoordinateSystem for FlippedGrid {
    type Component = i64;
    type Position = GridPosition<true>;
    type Offset = GridOffset;
    type Length = GridLength;
}

// Maps a grid of height `height + 1` onto its flipped version.
struct Flip {
    height: i64,
}

impl CoordinateSystemTransformer<Grid, FlippedGrid> for Flip {
    fn transform_position(&self, p: GridPosition<false>) -> GridPosition<true> {
        GridPosition { x: p.x, y: self.height - p.y }
    }

    fn transform_offset(&self, o: GridOffset) -> GridOffset {
        GridOffset { x: o.x, y: -o.y }
    }
}

fn pos(x: i64, y: i64) -> Position<Grid> {
    Position::new((x, y))
}

fn bb(x0: i64, y0: i64, x1: i64, y1: i64) -> Aabb<Grid> {
    Aabb::new(pos(x0, y0), pos(x1, y1))
}

#[test]
fn position_new_and_extract() {
    let p = pos(3, 4);
    let (x, y): (i64, i64) = p.extract();
    assert_eq!((x, y), (3, 4));
    assert_eq!(p.value, GridPosition { x: 3, y: 4 });
    assert_eq!(p.x, 3);
}

#[test]
fn zero_values() {
    assert_eq!(Position::<Grid>::zero().value, GridPosition { x: 0, y: 0 });
    assert_eq!(Offset::<Grid>::zero().value, GridOffset { x: 0, y: 0 });
    assert_eq!(Length::<Grid>::zero().value, GridLength(0));
    assert_eq!(Length::<Grid>::unit().value, GridLength(1));
}

#[test]
fn offset_from_length_at_axis() {
    let o = Offset::<Grid>::from_length_at_axis(0, Length::new(5));
    assert_eq!(o.value, GridOffset { x: 5, y: 0 });
    let o = Offset::<Grid>::from_length_at_axis(1, Length::new(7));
    assert_eq!(o.value, GridOffset { x: 0, y: 7 });
    let (x, y): (i64, i64) = o.extract();
    assert_eq!((x, y), (0, 7));
}

#[test]
fn arithmetic_forwards_to_values() {
    let p = pos(3, 4);
    let q = pos(1, 1);
    let o = p - q;
    assert_eq!(o.value, GridOffset { x: 2, y: 3 });
    assert_eq!((q + o).value, p.value);
    assert_eq!((p - o).value, q.value);
    assert_eq!((o + p).value, GridPosition { x: 5, y: 7 });
    assert_eq!((o - p).value, GridPosition { x: -1, y: -1 });
    assert_eq!((o + o).value, GridOffset { x: 4, y: 6 });
    assert_eq!((o - o).value, GridOffset { x: 0, y: 0 });
    assert_eq!((o * Length::new(3)).value, GridOffset { x: 6, y: 9 });
    assert_eq!((Length::new(3) * o).value, GridOffset { x: 6, y: 9 });
    assert_eq!((o / Length::new(2)).value, GridOffset { x: 1, y: 1 });
    let l = Length::<Grid>::new(6);
    assert_eq!((l + Length::new(2)).value, GridLength(8));
    assert_eq!((l - Length::new(2)).value, GridLength(4));
    assert_eq!((l * Length::new(2)).value, GridLength(12));
    assert_eq!((l / Length::new(2)).value, GridLength(3));
    assert_eq!(Length::<Grid>::from(o).value, GridLength(5));
    let n: i64 = l.extract();
    assert_eq!(n, 6);
}

#[test]
fn comparisons() {
    assert!(pos(1, 2) == pos(1, 2));
    assert!(pos(1, 2) != pos(2, 1));
    assert!(Length::<Grid>::new(1) < Length::new(2));
    assert_eq!(Length::<Grid>::new(3).partial_cmp(&Length::new(3)), Some(Ordering::Equal));
    assert!(bb(0, 0, 1, 1) == bb(0, 0, 1, 1));
    assert!(bb(0, 0, 1, 1) != bb(0, 0, 1, 2));
}

#[test]
fn component_access() {
    let mut p = pos(3, 4);
    assert_eq!(Position::<Grid>::components(), 2);
    assert_eq!(p.get_component(0), 3);
    assert_eq!(p.get_component(1), 4);
    p.set_component(1, 9);
    assert_eq!(p.value, GridPosition { x: 3, y: 9 });
    assert_eq!(Position::<Grid>::unit_component(1).value, GridPosition { x: 0, y: 1 });
    assert_eq!(p.cmp_component(&pos(5, 0), 0), Some(Ordering::Less));
    assert_eq!(p.cmp_component(&pos(5, 0), 1), Some(Ordering::Greater));
    let mut o = Offset::<Grid>::new((1, 2));
    o.set_component(0, -1);
    assert_eq!(o.get_component(0), -1);
    assert_eq!(Offset::<Grid>::unit_component(0).value, GridOffset { x: 1, y: 0 });
}

#[test]
fn transform_position_and_box() {
    let flip = Flip { height: 10 };
    let p = pos(2, 3).transform(&flip);
    assert_eq!(p.value, GridPosition { x: 2, y: 7 });
    let o = Offset::<Grid>::new((1, 1)).transform(&flip);
    assert_eq!(o.value, GridOffset { x: 1, y: -1 });
    let b = bb(0, 0, 4, 2).transform(&flip);
    assert_eq!(b.start.value, GridPosition { x: 0, y: 10 });
    assert_eq!(b.end.value, GridPosition { x: 4, y: 8 });
    // In the flipped grid the start lies below the end, as on a screen.
    assert!(!b.is_degenerate());
}

#[test]
fn box_size() {
    assert_eq!(bb(1, 2, 4, 8).size().value, GridOffset { x: 3, y: 6 });
}

#[test]
fn degenerate_boxes() {
    assert!(!bb(0, 0, 1, 1).is_degenerate());
    assert!(bb(0, 0, 0, 1).is_degenerate());
    assert!(bb(0, 0, 1, 0).is_degenerate());
    assert!(bb(2, 2, 1, 3).is_degenerate());
}

#[test]
fn point_containment() {
    let b = bb(0, 0, 10, 5);
    assert!(b.contains_point(&pos(0, 0)));
    assert!(b.contains_point(&pos(10, 5)));
    assert!(b.contains_point(&pos(3, 4)));
    assert!(!b.contains_point(&pos(11, 4)));
    assert!(!b.contains_point(&pos(3, -1)));
    assert!(!b.contains_point(&pos(3, 6)));
}

#[test]
fn box_relations() {
    let b = bb(0, 0, 10, 10);
    assert_eq!(b.aabb_relation(&b), AabbRelation::Equal);
    assert_eq!(bb(1, 1, 2, 2).aabb_relation(&b), AabbRelation::Contained);
    assert_eq!(bb(5, 5, 20, 20).aabb_relation(&b), AabbRelation::Intersect);
    assert_eq!(bb(20, 20, 30, 30).aabb_relation(&b), AabbRelation::Disjoint);
    // Boxes that cross without holding a corner of each other still share
    // points.
    assert_eq!(bb(-5, 4, 15, 6).aabb_relation(&b), AabbRelation::Intersect);
    // A box that covers the other one shares its points too.
    assert_eq!(bb(-1, -1, 11, 11).aabb_relation(&b), AabbRelation::Intersect);
    // Touching edges share the points of the edge.
    assert_eq!(bb(10, 0, 12, 10).aabb_relation(&b), AabbRelation::Intersect);
}
