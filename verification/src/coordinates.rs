//! Generic coordinate systems: positions, offsets, lengths and axis-aligned
//! bounding boxes over any type that implements [`CoordinateSystem`].
use std::cmp::Ordering;
use std::ops::{Add, Deref, Div, Mul, Sub};
use vstd::prelude::*;
use vstd::std_specs::cmp::{PartialEqSpec, PartialOrdSpec};
use vstd::std_specs::convert::{FromSpec, FromSpecImpl};
use vstd::std_specs::ops::{
    AddSpec, AddSpecImpl, DivSpec, DivSpecImpl, MulSpec, MulSpecImpl, SubSpec, SubSpecImpl,
};

verus! {

/// A mapping of positions and offsets from the coordinate system `T` into
/// the coordinate system `U`.
pub trait CoordinateSystemTransformer<T: CoordinateSystem, U: CoordinateSystem> {
    /// Whether the implementation meets the contracts of the methods below.
    /// An implementation outside verified code keeps the default, `false`,
    /// and the contracts then promise nothing of it.
    open spec fn obeys_transform_spec() -> bool {
        false
    }

    /// The position that `position` is mapped to.
    open spec fn position_image(&self, position: T::Position) -> U::Position {
        arbitrary()
    }

    /// The offset that `offset` is mapped to.
    open spec fn offset_image(&self, offset: T::Offset) -> U::Offset {
        arbitrary()
    }

    /// Applies a coordinate system transform to a position.
    fn transform_position(&self, position: T::Position) -> (r: U::Position)
        ensures
            Self::obeys_transform_spec() ==> r == self.position_image(position),
    ;

    /// Applies a coordinate system transform to an offset.
    fn transform_offset(&self, offset: T::Offset) -> (r: U::Offset)
        ensures
            Self::obeys_transform_spec() ==> r == self.offset_image(offset),
    ;
}

/// Definition of a coordinate system.
pub trait CoordinateSystem {
    /// The type of a single component of positions and offsets.
    type Component: Copy;

    type Position: PositionType<Self::Offset, Self::Length> + ComponentAccessible<
        Component = Self::Component,
    >;

    type Offset: OffsetType<Self::Position, Self::Length> + ComponentAccessible<
        Component = Self::Component,
    >;

    type Length: LengthType<Self::Position, Self::Offset>;
}

/// Generalization of a position.
pub trait PositionType<Offset, Length>:
    Sized + Copy + ComponentAccessible + PartialEq + Sub<Output = Offset> + Add<
    Offset,
    Output = Self,
> + Sub<Offset, Output = Self> {

}

/// Generalization of an offset.
pub trait OffsetType<Position, Length>:
    Sized + Copy + ComponentAccessible + PartialEq + Add<Output = Self> + Sub<Output = Self> + Mul<
    Length,
    Output = Self,
> + Div<Length, Output = Self> + Add<Position, Output = Position> + Sub<
    Position,
    Output = Position,
> {

}

/// Generalization of a length.
pub trait LengthType<Position, Offset>:
    Sized + Copy + PartialEq + PartialOrd + Add<Output = Self> + Sub<Output = Self> + Mul<
    Output = Self,
> + Div<Output = Self> + Mul<Offset, Output = Offset> + From<Offset> {
    /// Whether the implementation meets the contracts of `zero` and `unit`.
    /// An implementation outside verified code keeps the default, `false`,
    /// and the contracts then promise nothing of it.
    open spec fn obeys_length_spec() -> bool {
        false
    }

    /// The value of the zero length.
    open spec fn zero_value() -> Self {
        arbitrary()
    }

    /// The value of the unit length.
    open spec fn unit_value() -> Self {
        arbitrary()
    }

    /// Zero length.
    fn zero() -> (r: Self)
        ensures
            Self::obeys_length_spec() ==> r == Self::zero_value(),
    ;

    /// Unit length.
    fn unit() -> (r: Self)
        ensures
            Self::obeys_length_spec() ==> r == Self::unit_value(),
    ;
}

/// Whether an ordering says "less than or equal".
pub open spec fn is_le(o: Option<Ordering>) -> bool {
    o == Some(Ordering::Less) || o == Some(Ordering::Equal)
}

/// Types that allow accessing their individual components.
pub trait ComponentAccessible: Sized {
    /// Component type.
    type Component: Copy;

    /// Whether the implementation meets the contracts of the methods below.
    /// An implementation outside verified code keeps the default, `false`,
    /// and the contracts then promise nothing of it.
    open spec fn obeys_component_spec() -> bool {
        false
    }

    /// Number of components.
    open spec fn num_components() -> nat {
        arbitrary()
    }

    /// The component at `idx`.
    open spec fn component(&self, idx: usize) -> Self::Component {
        arbitrary()
    }

    /// The value with all components zero.
    open spec fn zero_value() -> Self {
        arbitrary()
    }

    /// The unit value along the component `idx`.
    open spec fn unit_value_at(idx: usize) -> Self {
        arbitrary()
    }

    /// How the components at `idx` of `self` and `rhs` are ordered.
    open spec fn component_order(&self, rhs: &Self, idx: usize) -> Option<Ordering> {
        arbitrary()
    }

    /// Number of components.
    fn components() -> (n: usize)
        ensures
            Self::obeys_component_spec() ==> n == Self::num_components(),
    ;

    /// The zero value.
    fn zero() -> (r: Self)
        ensures
            Self::obeys_component_spec() ==> r == Self::zero_value(),
    ;

    /// Unit offset at the specified component.
    fn unit_component(idx: usize) -> (r: Self)
        requires
            idx < Self::num_components(),
        ensures
            Self::obeys_component_spec() ==> r == Self::unit_value_at(idx),
    ;

    /// Returns the component at `idx`.
    fn get_component(&self, idx: usize) -> (c: Self::Component)
        requires
            idx < Self::num_components(),
        ensures
            Self::obeys_component_spec() ==> c == self.component(idx),
    ;

    /// Sets the component at `idx`.
    fn set_component(&mut self, idx: usize, component: Self::Component)
        requires
            idx < Self::num_components(),
        ensures
            Self::obeys_component_spec() ==> final(self).component(idx) == component,
            Self::obeys_component_spec() ==> forall|j: usize|
                j < Self::num_components() && j != idx ==> final(self).component(j) == old(
                    self,
                ).component(j),
    ;

    /// Gets the ordering of the components at `idx`.
    fn cmp_component(&self, rhs: &Self, idx: usize) -> (r: Option<Ordering>)
        requires
            idx < Self::num_components(),
        ensures
            Self::obeys_component_spec() ==> r == self.component_order(rhs, idx),
    ;
}

/// A position in a coordinate system.
pub struct Position<T: CoordinateSystem> {
    pub value: T::Position,
}

/// An offset in a coordinate system.
pub struct Offset<T: CoordinateSystem> {
    pub value: T::Offset,
}

/// A length in a coordinate system.
pub struct Length<T: CoordinateSystem> {
    pub value: T::Length,
}

impl<T: CoordinateSystem> Position<T> {
    /// Constructs a new position.
    pub fn new<P: Into<T::Position>>(position: P) -> (r: Self)
        ensures
            call_ensures(P::into, (position,), r.value),
    {
        Position { value: position.into() }
    }

    /// Constructs the zero position.
    pub fn zero() -> (r: Self)
        ensures
            T::Position::obeys_component_spec() ==> r.value == T::Position::zero_value(),
    {
        Position { value: T::Position::zero() }
    }

    /// Extracts the value representation of the position.
    pub fn extract<U: From<T::Position>>(self) -> (r: U)
        ensures
            call_ensures(U::from, (self.value,), r),
            U::obeys_from_spec() ==> r == U::from_spec(self.value),
    {
        U::from(self.value)
    }

    /// Applies a coordinate system transform to the position.
    pub fn transform<U: CoordinateSystem, X: CoordinateSystemTransformer<T, U>>(
        self,
        transformer: &X,
    ) -> (r: Position<U>)
        ensures
            call_ensures(X::transform_position, (transformer, self.value), r.value),
            X::obeys_transform_spec() ==> r.value == transformer.position_image(self.value),
    {
        Position { value: transformer.transform_position(self.value) }
    }
}

impl<T: CoordinateSystem> Offset<T> {
    /// Constructs a new offset.
    pub fn new<P: Into<T::Offset>>(offset: P) -> (r: Self)
        ensures
            call_ensures(P::into, (offset,), r.value),
    {
        Offset { value: offset.into() }
    }

    /// Constructs the zero offset.
    pub fn zero() -> (r: Self)
        ensures
            T::Offset::obeys_component_spec() ==> r.value == T::Offset::zero_value(),
    {
        Offset { value: T::Offset::zero() }
    }

    /// Constructs a new offset, where the value at axis `axis` is `length`.
    pub fn from_length_at_axis(axis: usize, length: Length<T>) -> (r: Self)
        requires
            T::Offset::obeys_component_spec(),
            axis < T::Offset::num_components(),
            T::Offset::unit_value_at(axis).mul_req(length.value),
        ensures
            T::Offset::obeys_mul_spec() ==> r.value == T::Offset::unit_value_at(axis).mul_spec(
                length.value,
            ),
    {
        let value = T::Offset::unit_component(axis);
        Offset { value } * length
    }

    /// Extracts the value representation of the offset.
    pub fn extract<U: From<T::Offset>>(self) -> (r: U)
        ensures
            call_ensures(U::from, (self.value,), r),
            U::obeys_from_spec() ==> r == U::from_spec(self.value),
    {
        U::from(self.value)
    }

    /// Applies a coordinate system transform to the offset.
    pub fn transform<U: CoordinateSystem, X: CoordinateSystemTransformer<T, U>>(
        self,
        transformer: &X,
    ) -> (r: Offset<U>)
        ensures
            call_ensures(X::transform_offset, (transformer, self.value), r.value),
            X::obeys_transform_spec() ==> r.value == transformer.offset_image(self.value),
    {
        Offset { value: transformer.transform_offset(self.value) }
    }
}

impl<T: CoordinateSystem> Length<T> {
    /// Constructs a new length.
    pub fn new<P: Into<T::Length>>(length: P) -> (r: Self)
        ensures
            call_ensures(P::into, (length,), r.value),
    {
        Length { value: length.into() }
    }

    /// Constructs the zero length.
    pub fn zero() -> (r: Self)
        ensures
            T::Length::obeys_length_spec() ==> r.value == T::Length::zero_value(),
    {
        Length { value: T::Length::zero() }
    }

    /// Constructs the unit length.
    pub fn unit() -> (r: Self)
        ensures
            T::Length::obeys_length_spec() ==> r.value == T::Length::unit_value(),
    {
        Length { value: T::Length::unit() }
    }

    /// Extracts the value representation of the length.
    pub fn extract<U: From<T::Length>>(self) -> (r: U)
        ensures
            call_ensures(U::from, (self.value,), r),
            U::obeys_from_spec() ==> r == U::from_spec(self.value),
    {
        U::from(self.value)
    }
}

// Operators on positions.
impl<T: CoordinateSystem> Sub for Position<T> {
    type Output = Offset<T>;

    fn sub(self, rhs: Self) -> (r: Offset<T>) {
        Offset { value: self.value - rhs.value }
    }
}

impl<T: CoordinateSystem> SubSpecImpl for Position<T> {
    open spec fn obeys_sub_spec() -> bool {
        <T::Position as SubSpec<T::Position>>::obeys_sub_spec()
    }

    open spec fn sub_req(self, rhs: Self) -> bool {
        <T::Position as SubSpec<T::Position>>::sub_req(self.value, rhs.value)
    }

    open spec fn sub_spec(self, rhs: Self) -> Offset<T> {
        Offset { value: <T::Position as SubSpec<T::Position>>::sub_spec(self.value, rhs.value) }
    }
}

impl<T: CoordinateSystem> Add<Offset<T>> for Position<T> {
    type Output = Self;

    fn add(self, rhs: Offset<T>) -> (r: Self) {
        Position { value: self.value + rhs.value }
    }
}

impl<T: CoordinateSystem> AddSpecImpl<Offset<T>> for Position<T> {
    open spec fn obeys_add_spec() -> bool {
        <T::Position as AddSpec<T::Offset>>::obeys_add_spec()
    }

    open spec fn add_req(self, rhs: Offset<T>) -> bool {
        <T::Position as AddSpec<T::Offset>>::add_req(self.value, rhs.value)
    }

    open spec fn add_spec(self, rhs: Offset<T>) -> Self {
        Position { value: <T::Position as AddSpec<T::Offset>>::add_spec(self.value, rhs.value) }
    }
}

impl<T: CoordinateSystem> Sub<Offset<T>> for Position<T> {
    type Output = Self;

    fn sub(self, rhs: Offset<T>) -> (r: Self) {
        Position { value: self.value - rhs.value }
    }
}

impl<T: CoordinateSystem> SubSpecImpl<Offset<T>> for Position<T> {
    open spec fn obeys_sub_spec() -> bool {
        <T::Position as SubSpec<T::Offset>>::obeys_sub_spec()
    }

    open spec fn sub_req(self, rhs: Offset<T>) -> bool {
        <T::Position as SubSpec<T::Offset>>::sub_req(self.value, rhs.value)
    }

    open spec fn sub_spec(self, rhs: Offset<T>) -> Self {
        Position { value: <T::Position as SubSpec<T::Offset>>::sub_spec(self.value, rhs.value) }
    }
}

// Operators on offsets.
impl<T: CoordinateSystem> Add for Offset<T> {
    type Output = Self;

    fn add(self, rhs: Self) -> (r: Self) {
        Offset { value: self.value + rhs.value }
    }
}

impl<T: CoordinateSystem> AddSpecImpl for Offset<T> {
    open spec fn obeys_add_spec() -> bool {
        <T::Offset as AddSpec<T::Offset>>::obeys_add_spec()
    }

    open spec fn add_req(self, rhs: Self) -> bool {
        <T::Offset as AddSpec<T::Offset>>::add_req(self.value, rhs.value)
    }

    open spec fn add_spec(self, rhs: Self) -> Self {
        Offset { value: <T::Offset as AddSpec<T::Offset>>::add_spec(self.value, rhs.value) }
    }
}

impl<T: CoordinateSystem> Sub for Offset<T> {
    type Output = Self;

    fn sub(self, rhs: Self) -> (r: Self) {
        Offset { value: self.value - rhs.value }
    }
}

impl<T: CoordinateSystem> SubSpecImpl for Offset<T> {
    open spec fn obeys_sub_spec() -> bool {
        <T::Offset as SubSpec<T::Offset>>::obeys_sub_spec()
    }

    open spec fn sub_req(self, rhs: Self) -> bool {
        <T::Offset as SubSpec<T::Offset>>::sub_req(self.value, rhs.value)
    }

    open spec fn sub_spec(self, rhs: Self) -> Self {
        Offset { value: <T::Offset as SubSpec<T::Offset>>::sub_spec(self.value, rhs.value) }
    }
}

impl<T: CoordinateSystem> Mul<Length<T>> for Offset<T> {
    type Output = Self;

    fn mul(self, rhs: Length<T>) -> (r: Self) {
        Offset { value: self.value * rhs.value }
    }
}

impl<T: CoordinateSystem> MulSpecImpl<Length<T>> for Offset<T> {
    open spec fn obeys_mul_spec() -> bool {
        <T::Offset as MulSpec<T::Length>>::obeys_mul_spec()
    }

    open spec fn mul_req(self, rhs: Length<T>) -> bool {
        <T::Offset as MulSpec<T::Length>>::mul_req(self.value, rhs.value)
    }

    open spec fn mul_spec(self, rhs: Length<T>) -> Self {
        Offset { value: <T::Offset as MulSpec<T::Length>>::mul_spec(self.value, rhs.value) }
    }
}

impl<T: CoordinateSystem> Div<Length<T>> for Offset<T> {
    type Output = Self;

    fn div(self, rhs: Length<T>) -> (r: Self) {
        Offset { value: self.value / rhs.value }
    }
}

impl<T: CoordinateSystem> DivSpecImpl<Length<T>> for Offset<T> {
    open spec fn obeys_div_spec() -> bool {
        <T::Offset as DivSpec<T::Length>>::obeys_div_spec()
    }

    open spec fn div_req(self, rhs: Length<T>) -> bool {
        <T::Offset as DivSpec<T::Length>>::div_req(self.value, rhs.value)
    }

    open spec fn div_spec(self, rhs: Length<T>) -> Self {
        Offset { value: <T::Offset as DivSpec<T::Length>>::div_spec(self.value, rhs.value) }
    }
}

impl<T: CoordinateSystem> Add<Position<T>> for Offset<T> {
    type Output = Position<T>;

    fn add(self, rhs: Position<T>) -> (r: Position<T>) {
        Position { value: self.value + rhs.value }
    }
}

impl<T: CoordinateSystem> AddSpecImpl<Position<T>> for Offset<T> {
    open spec fn obeys_add_spec() -> bool {
        <T::Offset as AddSpec<T::Position>>::obeys_add_spec()
    }

    open spec fn add_req(self, rhs: Position<T>) -> bool {
        <T::Offset as AddSpec<T::Position>>::add_req(self.value, rhs.value)
    }

    open spec fn add_spec(self, rhs: Position<T>) -> Position<T> {
        Position { value: <T::Offset as AddSpec<T::Position>>::add_spec(self.value, rhs.value) }
    }
}

impl<T: CoordinateSystem> Sub<Position<T>> for Offset<T> {
    type Output = Position<T>;

    fn sub(self, rhs: Position<T>) -> (r: Position<T>) {
        Position { value: self.value - rhs.value }
    }
}

impl<T: CoordinateSystem> SubSpecImpl<Position<T>> for Offset<T> {
    open spec fn obeys_sub_spec() -> bool {
        <T::Offset as SubSpec<T::Position>>::obeys_sub_spec()
    }

    open spec fn sub_req(self, rhs: Position<T>) -> bool {
        <T::Offset as SubSpec<T::Position>>::sub_req(self.value, rhs.value)
    }

    open spec fn sub_spec(self, rhs: Position<T>) -> Position<T> {
        Position { value: <T::Offset as SubSpec<T::Position>>::sub_spec(self.value, rhs.value) }
    }
}

// Operators on lengths.
impl<T: CoordinateSystem> Add for Length<T> {
    type Output = Self;

    fn add(self, rhs: Self) -> (r: Self) {
        Length { value: self.value + rhs.value }
    }
}

impl<T: CoordinateSystem> AddSpecImpl for Length<T> {
    open spec fn obeys_add_spec() -> bool {
        <T::Length as AddSpec<T::Length>>::obeys_add_spec()
    }

    open spec fn add_req(self, rhs: Self) -> bool {
        <T::Length as AddSpec<T::Length>>::add_req(self.value, rhs.value)
    }

    open spec fn add_spec(self, rhs: Self) -> Self {
        Length { value: <T::Length as AddSpec<T::Length>>::add_spec(self.value, rhs.value) }
    }
}

impl<T: CoordinateSystem> Sub for Length<T> {
    type Output = Self;

    fn sub(self, rhs: Self) -> (r: Self) {
        Length { value: self.value - rhs.value }
    }
}

impl<T: CoordinateSystem> SubSpecImpl for Length<T> {
    open spec fn obeys_sub_spec() -> bool {
        <T::Length as SubSpec<T::Length>>::obeys_sub_spec()
    }

    open spec fn sub_req(self, rhs: Self) -> bool {
        <T::Length as SubSpec<T::Length>>::sub_req(self.value, rhs.value)
    }

    open spec fn sub_spec(self, rhs: Self) -> Self {
        Length { value: <T::Length as SubSpec<T::Length>>::sub_spec(self.value, rhs.value) }
    }
}

impl<T: CoordinateSystem> Mul for Length<T> {
    type Output = Self;

    fn mul(self, rhs: Self) -> (r: Self) {
        Length { value: self.value * rhs.value }
    }
}

impl<T: CoordinateSystem> MulSpecImpl for Length<T> {
    open spec fn obeys_mul_spec() -> bool {
        <T::Length as MulSpec<T::Length>>::obeys_mul_spec()
    }

    open spec fn mul_req(self, rhs: Self) -> bool {
        <T::Length as MulSpec<T::Length>>::mul_req(self.value, rhs.value)
    }

    open spec fn mul_spec(self, rhs: Self) -> Self {
        Length { value: <T::Length as MulSpec<T::Length>>::mul_spec(self.value, rhs.value) }
    }
}

impl<T: CoordinateSystem> Div for Length<T> {
    type Output = Self;

    fn div(self, rhs: Self) -> (r: Self) {
        Length { value: self.value / rhs.value }
    }
}

impl<T: CoordinateSystem> DivSpecImpl for Length<T> {
    open spec fn obeys_div_spec() -> bool {
        <T::Length as DivSpec<T::Length>>::obeys_div_spec()
    }

    open spec fn div_req(self, rhs: Self) -> bool {
        <T::Length as DivSpec<T::Length>>::div_req(self.value, rhs.value)
    }

    open spec fn div_spec(self, rhs: Self) -> Self {
        Length { value: <T::Length as DivSpec<T::Length>>::div_spec(self.value, rhs.value) }
    }
}

impl<T: CoordinateSystem> Mul<Offset<T>> for Length<T> {
    type Output = Offset<T>;

    fn mul(self, rhs: Offset<T>) -> (r: Offset<T>) {
        rhs * self
    }
}

impl<T: CoordinateSystem> MulSpecImpl<Offset<T>> for Length<T> {
    open spec fn obeys_mul_spec() -> bool {
        <T::Offset as MulSpec<T::Length>>::obeys_mul_spec()
    }

    open spec fn mul_req(self, rhs: Offset<T>) -> bool {
        <T::Offset as MulSpec<T::Length>>::mul_req(rhs.value, self.value)
    }

    open spec fn mul_spec(self, rhs: Offset<T>) -> Offset<T> {
        Offset { value: <T::Offset as MulSpec<T::Length>>::mul_spec(rhs.value, self.value) }
    }
}

impl<T: CoordinateSystem> From<Offset<T>> for Length<T> {
    fn from(value: Offset<T>) -> (r: Self) {
        Length { value: T::Length::from(value.value) }
    }
}

impl<T: CoordinateSystem> FromSpecImpl<Offset<T>> for Length<T> {
    open spec fn obeys_from_spec() -> bool {
        <T::Length as FromSpec<T::Offset>>::obeys_from_spec()
    }

    open spec fn from_spec(v: Offset<T>) -> Self {
        Length { value: <T::Length as FromSpec<T::Offset>>::from_spec(v.value) }
    }
}

// Copying, comparing and dereferencing.
impl<T: CoordinateSystem> Clone for Position<T> {
    fn clone(&self) -> (r: Self)
        ensures
            r == *self,
    {
        Position { value: self.value }
    }
}

impl<T: CoordinateSystem> Copy for Position<T> {

}

impl<T: CoordinateSystem> Clone for Offset<T> {
    fn clone(&self) -> (r: Self)
        ensures
            r == *self,
    {
        Offset { value: self.value }
    }
}

impl<T: CoordinateSystem> Copy for Offset<T> {

}

impl<T: CoordinateSystem> Clone for Length<T> {
    fn clone(&self) -> (r: Self)
        ensures
            r == *self,
    {
        Length { value: self.value }
    }
}

impl<T: CoordinateSystem> Copy for Length<T> {

}

impl<T: CoordinateSystem> PartialEq for Position<T> {
    fn eq(&self, other: &Self) -> (r: bool) {
        self.value == other.value
    }
}

impl<T: CoordinateSystem> vstd::std_specs::cmp::PartialEqSpecImpl for Position<T> {
    open spec fn obeys_eq_spec() -> bool {
        <T::Position as PartialEqSpec>::obeys_eq_spec()
    }

    open spec fn eq_spec(&self, other: &Self) -> bool {
        self.value.eq_spec(&other.value)
    }
}

impl<T: CoordinateSystem> PartialEq for Offset<T> {
    fn eq(&self, other: &Self) -> (r: bool) {
        self.value == other.value
    }
}

impl<T: CoordinateSystem> vstd::std_specs::cmp::PartialEqSpecImpl for Offset<T> {
    open spec fn obeys_eq_spec() -> bool {
        <T::Offset as PartialEqSpec>::obeys_eq_spec()
    }

    open spec fn eq_spec(&self, other: &Self) -> bool {
        self.value.eq_spec(&other.value)
    }
}

impl<T: CoordinateSystem> PartialEq for Length<T> {
    fn eq(&self, other: &Self) -> (r: bool) {
        self.value == other.value
    }
}

impl<T: CoordinateSystem> vstd::std_specs::cmp::PartialEqSpecImpl for Length<T> {
    open spec fn obeys_eq_spec() -> bool {
        <T::Length as PartialEqSpec>::obeys_eq_spec()
    }

    open spec fn eq_spec(&self, other: &Self) -> bool {
        self.value.eq_spec(&other.value)
    }
}

impl<T: CoordinateSystem> PartialOrd for Length<T> {
    fn partial_cmp(&self, other: &Self) -> (r: Option<Ordering>) {
        self.value.partial_cmp(&other.value)
    }
}

impl<T: CoordinateSystem> vstd::std_specs::cmp::PartialOrdSpecImpl for Length<T> {
    open spec fn obeys_partial_cmp_spec() -> bool {
        T::Length::obeys_partial_cmp_spec()
    }

    open spec fn partial_cmp_spec(&self, other: &Self) -> Option<Ordering> {
        self.value.partial_cmp_spec(&other.value)
    }
}

impl<T: CoordinateSystem> Deref for Position<T> {
    type Target = T::Position;

    fn deref(&self) -> (r: &T::Position)
        ensures
            *r == self.value,
    {
        &self.value
    }
}

impl<T: CoordinateSystem> Deref for Offset<T> {
    type Target = T::Offset;

    fn deref(&self) -> (r: &T::Offset)
        ensures
            *r == self.value,
    {
        &self.value
    }
}

impl<T: CoordinateSystem> Deref for Length<T> {
    type Target = T::Length;

    fn deref(&self) -> (r: &T::Length)
        ensures
            *r == self.value,
    {
        &self.value
    }
}

// Component access, forwarded to the underlying values.
impl<T: CoordinateSystem> ComponentAccessible for Position<T> {
    type Component = T::Component;

    open spec fn obeys_component_spec() -> bool {
        T::Position::obeys_component_spec()
    }

    open spec fn num_components() -> nat {
        T::Position::num_components()
    }

    open spec fn component(&self, idx: usize) -> T::Component {
        self.value.component(idx)
    }

    open spec fn zero_value() -> Self {
        Position { value: T::Position::zero_value() }
    }

    open spec fn unit_value_at(idx: usize) -> Self {
        Position { value: T::Position::unit_value_at(idx) }
    }

    open spec fn component_order(&self, rhs: &Self, idx: usize) -> Option<Ordering> {
        self.value.component_order(&rhs.value, idx)
    }

    fn components() -> (n: usize) {
        T::Position::components()
    }

    fn zero() -> (r: Self) {
        Position { value: T::Position::zero() }
    }

    fn unit_component(idx: usize) -> (r: Self) {
        Position { value: T::Position::unit_component(idx) }
    }

    fn get_component(&self, idx: usize) -> (c: T::Component) {
        self.value.get_component(idx)
    }

    fn set_component(&mut self, idx: usize, component: T::Component) {
        self.value.set_component(idx, component)
    }

    fn cmp_component(&self, rhs: &Self, idx: usize) -> (r: Option<Ordering>) {
        self.value.cmp_component(&rhs.value, idx)
    }
}

impl<T: CoordinateSystem> ComponentAccessible for Offset<T> {
    type Component = T::Component;

    open spec fn obeys_component_spec() -> bool {
        T::Offset::obeys_component_spec()
    }

    open spec fn num_components() -> nat {
        T::Offset::num_components()
    }

    open spec fn component(&self, idx: usize) -> T::Component {
        self.value.component(idx)
    }

    open spec fn zero_value() -> Self {
        Offset { value: T::Offset::zero_value() }
    }

    open spec fn unit_value_at(idx: usize) -> Self {
        Offset { value: T::Offset::unit_value_at(idx) }
    }

    open spec fn component_order(&self, rhs: &Self, idx: usize) -> Option<Ordering> {
        self.value.component_order(&rhs.value, idx)
    }

    fn components() -> (n: usize) {
        T::Offset::components()
    }

    fn zero() -> (r: Self) {
        Offset { value: T::Offset::zero() }
    }

    fn unit_component(idx: usize) -> (r: Self) {
        Offset { value: T::Offset::unit_component(idx) }
    }

    fn get_component(&self, idx: usize) -> (c: T::Component) {
        self.value.get_component(idx)
    }

    fn set_component(&mut self, idx: usize, component: T::Component) {
        self.value.set_component(idx, component)
    }

    fn cmp_component(&self, rhs: &Self, idx: usize) -> (r: Option<Ordering>) {
        self.value.cmp_component(&rhs.value, idx)
    }
}

/// An axis-aligned bounding box.
pub struct Aabb<T: CoordinateSystem> {
    pub start: Position<T>,
    pub end: Position<T>,
}

/// Relation between two bounding boxes.
#[derive(Debug, Clone, Copy, PartialEq, Eq, Structural)]
pub enum AabbRelation {
    /// The two bounding boxes don't share any points.
    Disjoint,
    /// The two bounding boxes share all points among each other.
    Equal,
    /// The second bounding box contains some points of the first bounding box.
    Intersect,
    /// The second bounding box contains all the points of the first bounding box.
    Contained,
}

impl<T: CoordinateSystem> Aabb<T> {
    /// Whether some side of the box has a length that is not positive, or
    /// whose corners cannot be compared along some component.
    pub open spec fn degenerate_box(self) -> bool {
        exists|i: usize|
            i < T::Position::num_components() && #[trigger] self.start.value.component_order(
                &self.end.value,
                i,
            ) != Some(Ordering::Less)
    }

    /// Whether `p` lies between `start` and `end` (both inclusive) along
    /// every component.
    pub open spec fn holds_point(self, p: Position<T>) -> bool {
        forall|i: usize| i < T::Position::num_components() ==> #[trigger] self.holds_component(p, i)
    }

    /// Whether `p` lies between `start` and `end` (both inclusive) along the
    /// component `i`.
    pub open spec fn holds_component(self, p: Position<T>, i: usize) -> bool {
        is_le(self.start.value.component_order(&p.value, i)) && is_le(
            p.value.component_order(&self.end.value, i),
        )
    }

    /// Whether the two boxes overlap along the component `i`: each starts
    /// at or before the end of the other.
    pub open spec fn overlaps_component(self, rhs: Self, i: usize) -> bool {
        is_le(self.start.value.component_order(&rhs.end.value, i)) && is_le(
            rhs.start.value.component_order(&self.end.value, i),
        )
    }

    /// Whether the two boxes overlap along every component.
    pub open spec fn overlaps_box(self, rhs: Self) -> bool {
        forall|i: usize|
            i < T::Position::num_components() ==> #[trigger] self.overlaps_component(rhs, i)
    }

    /// The relation of `self` to `rhs` when the two boxes are not equal:
    /// `Contained` when `rhs` holds both corners of `self`, `Intersect` when
    /// the boxes overlap otherwise, `Disjoint` when they do not overlap.
    pub open spec fn unequal_relation(self, rhs: Self) -> AabbRelation {
        if rhs.holds_point(self.start) && rhs.holds_point(self.end) {
            AabbRelation::Contained
        } else if self.overlaps_box(rhs) {
            AabbRelation::Intersect
        } else {
            AabbRelation::Disjoint
        }
    }

    /// Whether both corners of the two boxes are equal.
    pub open spec fn same_box(self, rhs: Self) -> bool {
        self.start.value.eq_spec(&rhs.start.value) && self.end.value.eq_spec(&rhs.end.value)
    }

    /// The relation of `self` to `rhs`, with equality of the corners decided
    /// by `eq_spec` of the position type.
    pub open spec fn relation(self, rhs: Self) -> AabbRelation {
        if self.same_box(rhs) {
            AabbRelation::Equal
        } else {
            self.unequal_relation(rhs)
        }
    }

    /// Constructs a new bounding box.
    pub fn new(start: Position<T>, end: Position<T>) -> (r: Self)
        ensures
            r.start == start,
            r.end == end,
    {
        Aabb { start, end }
    }

    /// Applies a coordinate system transform to the bounding box.
    pub fn transform<U: CoordinateSystem, X: CoordinateSystemTransformer<T, U>>(
        self,
        transformer: &X,
    ) -> (r: Aabb<U>)
        ensures
            call_ensures(X::transform_position, (transformer, self.start.value), r.start.value),
            call_ensures(X::transform_position, (transformer, self.end.value), r.end.value),
            X::obeys_transform_spec() ==> r.start.value == transformer.position_image(self.start.value),
            X::obeys_transform_spec() ==> r.end.value == transformer.position_image(self.end.value),
    {
        Aabb { start: self.start.transform(transformer), end: self.end.transform(transformer) }
    }

    /// Returns the size of the bounding box.
    pub fn size(&self) -> (r: Offset<T>)
        requires
            SubSpec::sub_req(self.end, self.start),
        ensures
            <Position<T> as SubSpec<Position<T>>>::obeys_sub_spec() ==> r == SubSpec::sub_spec(
                self.end,
                self.start,
            ),
    {
        self.end - self.start
    }

    /// Checks if the bounding box is degenerate.
    ///
    /// A degenerate bounding box is a bounding box, where at least one side
    /// has a length `<= 0`.
    pub fn is_degenerate(&self) -> (r: bool)
        requires
            T::Position::obeys_component_spec(),
        ensures
            r == self.degenerate_box(),
    {
        let n = Position::<T>::components();
        let mut i: usize = 0;
        while i < n
            invariant
                T::Position::obeys_component_spec(),
                n == T::Position::num_components(),
                i <= n,
                forall|j: usize|
                    j < i ==> #[trigger] self.start.value.component_order(&self.end.value, j)
                        == Some(Ordering::Less),
            decreases n - i,
        {
            match self.start.cmp_component(&self.end, i) {
                Some(Ordering::Less) => {},
                _ => {
                    return true;
                },
            }
            i = i + 1;
        }
        false
    }

    /// Checks if a point is contained in the region inside the bounding box.
    pub fn contains_point(&self, p: &Position<T>) -> (r: bool)
        requires
            T::Position::obeys_component_spec(),
        ensures
            r == self.holds_point(*p),
    {
        let n = Position::<T>::components();
        let mut i: usize = 0;
        while i < n
            invariant
                T::Position::obeys_component_spec(),
                n == T::Position::num_components(),
                i <= n,
                forall|j: usize| j < i ==> #[trigger] self.holds_component(*p, j),
            decreases n - i,
        {
            match self.start.cmp_component(p, i) {
                Some(Ordering::Less) | Some(Ordering::Equal) => {
                    match p.cmp_component(&self.end, i) {
                        Some(Ordering::Less) | Some(Ordering::Equal) => {},
                        _ => {
                            assert(!self.holds_component(*p, i));
                            return false;
                        },
                    }
                },
                _ => {
                    assert(!self.holds_component(*p, i));
                    return false;
                },
            }
            i = i + 1;
        }
        true
    }

    /// Checks whether the two boxes overlap along every component.
    fn overlaps(&self, rhs: &Self) -> (r: bool)
        requires
            T::Position::obeys_component_spec(),
        ensures
            r == self.overlaps_box(*rhs),
    {
        let n = Position::<T>::components();
        let mut i: usize = 0;
        while i < n
            invariant
                T::Position::obeys_component_spec(),
                n == T::Position::num_components(),
                i <= n,
                forall|j: usize| j < i ==> #[trigger] self.overlaps_component(*rhs, j),
            decreases n - i,
        {
            let before_end = match self.start.cmp_component(&rhs.end, i) {
                Some(Ordering::Less) | Some(Ordering::Equal) => true,
                _ => false,
            };
            let after_start = match rhs.start.cmp_component(&self.end, i) {
                Some(Ordering::Less) | Some(Ordering::Equal) => true,
                _ => false,
            };
            if !(before_end && after_start) {
                assert(!self.overlaps_component(*rhs, i));
                return false;
            }
            i = i + 1;
        }
        true
    }

    /// Checks how the current bounding box stands, in relation to another
    /// bounding box.
    pub fn aabb_relation(&self, rhs: &Self) -> (r: AabbRelation)
        requires
            T::Position::obeys_component_spec(),
        ensures
            <T::Position as PartialEqSpec>::obeys_eq_spec() ==> r == self.relation(*rhs),
            r == AabbRelation::Equal || r == self.unequal_relation(*rhs),
    {
        if *self == *rhs {
            AabbRelation::Equal
        } else {
            let start_contained = rhs.contains_point(&self.start);
            let end_contained = rhs.contains_point(&self.end);

            if start_contained && end_contained {
                AabbRelation::Contained
            } else if self.overlaps(rhs) {
                AabbRelation::Intersect
            } else {
                AabbRelation::Disjoint
            }
        }
    }
}

impl<T: CoordinateSystem> Clone for Aabb<T> {
    fn clone(&self) -> (r: Self)
        ensures
            r == *self,
    {
        Aabb { start: self.start, end: self.end }
    }
}

impl<T: CoordinateSystem> Copy for Aabb<T> {

}

impl<T: CoordinateSystem> PartialEq for Aabb<T> {
    fn eq(&self, other: &Self) -> (r: bool) {
        self.start.value == other.start.value && self.end.value == other.end.value
    }
}

impl<T: CoordinateSystem> vstd::std_specs::cmp::PartialEqSpecImpl for Aabb<T> {
    open spec fn obeys_eq_spec() -> bool {
        <T::Position as PartialEqSpec>::obeys_eq_spec()
    }

    open spec fn eq_spec(&self, other: &Self) -> bool {
        self.same_box(*other)
    }
}

/// A box that is not degenerate contains both of its corners, provided that
/// comparing a position with itself along any component gives `Equal`.
pub proof fn lemma_box_holds_its_corners<T: CoordinateSystem>(b: Aabb<T>)
    requires
        !b.degenerate_box(),
        forall|i: usize|
            i < T::Position::num_components() ==> #[trigger] b.start.value.component_order(
                &b.start.value,
                i,
            ) == Some(Ordering::Equal),
        forall|i: usize|
            i < T::Position::num_components() ==> #[trigger] b.end.value.component_order(
                &b.end.value,
                i,
            ) == Some(Ordering::Equal),
    ensures
        b.holds_point(b.start),
        b.holds_point(b.end),
{
    assert forall|i: usize| i < T::Position::num_components() implies #[trigger] b.holds_component(
        b.start,
        i,
    ) by {
        assert(b.start.value.component_order(&b.end.value, i) == Some(Ordering::Less));
    }
    assert forall|i: usize| i < T::Position::num_components() implies #[trigger] b.holds_component(
        b.end,
        i,
    ) by {
        assert(b.start.value.component_order(&b.end.value, i) == Some(Ordering::Less));
    }
}

/// A box stands in the relation `Equal` to itself, provided that each of its
/// corners is equal to itself.
pub proof fn lemma_relation_to_itself<T: CoordinateSystem>(b: Aabb<T>)
    requires
        b.start.value.eq_spec(&b.start.value),
        b.end.value.eq_spec(&b.end.value),
    ensures
        b.relation(b) == AabbRelation::Equal,
{
}

/// Two boxes that share a point are never reported as disjoint, provided
/// that the order of each component is transitive.
pub proof fn lemma_shared_point_not_disjoint<T: CoordinateSystem>(
    a: Aabb<T>,
    b: Aabb<T>,
    p: Position<T>,
)
    requires
        a.holds_point(p),
        b.holds_point(p),
        forall|x: T::Position, y: T::Position, z: T::Position, i: usize|
            i < T::Position::num_components() && is_le(#[trigger] x.component_order(&y, i))
                && is_le(#[trigger] y.component_order(&z, i)) ==> is_le(x.component_order(&z, i)),
    ensures
        a.unequal_relation(b) != AabbRelation::Disjoint,
        a.relation(b) != AabbRelation::Disjoint,
{
    assert forall|i: usize| i < T::Position::num_components() implies #[trigger] a.overlaps_component(
        b,
        i,
    ) by {
        assert(a.holds_component(p, i));
        assert(b.holds_component(p, i));
        assert(is_le(a.start.value.component_order(&p.value, i)));
        assert(is_le(p.value.component_order(&b.end.value, i)));
        assert(is_le(b.start.value.component_order(&p.value, i)));
        assert(is_le(p.value.component_order(&a.end.value, i)));
    }
}

} // verus!
