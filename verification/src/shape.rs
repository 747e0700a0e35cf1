//! Descriptions of the destinations that the deserializer can rebuild.
use vstd::prelude::*;
use crate::names::name_views;

verus! {

/// The form of a value that is to be rebuilt from a row.
#[derive(Debug, PartialEq, Eq)]
pub enum Shape {
    Bool,
    I8,
    I16,
    I32,
    I64,
    U8,
    U16,
    U32,
    U64,
    Real,
    Char,
    Text,
    Bytes,
    Unit,
    /// An optional value of the inner shape.
    Optional(Box<Shape>),
    /// A structure without fields, with its declared name.
    UnitStruct(String),
    /// A structure with exactly one unnamed field.
    Newtype(Box<Shape>),
    /// An enum all of whose variants are without payload, with the declared
    /// names of its variants.
    Enumeration(Vec<String>),
    /// The enum variant of the given name that carries one unnamed payload
    /// field.
    NewtypeVariant(String, Box<Shape>),
    /// A sequence of any length whose elements have the inner shape.
    List(Box<Shape>),
    /// A sequence of fixed length, with the shape of each element.
    Tuple(Vec<Shape>),
    /// A structure with named fields, in declared order.
    Record(Vec<FieldShape>),
    /// A map-like value, with the shape of its keys and of its values.
    Mapping(Box<Shape>, Box<Shape>),
}

/// A named field of a record shape.
#[derive(Debug, PartialEq, Eq)]
pub struct FieldShape {
    pub name: String,
    pub shape: Shape,
}

/// The mathematical content of a [`Shape`].
pub enum ShapeView {
    Bool,
    I8,
    I16,
    I32,
    I64,
    U8,
    U16,
    U32,
    U64,
    Real,
    Char,
    Text,
    Bytes,
    Unit,
    Optional(Box<ShapeView>),
    UnitStruct(Seq<char>),
    Newtype(Box<ShapeView>),
    Enumeration(Seq<Seq<char>>),
    NewtypeVariant(Seq<char>, Box<ShapeView>),
    List(Box<ShapeView>),
    Tuple(Seq<ShapeView>),
    Record(Seq<FieldShapeView>),
    Mapping(Box<ShapeView>, Box<ShapeView>),
}

/// The mathematical content of a [`FieldShape`].
pub struct FieldShapeView {
    pub name: Seq<char>,
    pub shape: ShapeView,
}

/// The views of the shapes of a vector, in order.
pub open spec fn shape_views(shapes: Vec<Shape>) -> Seq<ShapeView>
    decreases shapes, 1int,
{
    Seq::new(
        shapes@.len(),
        |i: int|
            if 0 <= i < shapes@.len() {
                shape_view(shapes@[i])
            } else {
                ShapeView::Unit
            },
    )
}

/// The views of the field shapes of a vector, in order.
pub open spec fn field_shape_views(fields: Vec<FieldShape>) -> Seq<FieldShapeView>
    decreases fields, 1int,
{
    Seq::new(
        fields@.len(),
        |i: int|
            if 0 <= i < fields@.len() {
                FieldShapeView { name: fields@[i].name@, shape: shape_view(fields@[i].shape) }
            } else {
                FieldShapeView { name: Seq::empty(), shape: ShapeView::Unit }
            },
    )
}

/// The mathematical content of a shape.
pub open spec fn shape_view(shape: Shape) -> ShapeView
    decreases shape, 0int,
{
    match shape {
        Shape::Bool => ShapeView::Bool,
        Shape::I8 => ShapeView::I8,
        Shape::I16 => ShapeView::I16,
        Shape::I32 => ShapeView::I32,
        Shape::I64 => ShapeView::I64,
        Shape::U8 => ShapeView::U8,
        Shape::U16 => ShapeView::U16,
        Shape::U32 => ShapeView::U32,
        Shape::U64 => ShapeView::U64,
        Shape::Real => ShapeView::Real,
        Shape::Char => ShapeView::Char,
        Shape::Text => ShapeView::Text,
        Shape::Bytes => ShapeView::Bytes,
        Shape::Unit => ShapeView::Unit,
        Shape::Optional(inner) => ShapeView::Optional(Box::new(shape_view(*inner))),
        Shape::UnitStruct(name) => ShapeView::UnitStruct(name@),
        Shape::Newtype(inner) => ShapeView::Newtype(Box::new(shape_view(*inner))),
        Shape::Enumeration(variants) => ShapeView::Enumeration(name_views(variants)),
        Shape::NewtypeVariant(name, inner) => ShapeView::NewtypeVariant(
            name@,
            Box::new(shape_view(*inner)),
        ),
        Shape::List(inner) => ShapeView::List(Box::new(shape_view(*inner))),
        Shape::Tuple(shapes) => ShapeView::Tuple(shape_views(shapes)),
        Shape::Record(fields) => ShapeView::Record(field_shape_views(fields)),
        Shape::Mapping(key, value) => ShapeView::Mapping(
            Box::new(shape_view(*key)),
            Box::new(shape_view(*value)),
        ),
    }
}

impl View for Shape {
    type V = ShapeView;

    open spec fn view(&self) -> ShapeView {
        shape_view(*self)
    }
}

impl View for FieldShape {
    type V = FieldShapeView;

    open spec fn view(&self) -> FieldShapeView {
        FieldShapeView { name: self.name@, shape: self.shape@ }
    }
}

/// The view of a vector of shapes is the sequence of the views of its
/// elements.
pub proof fn lemma_shape_views(shapes: Vec<Shape>)
    ensures
        shape_views(shapes).len() == shapes@.len(),
        forall|i: int| 0 <= i < shapes@.len() ==> #[trigger] shape_views(shapes)[i] == shapes@[i]@,
{
}

/// The view of a vector of field shapes is the sequence of the views of its
/// elements.
pub proof fn lemma_field_shape_views(fields: Vec<FieldShape>)
    ensures
        field_shape_views(fields).len() == fields@.len(),
        forall|i: int|
            0 <= i < fields@.len() ==> #[trigger] field_shape_views(fields)[i] == fields@[i]@,
{
}

} // verus!
