//! The normalized description of one data type: its schema name, its style,
//! and its fields or variants.

use vstd::prelude::*;
use crate::descriptor::TypeId;

verus! {

/// How a struct, or one variant of an enum, lays out its fields.
#[derive(Clone, Copy, Debug, PartialEq, Eq, Hash, Structural)]
pub enum Style {
    /// Named fields.
    Struct,
    /// Many unnamed fields.
    Tuple,
    /// One unnamed field.
    Newtype,
    /// No fields.
    Unit,
}

impl Style {
    /// Whether a type or variant of this style may have `count` fields:
    /// a newtype has exactly one, a unit has none, the others any number.
    pub open spec fn admits(self, count: nat) -> bool {
        match self {
            Style::Struct | Style::Tuple => true,
            Style::Newtype => count == 1,
            Style::Unit => count == 0,
        }
    }

    /// Decides [`Style::admits`].
    pub fn allows(self, count: usize) -> (ok: bool)
        ensures
            ok == self.admits(count as nat),
    {
        match self {
            Style::Struct | Style::Tuple => true,
            Style::Newtype => count == 1,
            Style::Unit => count == 0,
        }
    }

    /// Whether the slots of this style carry a name.
    pub open spec fn named(self) -> bool {
        self == Style::Struct
    }
}

/// The five kinds of shape that a descriptor can be opened for.
#[derive(Clone, Copy, Debug, PartialEq, Eq, Hash, Structural)]
pub enum Kind {
    Struct,
    Tuple,
    Newtype,
    Unit,
    Enum,
}

impl Kind {
    /// The field layout of this kind; an enum has variants, not fields.
    pub open spec fn style(self) -> Option<Style> {
        match self {
            Kind::Struct => Some(Style::Struct),
            Kind::Tuple => Some(Style::Tuple),
            Kind::Newtype => Some(Style::Newtype),
            Kind::Unit => Some(Style::Unit),
            Kind::Enum => None,
        }
    }

    /// Computes [`Kind::style`].
    pub fn to_style(self) -> (style: Option<Style>)
        ensures
            style == self.style(),
    {
        match self {
            Kind::Struct => Some(Style::Struct),
            Kind::Tuple => Some(Style::Tuple),
            Kind::Newtype => Some(Style::Newtype),
            Kind::Unit => Some(Style::Unit),
            Kind::Enum => None,
        }
    }

    /// Whether a descriptor of this kind may be opened for `count` slots
    /// (for an enum: variants).
    pub open spec fn admits(self, count: nat) -> bool {
        match self.style() {
            Some(style) => style.admits(count),
            None => true,
        }
    }
}

impl Style {
    /// The kind of a struct of this style.
    pub open spec fn kind(self) -> Kind {
        match self {
            Style::Struct => Kind::Struct,
            Style::Tuple => Kind::Tuple,
            Style::Newtype => Kind::Newtype,
            Style::Unit => Kind::Unit,
        }
    }

    /// Computes [`Style::kind`].
    pub fn to_kind(self) -> (kind: Kind)
        ensures
            kind == self.kind(),
            kind.style() == Some(self),
    {
        match self {
            Style::Struct => Kind::Struct,
            Style::Tuple => Kind::Tuple,
            Style::Newtype => Kind::Newtype,
            Style::Unit => Kind::Unit,
        }
    }
}

/// One field of a struct or of a variant. `R` is whatever refers to the
/// field's type.
#[derive(Clone, Debug, PartialEq, Eq)]
pub struct Field<R> {
    /// The name under which the field is serialized.
    pub name: String,
    /// The field's type.
    pub ty: R,
}

/// One variant of an enum.
#[derive(Clone, Debug, PartialEq, Eq)]
pub struct Variant<R> {
    /// The name under which the variant is serialized.
    pub name: String,
    pub style: Style,
    pub fields: Vec<Field<R>>,
}

/// The contents of a struct or an enum.
#[derive(Clone, Debug, PartialEq, Eq)]
pub enum Data<R> {
    Enum(Vec<Variant<R>>),
    Struct(Style, Vec<Field<R>>),
}

/// The shape of one data type.
#[derive(Clone, Debug, PartialEq, Eq)]
pub struct TypeShape<R> {
    /// The name under which the type appears in a schema.
    pub name: String,
    pub data: Data<R>,
}

/// A reference to a field's type that registration can resolve by itself:
/// either a type that the store already knows, or the shape of a type that
/// has yet to be registered.
#[derive(Debug, PartialEq, Eq)]
pub enum TypeRef {
    Known(TypeId),
    Nested(Box<TypeShape<TypeRef>>),
}

/// Why a shape was rejected: something of style `style` has `fields` fields,
/// which that style does not admit.
#[derive(Clone, Copy, Debug, PartialEq, Eq, Structural)]
pub struct ShapeError {
    pub style: Style,
    pub fields: usize,
}

/// The defect of the first of `variants`, in declared order, whose style does
/// not admit its number of fields.
pub open spec fn first_defect<R>(variants: Seq<Variant<R>>) -> Option<ShapeError>
    decreases variants.len(),
{
    if variants.len() == 0 {
        None
    } else {
        match first_defect(variants.drop_last()) {
            Some(e) => Some(e),
            None => {
                let last = variants.last();
                if last.style.admits(last.fields@.len()) {
                    None
                } else {
                    Some(ShapeError { style: last.style, fields: last.fields.len() })
                }
            },
        }
    }
}

impl<R> TypeShape<R> {
    /// What is wrong with the structure of this shape, if anything. Only the
    /// shape itself is judged, not the shapes that its fields refer to.
    pub open spec fn defect(self) -> Option<ShapeError> {
        match self.data {
            Data::Enum(variants) => first_defect(variants@),
            Data::Struct(style, fields) => if style.admits(fields@.len()) {
                None
            } else {
                Some(ShapeError { style, fields: fields.len() })
            },
        }
    }
}

} // verus!
