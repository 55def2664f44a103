//! Literal values.

use vstd::prelude::*;
use crate::data::vtype::VType;

verus! {

/// What a literal is.
pub enum LiteralView {
    Integer(i32),
    Boolean(bool),
}

impl LiteralView {
    /// The type of the literal's value.
    pub open spec fn vtype(self) -> VType {
        match self {
            LiteralView::Integer(_) => VType::Integer,
            LiteralView::Boolean(_) => VType::Boolean,
        }
    }
}

/// What every kind of literal offers.
pub trait LiteralTrait: Sized + View<V = LiteralView> {
    /// The type of the literals of this kind.
    spec fn kind() -> VType;

    fn virtual_type(&self) -> (r: VType)
        ensures
            r == self@.vtype(),
    ;

    /// The literal as one of this kind, if it is one.
    fn of_literal(literal: &Literal) -> (r: Option<&Self>)
        ensures
            r is Some <==> literal@.vtype() == Self::kind(),
            r is Some ==> r->0@ == literal@,
    ;
}

/// An integer literal.
#[derive(Clone, Copy)]
pub struct IntegerLiteral {
    pub value: i32,
}

impl View for IntegerLiteral {
    type V = LiteralView;

    open spec fn view(&self) -> LiteralView {
        LiteralView::Integer(self.value)
    }
}

impl LiteralTrait for IntegerLiteral {
    open spec fn kind() -> VType {
        VType::Integer
    }

    fn virtual_type(&self) -> (r: VType) {
        VType::Integer
    }

    fn of_literal(literal: &Literal) -> (r: Option<&Self>) {
        match &literal.literal {
            LiteralBox::Integer(l) => Some(l),
            _ => None,
        }
    }
}

impl IntegerLiteral {
    pub fn new(value: i32) -> (r: Self)
        ensures
            r.value == value,
    {
        Self { value }
    }
}

/// A boolean literal.
#[derive(Clone, Copy)]
pub struct BooleanLiteral {
    pub value: bool,
}

impl View for BooleanLiteral {
    type V = LiteralView;

    open spec fn view(&self) -> LiteralView {
        LiteralView::Boolean(self.value)
    }
}

impl LiteralTrait for BooleanLiteral {
    open spec fn kind() -> VType {
        VType::Boolean
    }

    fn virtual_type(&self) -> (r: VType) {
        VType::Boolean
    }

    fn of_literal(literal: &Literal) -> (r: Option<&Self>) {
        match &literal.literal {
            LiteralBox::Boolean(l) => Some(l),
            _ => None,
        }
    }
}

impl BooleanLiteral {
    pub fn new(value: bool) -> (r: Self)
        ensures
            r.value == value,
    {
        Self { value }
    }
}

/// A literal of one of the two kinds.
#[derive(Clone, Copy)]
pub enum LiteralBox {
    Integer(IntegerLiteral),
    Boolean(BooleanLiteral),
}

impl View for LiteralBox {
    type V = LiteralView;

    open spec fn view(&self) -> LiteralView {
        match self {
            LiteralBox::Integer(l) => l@,
            LiteralBox::Boolean(l) => l@,
        }
    }
}

/// A literal: an integer or a boolean.
#[derive(Clone, Copy)]
pub struct Literal {
    literal: LiteralBox,
}

impl View for Literal {
    type V = LiteralView;

    closed spec fn view(&self) -> LiteralView {
        self.literal@
    }
}

impl Literal {
    pub fn virtual_type(&self) -> (r: VType)
        ensures
            r == self@.vtype(),
    {
        match &self.literal {
            LiteralBox::Integer(l) => l.virtual_type(),
            LiteralBox::Boolean(l) => l.virtual_type(),
        }
    }

    pub fn new(literal: LiteralBox) -> (r: Literal)
        ensures
            r@ == literal@,
    {
        Literal { literal }
    }

    pub fn new_integer(value: i32) -> (r: Literal)
        ensures
            r@ == LiteralView::Integer(value),
    {
        Literal::new(LiteralBox::Integer(IntegerLiteral::new(value)))
    }

    pub fn new_boolean(value: bool) -> (r: Literal)
        ensures
            r@ == LiteralView::Boolean(value),
    {
        Literal::new(LiteralBox::Boolean(BooleanLiteral::new(value)))
    }

    /// The literal as one of the kind `T`, if it is one.
    pub fn as_literal<T: LiteralTrait>(&self) -> (r: Option<&T>)
        ensures
            r is Some <==> self@.vtype() == T::kind(),
            r is Some ==> r->0@ == self@,
    {
        T::of_literal(self)
    }
}

} // verus!
