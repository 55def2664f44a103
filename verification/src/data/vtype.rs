//! Value types, parameters and function signatures.

use vstd::prelude::*;
use std::collections::VecDeque;

verus! {

/// The types of values. `Void` is the type of a function that returns
/// nothing, and of no variable.
#[derive(Clone, Copy, Debug, PartialEq, Eq, Structural)]
pub enum VType {
    Void,
    Integer,
    Boolean,
}

/// What a parameter is: the id minted for it and its type.
pub struct ParameterView {
    pub id: u16,
    pub vtype: VType,
}

/// A parameter of a function: the id minted for it and its type.
#[derive(Debug, Clone, Copy)]
pub struct Parameter {
    id: u16,
    vtype: VType,
}

impl View for Parameter {
    type V = ParameterView;

    closed spec fn view(&self) -> ParameterView {
        ParameterView { id: self.id, vtype: self.vtype }
    }
}

impl Parameter {
    pub fn new(id: u16, vtype: VType) -> (r: Self)
        ensures
            r@ == (ParameterView { id, vtype }),
    {
        Self { id, vtype }
    }

    pub fn id(&self) -> (r: u16)
        ensures
            r == self@.id,
    {
        self.id
    }

    pub fn vtype(&self) -> (r: VType)
        ensures
            r == self@.vtype,
    {
        self.vtype
    }
}

/// The views of a sequence of parameters, in order.
pub open spec fn parameters_view(ps: Seq<Parameter>) -> Seq<ParameterView> {
    Seq::new(ps.len(), |i: int| ps[i]@)
}

/// What a signature is: a name, a return type and the parameters in order.
pub struct SignatureView {
    pub name: Seq<char>,
    pub return_type: VType,
    pub parameters: Seq<ParameterView>,
}

/// The signature of a function: its name, its return type and its
/// parameters in order.
#[derive(Debug)]
pub struct FunctionSignature {
    name: String,
    return_type: VType,
    parameters: VecDeque<Parameter>,
}

impl View for FunctionSignature {
    type V = SignatureView;

    closed spec fn view(&self) -> SignatureView {
        SignatureView {
            name: self.name@,
            return_type: self.return_type,
            parameters: parameters_view(self.parameters@),
        }
    }
}

/// A copy of `ps`.
pub fn copy_parameters(ps: &VecDeque<Parameter>) -> (r: VecDeque<Parameter>)
    ensures
        parameters_view(r@) == parameters_view(ps@),
        r@.len() == ps@.len(),
{
    let mut r: VecDeque<Parameter> = VecDeque::new();
    let mut i: usize = 0;
    while i < ps.len()
        invariant
            i <= ps@.len(),
            r@.len() == i,
            forall|j: int| 0 <= j < i ==> r@[j]@ == ps@[j]@,
        decreases ps@.len() - i,
    {
        let p = ps[i];
        r.push_back(Parameter::new(p.id(), p.vtype()));
        i += 1;
    }
    assert(parameters_view(r@) =~= parameters_view(ps@));
    r
}

impl Clone for FunctionSignature {
    fn clone(&self) -> (r: Self)
        ensures
            r@ == self@,
    {
        Self {
            name: self.name.clone(),
            return_type: self.return_type,
            parameters: copy_parameters(&self.parameters),
        }
    }
}

impl FunctionSignature {
    pub fn new(name: String, return_type: VType, parameters: VecDeque<Parameter>) -> (r: Self)
        ensures
            r@ == (SignatureView {
                name: name@,
                return_type,
                parameters: parameters_view(parameters@),
            }),
    {
        Self { name, return_type, parameters }
    }

    pub fn name(&self) -> (r: String)
        ensures
            r@ == self@.name,
    {
        self.name.clone()
    }

    pub fn return_type(&self) -> (r: VType)
        ensures
            r == self@.return_type,
    {
        self.return_type
    }

    pub fn parameters(&self) -> (r: VecDeque<Parameter>)
        ensures
            parameters_view(r@) == self@.parameters,
    {
        copy_parameters(&self.parameters)
    }

    /// Whether the signature is called `name`.
    pub fn is_named(&self, name: &String) -> (r: bool)
        ensures
            r == (self@.name == name@),
    {
        self.name == *name
    }

    /// The number of parameters.
    pub fn arity(&self) -> (r: usize)
        ensures
            r == self@.parameters.len(),
    {
        self.parameters.len()
    }
}

} // verus!
