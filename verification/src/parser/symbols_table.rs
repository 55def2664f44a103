//! The symbol table: a registry of function signatures and a stack of scopes
//! that bind names to ids and types.

use vstd::prelude::*;
use vstd::string::StringExecFns;
use std::collections::VecDeque;
use crate::data::vtype::FunctionSignature;
use crate::data::vtype::Parameter;
use crate::data::vtype::SignatureView;
use crate::data::vtype::VType;
use crate::data::vtype::parameters_view;

verus! {

/// One binding of a scope: a name, the id minted for it and its type.
pub struct BindingView {
    pub name: Seq<char>,
    pub id: u16,
    pub vtype: VType,
}

/// What a scope is: its bindings, oldest first. A later binding of a name or
/// of an id hides the earlier ones.
pub struct ScopeView {
    pub bindings: Seq<BindingView>,
}

/// The id that the latest binding of `name` in `bindings` gives it.
pub open spec fn binding_id(bindings: Seq<BindingView>, name: Seq<char>) -> Option<u16>
    decreases bindings.len(),
{
    if bindings.len() == 0 {
        None
    } else if bindings.last().name == name {
        Some(bindings.last().id)
    } else {
        binding_id(bindings.drop_last(), name)
    }
}

/// The type that the latest binding of `id` in `bindings` gives it.
pub open spec fn binding_type(bindings: Seq<BindingView>, id: u16) -> Option<VType>
    decreases bindings.len(),
{
    if bindings.len() == 0 {
        None
    } else if bindings.last().id == id {
        Some(bindings.last().vtype)
    } else {
        binding_type(bindings.drop_last(), id)
    }
}

impl ScopeView {
    pub open spec fn empty() -> ScopeView {
        ScopeView { bindings: Seq::empty() }
    }

    pub open spec fn define(self, name: Seq<char>, id: u16, vtype: VType) -> ScopeView {
        ScopeView { bindings: self.bindings.push(BindingView { name, id, vtype }) }
    }

    pub open spec fn lookup_id(self, name: Seq<char>) -> Option<u16> {
        binding_id(self.bindings, name)
    }

    pub open spec fn lookup_type(self, id: u16) -> Option<VType> {
        binding_type(self.bindings, id)
    }
}

struct Binding {
    name: String,
    id: u16,
    vtype: VType,
}

impl View for Binding {
    type V = BindingView;

    closed spec fn view(&self) -> BindingView {
        BindingView { name: self.name@, id: self.id, vtype: self.vtype }
    }
}

/// A scope: the names bound in it, with their ids and types.
pub struct Scope {
    bindings: Vec<Binding>,
}

impl View for Scope {
    type V = ScopeView;

    closed spec fn view(&self) -> ScopeView {
        ScopeView { bindings: Seq::new(self.bindings@.len(), |i: int| self.bindings@[i]@) }
    }
}

impl Clone for Scope {
    fn clone(&self) -> (r: Self)
        ensures
            r@ == self@,
    {
        let mut bindings: Vec<Binding> = Vec::new();
        let mut i: usize = 0;
        while i < self.bindings.len()
            invariant
                i <= self.bindings@.len(),
                bindings@.len() == i,
                forall|j: int| 0 <= j < i ==> bindings@[j]@ == self.bindings@[j]@,
            decreases self.bindings@.len() - i,
        {
            let b = &self.bindings[i];
            bindings.push(Binding { name: b.name.clone(), id: b.id, vtype: b.vtype });
            i += 1;
        }
        let r = Scope { bindings };
        assert(r@.bindings =~= self@.bindings);
        r
    }
}

impl Scope {
    /// A scope that starts with the bindings of `parent`, or with none.
    pub fn new(parent: Option<&Scope>) -> (r: Self)
        ensures
            r@ == match parent {
                Some(p) => p@,
                None => ScopeView::empty(),
            },
    {
        match parent {
            Some(p) => p.clone(),
            None => {
                let r = Scope { bindings: Vec::new() };
                assert(r@.bindings =~= ScopeView::empty().bindings);
                r
            },
        }
    }

    pub fn define(&mut self, name: &str, id: u16, vtype: VType)
        ensures
            final(self)@ == old(self)@.define(name@, id, vtype),
    {
        self.bindings.push(Binding { name: String::from_str(name), id, vtype });
        assert(self@.bindings =~= old(self)@.define(name@, id, vtype).bindings);
    }

    pub fn lookup_id(&self, name: &str) -> (r: Option<u16>)
        ensures
            r == self@.lookup_id(name@),
    {
        let key = String::from_str(name);
        let mut i: usize = self.bindings.len();
        assert(self@.bindings.take(self.bindings@.len() as int) =~= self@.bindings);
        while i > 0
            invariant
                i <= self.bindings@.len(),
                key@ == name@,
                self@.lookup_id(name@) == binding_id(self@.bindings.take(i as int), name@),
            decreases i,
        {
            let b = &self.bindings[i - 1];
            assert(self@.bindings.take(i as int).last() == b@);
            assert(self@.bindings.take(i as int).drop_last() =~= self@.bindings.take(i - 1));
            if b.name == key {
                return Some(b.id);
            }
            i -= 1;
        }
        None
    }

    pub fn lookup_type(&self, id: u16) -> (r: Option<&VType>)
        ensures
            match self@.lookup_type(id) {
                Some(t) => r == Some(&t),
                None => r is None,
            },
    {
        let mut i: usize = self.bindings.len();
        assert(self@.bindings.take(self.bindings@.len() as int) =~= self@.bindings);
        while i > 0
            invariant
                i <= self.bindings@.len(),
                self@.lookup_type(id) == binding_type(self@.bindings.take(i as int), id),
            decreases i,
        {
            let b = &self.bindings[i - 1];
            assert(self@.bindings.take(i as int).last() == b@);
            assert(self@.bindings.take(i as int).drop_last() =~= self@.bindings.take(i - 1));
            if b.id == id {
                return Some(&b.vtype);
            }
            i -= 1;
        }
        None
    }
}

/// The signature registered under `name`, if there is one.
pub open spec fn find_function(functions: Seq<SignatureView>, name: Seq<char>) -> Option<
    SignatureView,
>
    decreases functions.len(),
{
    if functions.len() == 0 {
        None
    } else if functions.last().name == name {
        Some(functions.last())
    } else {
        find_function(functions.drop_last(), name)
    }
}

/// What a symbol table is: the registered signatures in the order of their
/// registration, the scopes with the innermost first, and the next id to mint.
pub struct TableView {
    pub functions: Seq<SignatureView>,
    pub scopes: Seq<ScopeView>,
    pub next_id: u16,
}

impl TableView {
    pub open spec fn empty() -> TableView {
        TableView { functions: Seq::empty(), scopes: Seq::empty(), next_id: 0 }
    }

    /// The number of scopes.
    pub open spec fn depth(self) -> nat {
        self.scopes.len()
    }

    pub open spec fn get_function(self, name: Seq<char>) -> Option<SignatureView> {
        find_function(self.functions, name)
    }

    pub open spec fn define_function(self, signature: SignatureView) -> TableView {
        TableView { functions: self.functions.push(signature), ..self }
    }

    /// The table without the signature that was registered last.
    pub open spec fn retract_function(self) -> TableView {
        if self.functions.len() == 0 {
            self
        } else {
            TableView { functions: self.functions.drop_last(), ..self }
        }
    }

    /// A new innermost scope that starts with the bindings of the one before.
    pub open spec fn push_scope(self) -> TableView {
        let top = if self.scopes.len() == 0 {
            ScopeView::empty()
        } else {
            self.scopes[0]
        };
        TableView { scopes: seq![top] + self.scopes, ..self }
    }

    pub open spec fn pop_scope(self) -> TableView {
        if self.scopes.len() == 0 {
            self
        } else {
            TableView { scopes: self.scopes.skip(1), ..self }
        }
    }

    /// Whether an id is left to mint.
    pub open spec fn can_define(self) -> bool {
        self.next_id < u16::MAX
    }

    /// Binds `name` in the innermost scope to the next id, which is used up
    /// even where there is no scope.
    pub open spec fn define(self, name: Seq<char>, vtype: VType) -> TableView {
        TableView {
            scopes: if self.scopes.len() == 0 {
                self.scopes
            } else {
                self.scopes.update(0, self.scopes[0].define(name, self.next_id, vtype))
            },
            next_id: (self.next_id + 1) as u16,
            ..self
        }
    }

    pub open spec fn get_id(self, name: Seq<char>) -> Option<u16> {
        if self.scopes.len() == 0 {
            None
        } else {
            self.scopes[0].lookup_id(name)
        }
    }

    pub open spec fn lookup(self, name: Seq<char>) -> Option<VType> {
        match self.get_id(name) {
            Some(id) => self.scopes[0].lookup_type(id),
            None => None,
        }
    }
}

/// The symbol table: the registry of function signatures, the stack of
/// scopes, and the counter from which ids are minted.
pub struct SymbolsTable {
    functions: Vec<FunctionSignature>,
    scopes: VecDeque<Scope>,
    next_id: u16,
}

impl View for SymbolsTable {
    type V = TableView;

    closed spec fn view(&self) -> TableView {
        TableView {
            functions: Seq::new(self.functions@.len(), |i: int| self.functions@[i]@),
            scopes: Seq::new(self.scopes@.len(), |i: int| self.scopes@[i]@),
            next_id: self.next_id,
        }
    }
}

impl Clone for SymbolsTable {
    fn clone(&self) -> (r: Self)
        ensures
            r@ == self@,
    {
        let mut functions: Vec<FunctionSignature> = Vec::new();
        let mut i: usize = 0;
        while i < self.functions.len()
            invariant
                i <= self.functions@.len(),
                functions@.len() == i,
                forall|j: int| 0 <= j < i ==> functions@[j]@ == self.functions@[j]@,
            decreases self.functions@.len() - i,
        {
            functions.push(self.functions[i].clone());
            i += 1;
        }
        let mut scopes: VecDeque<Scope> = VecDeque::new();
        let mut k: usize = 0;
        while k < self.scopes.len()
            invariant
                k <= self.scopes@.len(),
                scopes@.len() == k,
                forall|j: int| 0 <= j < k ==> scopes@[j]@ == self.scopes@[j]@,
            decreases self.scopes@.len() - k,
        {
            scopes.push_back(self.scopes[k].clone());
            k += 1;
        }
        let r = SymbolsTable { functions, scopes, next_id: self.next_id };
        assert(r@.functions =~= self@.functions);
        assert(r@.scopes =~= self@.scopes);
        r
    }
}

impl SymbolsTable {
    pub fn new() -> (r: Self)
        ensures
            r@ == TableView::empty(),
    {
        let r = Self { functions: Vec::new(), scopes: VecDeque::new(), next_id: 0 };
        assert(r@.functions =~= TableView::empty().functions);
        assert(r@.scopes =~= TableView::empty().scopes);
        r
    }

    /// Registers a signature under a name that has none yet.
    pub fn define_function(&mut self, name: &str, return_type: VType, parameters: VecDeque<Parameter>)
        requires
            old(self)@.get_function(name@) is None,
        ensures
            final(self)@ == old(self)@.define_function(
                SignatureView { name: name@, return_type, parameters: parameters_view(parameters@) },
            ),
    {
        let info = FunctionSignature::new(String::from_str(name), return_type, parameters);
        self.functions.push(info);
        assert(self@.functions =~= old(self)@.functions.push(info@));
    }

    /// Takes back the signature that was registered last.
    pub fn retract_function(&mut self)
        ensures
            final(self)@ == old(self)@.retract_function(),
    {
        let _ = self.functions.pop();
        assert(self@.functions =~= old(self)@.retract_function().functions);
    }

    pub fn get_function(&self, name: &str) -> (r: Option<&FunctionSignature>)
        ensures
            match self@.get_function(name@) {
                Some(s) => r is Some && r->0@ == s,
                None => r is None,
            },
    {
        let key = String::from_str(name);
        let mut i: usize = self.functions.len();
        assert(self@.functions.take(self.functions@.len() as int) =~= self@.functions);
        while i > 0
            invariant
                i <= self.functions@.len(),
                key@ == name@,
                self@.get_function(name@) == find_function(self@.functions.take(i as int), name@),
            decreases i,
        {
            let f = &self.functions[i - 1];
            assert(self@.functions.take(i as int).last() == f@);
            assert(self@.functions.take(i as int).drop_last() =~= self@.functions.take(i - 1));
            if f.is_named(&key) {
                return Some(f);
            }
            i -= 1;
        }
        None
    }

    pub fn push_scope(&mut self)
        ensures
            final(self)@ == old(self)@.push_scope(),
    {
        let new_scope = if self.scopes.len() == 0 {
            Scope::new(None)
        } else {
            Scope::new(Some(&self.scopes[0]))
        };
        self.scopes.push_front(new_scope);
        assert(self@.scopes =~= old(self)@.push_scope().scopes);
    }

    pub fn pop_scope(&mut self)
        ensures
            final(self)@ == old(self)@.pop_scope(),
    {
        let _ = self.scopes.pop_front();
        assert(self@.scopes =~= old(self)@.pop_scope().scopes);
    }

    /// The id that the next binding gets.
    pub fn next_id(&self) -> (r: u16)
        ensures
            r == self@.next_id,
    {
        self.next_id
    }

    /// Whether an id is left to mint.
    pub fn can_define(&self) -> (r: bool)
        ensures
            r == self@.can_define(),
    {
        self.next_id < u16::MAX
    }

    pub fn define(&mut self, name: &str, vtype: VType)
        requires
            old(self)@.can_define(),
        ensures
            final(self)@ == old(self)@.define(name@, vtype),
    {
        let id: u16 = self.next_id;
        self.next_id += 1;
        match self.scopes.pop_front() {
            Some(scope) => {
                let mut scope = scope;
                scope.define(name, id, vtype);
                self.scopes.push_front(scope);
            },
            None => {},
        }
        assert(self@.scopes =~= old(self)@.define(name@, vtype).scopes);
    }

    /// The number of scopes.
    pub fn scope(&self) -> (r: usize)
        ensures
            r == self@.depth(),
    {
        self.scopes.len()
    }

    pub fn lookup(&self, name: &str) -> (r: Option<&VType>)
        ensures
            match self@.lookup(name@) {
                Some(t) => r == Some(&t),
                None => r is None,
            },
    {
        if self.scopes.len() == 0 {
            return None;
        }
        let scope = &self.scopes[0];
        match scope.lookup_id(name) {
            Some(id) => scope.lookup_type(id),
            None => None,
        }
    }

    pub fn get_id(&self, name: &str) -> (r: Option<u16>)
        ensures
            r == self@.get_id(name@),
    {
        if self.scopes.len() == 0 {
            return None;
        }
        self.scopes[0].lookup_id(name)
    }
}

} // verus!
