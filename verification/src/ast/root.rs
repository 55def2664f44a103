//! The root of the program tree.

use vstd::prelude::*;
use std::collections::VecDeque;
use crate::ast::statement::Statement;
use crate::ast::statement::StmtView;
use crate::ast::statement::copy_statements;
use crate::ast::statement::statements_view;

verus! {

/// The top-level statements of a program, in source order.
pub struct Root {
    pub statements: VecDeque<Statement>,
}

impl View for Root {
    type V = Seq<StmtView>;

    open spec fn view(&self) -> Seq<StmtView> {
        statements_view(self.statements@)
    }
}

impl Clone for Root {
    fn clone(&self) -> (r: Self)
        ensures
            r@ == self@,
    {
        Self { statements: copy_statements(&self.statements) }
    }
}

impl Root {
    pub fn new() -> (r: Self)
        ensures
            r@ == Seq::<StmtView>::empty(),
    {
        let r = Self { statements: VecDeque::new() };
        assert(r@ =~= Seq::<StmtView>::empty());
        r
    }

    pub fn add(&mut self, statement: Statement)
        ensures
            final(self)@ == old(self)@.push(statement@),
    {
        self.statements.push_back(statement);
        assert(self@ =~= old(self)@.push(statement@));
    }
}

} // verus!
