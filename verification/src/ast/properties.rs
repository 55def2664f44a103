//! Properties of program trees, stated on their views.

use vstd::prelude::*;
use crate::ast::expression::ExprView;
use crate::ast::statement::StmtView;
use crate::data::vtype::ParameterView;
use crate::data::vtype::SignatureView;
use crate::data::vtype::VType;

verus! {

/// Whether every declaration in `s` gives its variable a type other than
/// `Void`.
pub open spec fn declares_typed(s: StmtView) -> bool
    decreases s,
{
    match s {
        StmtView::Declare { vtype, .. } => vtype != VType::Void,
        StmtView::Compound { statements, .. } => forall|i: int|
            0 <= i < statements.len() ==> declares_typed(#[trigger] statements[i]),
        StmtView::FunctionDefine { body, .. } => forall|i: int|
            0 <= i < body.len() ==> declares_typed(#[trigger] body[i]),
        _ => true,
    }
}

/// Whether every statement of `ss` satisfies [`declares_typed`].
pub open spec fn all_declares_typed(ss: Seq<StmtView>) -> bool {
    forall|i: int| 0 <= i < ss.len() ==> declares_typed(#[trigger] ss[i])
}

/// Whether `signatures` holds a signature called `name` with `arity`
/// parameters.
pub open spec fn registered(signatures: Seq<SignatureView>, name: Seq<char>, arity: nat) -> bool {
    exists|i: int|
        0 <= i < signatures.len() && (#[trigger] signatures[i]).name == name
            && signatures[i].parameters.len() == arity
}

/// Whether every call in `e` names a signature of `signatures` and passes as
/// many arguments as that has parameters.
pub open spec fn calls_resolved(e: ExprView, signatures: Seq<SignatureView>) -> bool
    decreases e,
{
    match e {
        ExprView::Literal { .. } => true,
        ExprView::Variable { .. } => true,
        ExprView::FunctionCall { name, args, .. } => {
            &&& registered(signatures, name, args.len())
            &&& forall|i: int| 0 <= i < args.len() ==> calls_resolved(#[trigger] args[i], signatures)
        },
        ExprView::Arithmetic { left, right, .. } => calls_resolved(*left, signatures)
            && calls_resolved(*right, signatures),
        ExprView::Comparison { left, right, .. } => calls_resolved(*left, signatures)
            && calls_resolved(*right, signatures),
        ExprView::Boolean { left, right, .. } => calls_resolved(*left, signatures) && calls_resolved(
            *right,
            signatures,
        ),
    }
}

/// Whether every variable in `e` has an id of `ids`.
pub open spec fn ids_bound(e: ExprView, ids: Set<u16>) -> bool
    decreases e,
{
    match e {
        ExprView::Literal { .. } => true,
        ExprView::Variable { id, .. } => ids.contains(id),
        ExprView::FunctionCall { args, .. } => forall|i: int|
            0 <= i < args.len() ==> ids_bound(#[trigger] args[i], ids),
        ExprView::Arithmetic { left, right, .. } => ids_bound(*left, ids) && ids_bound(*right, ids),
        ExprView::Comparison { left, right, .. } => ids_bound(*left, ids) && ids_bound(*right, ids),
        ExprView::Boolean { left, right, .. } => ids_bound(*left, ids) && ids_bound(*right, ids),
    }
}

/// The expression of a statement that holds one directly.
pub open spec fn own_expression(s: StmtView) -> Option<ExprView> {
    match s {
        StmtView::FunctionReturn { expression, .. } => expression,
        StmtView::Expression { expression, .. } => Some(expression),
        StmtView::Declare { expression, .. } => Some(expression),
        StmtView::Assign { expression, .. } => Some(expression),
        StmtView::Print { expression, .. } => Some(expression),
        _ => None,
    }
}

/// Whether every call in `s` names a signature of `signatures` and passes as
/// many arguments as that has parameters.
pub open spec fn statement_calls_resolved(s: StmtView, signatures: Seq<SignatureView>) -> bool
    decreases s,
{
    match s {
        StmtView::FunctionDefine { body, .. } => forall|i: int|
            0 <= i < body.len() ==> statement_calls_resolved(#[trigger] body[i], signatures),
        StmtView::Compound { statements, .. } => forall|i: int|
            0 <= i < statements.len() ==> statement_calls_resolved(
                #[trigger] statements[i],
                signatures,
            ),
        _ => own_expression(s) matches Some(e) ==> calls_resolved(e, signatures),
    }
}

/// Whether every statement of `ss` satisfies [`statement_calls_resolved`].
pub open spec fn all_calls_resolved(ss: Seq<StmtView>, signatures: Seq<SignatureView>) -> bool {
    forall|i: int| 0 <= i < ss.len() ==> statement_calls_resolved(#[trigger] ss[i], signatures)
}

/// Whether every call in a statement of `ss` names the signature of a
/// function statement that stands before that statement in `ss`, or is that
/// statement, and passes as many arguments as that signature has parameters.
pub open spec fn calls_name_earlier_functions(ss: Seq<StmtView>) -> bool {
    forall|k: int|
        0 <= k < ss.len() ==> statement_calls_resolved(#[trigger] ss[k], signatures_of(ss.take(k + 1)))
}

/// The signature that a function statement carries; none for another
/// statement.
pub open spec fn own_signature(s: Option<StmtView>) -> Seq<SignatureView> {
    match s {
        Some(StmtView::FunctionDefine { signature, .. }) => seq![signature],
        Some(StmtView::FunctionDeclare { signature, .. }) => seq![signature],
        _ => Seq::empty(),
    }
}

/// The signatures of the function statements of `ss`, in order.
pub open spec fn signatures_of(ss: Seq<StmtView>) -> Seq<SignatureView>
    decreases ss.len(),
{
    if ss.len() == 0 {
        Seq::empty()
    } else {
        signatures_of(ss.drop_last()) + own_signature(Some(ss.last()))
    }
}

/// Whether no two signatures of `signatures` have the same name.
pub open spec fn distinct_names(signatures: Seq<SignatureView>) -> bool {
    forall|i: int, j: int|
        0 <= i < j < signatures.len() ==> (#[trigger] signatures[i]).name
            != (#[trigger] signatures[j]).name
}

/// Whether `longer` begins with `shorter`.
pub open spec fn extends(longer: Seq<SignatureView>, shorter: Seq<SignatureView>) -> bool {
    &&& shorter.len() <= longer.len()
    &&& forall|i: int| 0 <= i < shorter.len() ==> longer[i] == #[trigger] shorter[i]
}

/// Calls that are resolved stay so when signatures are added.
pub proof fn lemma_calls_stay_resolved(e: ExprView, shorter: Seq<SignatureView>, longer: Seq<SignatureView>)
    requires
        calls_resolved(e, shorter),
        extends(longer, shorter),
    ensures
        calls_resolved(e, longer),
    decreases e,
{
    match e {
        ExprView::FunctionCall { name, args, .. } => {
            let i = choose|i: int|
                0 <= i < shorter.len() && (#[trigger] shorter[i]).name == name
                    && shorter[i].parameters.len() == args.len();
            assert(longer[i] == shorter[i]);
            assert forall|k: int| 0 <= k < args.len() implies calls_resolved(
                #[trigger] args[k],
                longer,
            ) by {
                lemma_calls_stay_resolved(args[k], shorter, longer);
            }
        },
        ExprView::Arithmetic { left, right, .. } => {
            lemma_calls_stay_resolved(*left, shorter, longer);
            lemma_calls_stay_resolved(*right, shorter, longer);
        },
        ExprView::Comparison { left, right, .. } => {
            lemma_calls_stay_resolved(*left, shorter, longer);
            lemma_calls_stay_resolved(*right, shorter, longer);
        },
        ExprView::Boolean { left, right, .. } => {
            lemma_calls_stay_resolved(*left, shorter, longer);
            lemma_calls_stay_resolved(*right, shorter, longer);
        },
        _ => {},
    }
}

/// The calls of a statement that are resolved stay so when signatures are
/// added.
pub proof fn lemma_statement_stays_resolved(
    s: StmtView,
    shorter: Seq<SignatureView>,
    longer: Seq<SignatureView>,
)
    requires
        statement_calls_resolved(s, shorter),
        extends(longer, shorter),
    ensures
        statement_calls_resolved(s, longer),
    decreases s,
{
    match s {
        StmtView::FunctionDefine { body, .. } => {
            assert forall|i: int| 0 <= i < body.len() implies statement_calls_resolved(
                #[trigger] body[i],
                longer,
            ) by {
                lemma_statement_stays_resolved(body[i], shorter, longer);
            }
        },
        StmtView::Compound { statements, .. } => {
            assert forall|i: int| 0 <= i < statements.len() implies statement_calls_resolved(
                #[trigger] statements[i],
                longer,
            ) by {
                lemma_statement_stays_resolved(statements[i], shorter, longer);
            }
        },
        _ => {
            if own_expression(s) is Some {
                lemma_calls_stay_resolved(own_expression(s)->0, shorter, longer);
            }
        },
    }
}

/// The ids of `parameters`.
pub open spec fn parameter_ids(parameters: Seq<ParameterView>) -> Set<u16> {
    Set::new(
        |id: u16| exists|i: int| 0 <= i < parameters.len() && (#[trigger] parameters[i]).id == id,
    )
}

/// The ids declared once `s` was read, where `ids` were declared before it:
/// a declaration adds its id, and so does each declaration inside a compound
/// statement.
pub open spec fn declared_after(s: StmtView, ids: Set<u16>) -> Set<u16>
    decreases s,
{
    match s {
        StmtView::Declare { id, .. } => ids.insert(id),
        StmtView::Compound { statements, .. } => declared_after_all(statements, ids),
        _ => ids,
    }
}

/// The ids declared once the statements `ss` were read in order, where `ids`
/// were declared before them.
pub open spec fn declared_after_all(ss: Seq<StmtView>, ids: Set<u16>) -> Set<u16>
    decreases ss,
{
    if ss.len() == 0 {
        ids
    } else {
        declared_after(ss.last(), declared_after_all(ss.drop_last(), ids))
    }
}

/// Whether every variable that `s` reads or assigns was declared before, where
/// `ids` were declared before `s`: by an earlier declaration, or as a
/// parameter of the function whose body holds it.
pub open spec fn scoped(s: StmtView, ids: Set<u16>) -> bool
    decreases s,
{
    match s {
        StmtView::FunctionDefine { signature, body, .. } => scoped_all(
            body,
            ids.union(parameter_ids(signature.parameters)),
        ),
        StmtView::Compound { statements, .. } => scoped_all(statements, ids),
        StmtView::Assign { id, expression, .. } => ids.contains(id) && ids_bound(expression, ids),
        _ => own_expression(s) matches Some(e) ==> ids_bound(e, ids),
    }
}

/// Whether each statement of `ss` satisfies [`scoped`] with the ids declared
/// before it: `ids`, and what the statements before it declare.
pub open spec fn scoped_all(ss: Seq<StmtView>, ids: Set<u16>) -> bool
    decreases ss,
{
    if ss.len() == 0 {
        true
    } else {
        scoped_all(ss.drop_last(), ids) && scoped(
            ss.last(),
            declared_after_all(ss.drop_last(), ids),
        )
    }
}

/// Reading a statement takes no id back.
pub proof fn lemma_declared_grows(s: StmtView, ids: Set<u16>)
    ensures
        ids.subset_of(declared_after(s, ids)),
    decreases s,
{
    match s {
        StmtView::Compound { statements, .. } => {
            lemma_declared_grows_all(statements, ids);
        },
        _ => {},
    }
}

/// Reading statements takes no id back.
pub proof fn lemma_declared_grows_all(ss: Seq<StmtView>, ids: Set<u16>)
    ensures
        ids.subset_of(declared_after_all(ss, ids)),
    decreases ss,
{
    if ss.len() > 0 {
        lemma_declared_grows_all(ss.drop_last(), ids);
        lemma_declared_grows(ss.last(), declared_after_all(ss.drop_last(), ids));
    }
}

/// The ids of `parameters`, in order.
pub open spec fn parameter_id_list(parameters: Seq<ParameterView>) -> Seq<u16> {
    Seq::new(parameters.len(), |i: int| parameters[i].id)
}

/// The ids that the parameters and the declarations of `s` carry, in the
/// order in which they stand in the tree.
pub open spec fn minted_ids(s: StmtView) -> Seq<u16>
    decreases s,
{
    match s {
        StmtView::FunctionDefine { signature, body, .. } => parameter_id_list(signature.parameters)
            + minted_ids_all(body),
        StmtView::FunctionDeclare { signature, .. } => parameter_id_list(signature.parameters),
        StmtView::Declare { id, .. } => seq![id],
        StmtView::Compound { statements, .. } => minted_ids_all(statements),
        _ => Seq::empty(),
    }
}

/// The ids that the parameters and the declarations of the statements `ss`
/// carry, in the order in which they stand in the tree.
pub open spec fn minted_ids_all(ss: Seq<StmtView>) -> Seq<u16>
    decreases ss,
{
    if ss.len() == 0 {
        Seq::empty()
    } else {
        minted_ids_all(ss.drop_last()) + minted_ids(ss.last())
    }
}

/// Whether each id of `ids` is less than the next.
pub open spec fn increasing(ids: Seq<u16>) -> bool {
    forall|i: int, j: int| 0 <= i < j < ids.len() ==> ids[i] < ids[j]
}

/// Whether each id of `ids` is at least `low` and less than `high`.
pub open spec fn ids_within(ids: Seq<u16>, low: int, high: int) -> bool {
    forall|i: int| 0 <= i < ids.len() ==> low <= #[trigger] ids[i] < high
}

/// Increasing ids followed by greater increasing ids are increasing ids.
pub proof fn lemma_increasing_joined(a: Seq<u16>, b: Seq<u16>, low: int, middle: int, high: int)
    requires
        increasing(a),
        increasing(b),
        ids_within(a, low, middle),
        ids_within(b, middle, high),
        low <= middle <= high,
    ensures
        increasing(a + b),
        ids_within(a + b, low, high),
{
    let all = a + b;
    assert forall|i: int| 0 <= i < all.len() implies low <= #[trigger] all[i] < high by {
        if i < a.len() {
            assert(all[i] == a[i]);
        } else {
            assert(all[i] == b[i - a.len()]);
        }
    }
    assert forall|i: int, j: int| 0 <= i < j < all.len() implies all[i] < all[j] by {
        if j < a.len() {
            assert(all[i] == a[i] && all[j] == a[j]);
        } else if i < a.len() {
            assert(all[i] == a[i] && all[j] == b[j - a.len()]);
        } else {
            assert(all[i] == b[i - a.len()] && all[j] == b[j - a.len()]);
        }
    }
}

} // verus!
