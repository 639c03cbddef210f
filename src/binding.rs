use vstd::prelude::*;

use itertools::Itertools;

verus! {

/// How an operand is held by the expression that uses it.
#[derive(Debug, PartialEq, Eq, Structural, Clone, Copy)]
pub enum RefType {
    Own,
    Ref,
    RefMut,
}

/// What an operand is: an array leaf or a nested expression node.
#[derive(Debug, PartialEq, Eq, Structural, Clone, Copy)]
pub enum ArgumentType {
    ArrayBase,
    TensrFn2,
}

/// The ownership and the kind of one operand of an operator.
#[derive(Debug, PartialEq, Eq, Structural, Clone, Copy)]
pub struct Argument {
    pub ref_type: RefType,
    pub arg_type: ArgumentType,
}

/// One operand form: a kind held in one of the three ways.
pub type OperandForm = (RefType, ArgumentType);

/// The `k`-th of the three ways of holding an operand.
pub open spec fn ref_type_at(k: int) -> RefType {
    if k == 0 {
        RefType::Own
    } else if k == 1 {
        RefType::Ref
    } else {
        RefType::RefMut
    }
}

/// The six operand forms of two kinds: each kind owned, borrowed and
/// mutably borrowed, in that order, the first kind first.
pub open spec fn operand_forms(types: [ArgumentType; 2]) -> Seq<OperandForm> {
    Seq::new(6, |k: int| (ref_type_at(k % 3), types[k / 3]))
}

/// Relies on itertools' `Itertools::cartesian_product`: every pair of an
/// element of the first sequence and one of the second, the first
/// sequence's order outermost.
#[verifier::external_body]
fn cartesian_square(v: Vec<OperandForm>) -> (r: Vec<(OperandForm, OperandForm)>)
    ensures
        r@.len() == v@.len() * v@.len(),
        forall|i: int, j: int|
            #![trigger v@[i], v@[j]]
            0 <= i < v@.len() && 0 <= j < v@.len() ==> r@[i * v@.len() + j] == (v@[i], v@[j]),
{
    v.clone().into_iter().cartesian_product(v).collect()
}

/// Every pair of operand forms for an operator whose operands are of the
/// two given kinds: 36 pairs, left form outermost.
pub fn gen_type_pairs(types: [ArgumentType; 2]) -> (r: Vec<(OperandForm, OperandForm)>)
    ensures
        r@.len() == 36,
        forall|i: int, j: int|
            0 <= i < 6 && 0 <= j < 6 ==> #[trigger] r@[i * 6 + j] == (
                operand_forms(types)[i],
                operand_forms(types)[j],
            ),
{
    let mut forms: Vec<OperandForm> = Vec::new();
    let mut t: usize = 0;
    while t < 2
        invariant
            t <= 2,
            forms@ == operand_forms(types).take(3 * t as int),
        decreases 2 - t,
    {
        let ghost before = forms@;
        forms.push((RefType::Own, types[t]));
        forms.push((RefType::Ref, types[t]));
        forms.push((RefType::RefMut, types[t]));
        assert(forms@ =~= operand_forms(types).take(3 * (t + 1) as int));
        t += 1;
    }
    assert(forms@ =~= operand_forms(types));
    cartesian_square(forms)
}

} // verus!
