use vstd::prelude::*;

use crate::expr::{Operand, TensrFn2, Tree};
use crate::kernel::{op_int, BinaryOperation};
use crate::scalar::TensrType;

verus! {

/// Materializing a node of two leaves gives, at every index, the scalar
/// kernel's result on the two leaves' elements at that index.
pub proof fn lemma_elementwise<T: TensrType>(
    op: BinaryOperation,
    a: Seq<T>,
    b: Seq<T>,
    out: Seq<T>,
)
    requires
        a.len() == b.len(),
        Tree::Node(op, Box::new(Tree::Leaf(a)), Box::new(Tree::Leaf(b))).evaluates_to(out),
    ensures
        out.len() == a.len(),
        forall|i: int|
            0 <= i < a.len() ==> (#[trigger] out[i]).to_int() == op_int(
                op,
                a[i].to_int(),
                b[i].to_int(),
            ),
{
    let t = Tree::Node(op, Box::new(Tree::Leaf(a)), Box::new(Tree::Leaf(b)));
    assert(Tree::Leaf(a).len() == a.len());
    assert(t.len() == a.len());
    assert forall|i: int| 0 <= i < a.len() implies (#[trigger] out[i]).to_int() == op_int(
        op,
        a[i].to_int(),
        b[i].to_int(),
    ) by {
        assert(out[i].to_int() == t.value(i));
        assert(Tree::Leaf(a).value(i) == a[i].to_int());
        assert(Tree::Leaf(b).value(i) == b[i].to_int());
    }
}

/// An expression evaluates to one sequence only. So the output of the
/// vector path (whole lanes, then a scalar remainder) equals a scalar-only
/// evaluation, whatever the length, and an output written into a donated
/// buffer equals one written into a fresh buffer.
pub proof fn lemma_evaluation_unique<T: TensrType>(t: Tree<T>, s1: Seq<T>, s2: Seq<T>)
    requires
        t.evaluates_to(s1),
        t.evaluates_to(s2),
    ensures
        s1 == s2,
{
    assert forall|i: int| 0 <= i < s1.len() implies s1[i] == s2[i] by {
        assert(s1[i].to_int() == t.value(i));
        assert(s2[i].to_int() == t.value(i));
        T::lemma_to_int_injective(s1[i], s2[i]);
    }
    assert(s1 =~= s2);
}

/// A node whose two operands are both borrowed offers no buffer to the
/// reuse query, whatever the length asked for: borrowed storage is never
/// donated.
pub proof fn lemma_borrowed_never_donated<'a, T: TensrType>(node: TensrFn2<'a, T>, len: nat)
    requires
        node.lhs is BorrowedLeaf || node.lhs is BorrowedNode,
        node.rhs is BorrowedLeaf || node.rhs is BorrowedNode,
    ensures
        node.donor(len) is None,
{
}

/// Evaluating `(x op1 y) op2 z` as one fused tree equals evaluating
/// `x op1 y` into a temporary first and then `temporary op2 z`.
pub proof fn lemma_fusion_matches_staged<T: TensrType>(
    op1: BinaryOperation,
    op2: BinaryOperation,
    x: Tree<T>,
    y: Tree<T>,
    z: Tree<T>,
    fused: Seq<T>,
    temp: Seq<T>,
    staged: Seq<T>,
)
    requires
        x.len() == y.len(),
        y.len() == z.len(),
        Tree::Node(
            op2,
            Box::new(Tree::Node(op1, Box::new(x), Box::new(y))),
            Box::new(z),
        ).evaluates_to(fused),
        Tree::Node(op1, Box::new(x), Box::new(y)).evaluates_to(temp),
        Tree::Node(op2, Box::new(Tree::Leaf(temp)), Box::new(z)).evaluates_to(staged),
    ensures
        fused == staged,
{
    let inner = Tree::Node(op1, Box::new(x), Box::new(y));
    let f = Tree::Node(op2, Box::new(inner), Box::new(z));
    let st = Tree::Node(op2, Box::new(Tree::Leaf(temp)), Box::new(z));
    assert(inner.len() == x.len());
    assert(f.len() == x.len());
    assert(Tree::Leaf(temp).len() == temp.len());
    assert(st.len() == temp.len());
    assert forall|i: int| 0 <= i < fused.len() implies fused[i] == staged[i] by {
        assert(fused[i].to_int() == f.value(i));
        assert(temp[i].to_int() == inner.value(i));
        assert(staged[i].to_int() == st.value(i));
        assert(Tree::Leaf(temp).value(i) == temp[i].to_int());
        assert(f.value(i) == st.value(i));
        T::lemma_to_int_injective(fused[i], staged[i]);
    }
    assert(fused =~= staged);
}

} // verus!
