//! The block length of a struct, from the list of its fields.
//!
//! A struct is written field by field. Its block length is the number of
//! bytes of its fields of fixed width; a string, a blob or a group is
//! written behind them and adds nothing to it. The order of the fields
//! decides where each is written, and changes nothing of the block length.

use crate::convert::BlockLength;
use crate::tuples::{add_capped, capped};
use vstd::prelude::*;
use vstd::seq_lib::{
    to_multiset_build, to_multiset_contains, to_multiset_len, to_multiset_remove,
};

verus! {

broadcast use vstd::multiset::group_multiset_axioms;

/// What a field of a struct is to the block length.
#[derive(Debug, Clone, Copy, PartialEq, Eq, Structural)]
pub enum Field {
    /// A field of a fixed width, with the block length of its type: an
    /// integer, a boolean, an enumeration or a struct.
    Fixed(u16),
    /// A string, a blob or a group.
    Variable,
}

impl Field {
    /// What the field adds to the block length: the block length of its
    /// type where that is a type of fixed width, and nothing else.
    pub open spec fn length(self) -> nat {
        match self {
            Field::Fixed(n) => n as nat,
            Field::Variable => 0,
        }
    }

    /// A field of the type `T`, which is of fixed width.
    pub fn fixed<T: BlockLength>() -> (r: Field)
        ensures
            r == Field::Fixed(T::fixed_length() as u16),
            r.length() == T::fixed_length(),
    {
        Field::Fixed(T::block_length())
    }
}

/// The sum of what the fields add to the block length.
pub open spec fn total(fields: Seq<Field>) -> nat
    decreases fields.len(),
{
    if fields.len() == 0 {
        0
    } else {
        total(fields.drop_last()) + fields.last().length()
    }
}

/// The block length of a struct with the given fields: the sum of the block
/// lengths of its fields of fixed width, or what 16 bits can say at most
/// where the sum is more.
pub fn block_length_of(fields: &[Field]) -> (n: u16)
    ensures
        n == capped(total(fields@)),
{
    let mut n: u16 = 0;
    let mut i: usize = 0;
    while i < fields.len()
        invariant
            i <= fields@.len(),
            n == capped(total(fields@.take(i as int))),
        decreases fields@.len() - i,
    {
        let length = match fields[i] {
            Field::Fixed(length) => length,
            Field::Variable => 0,
        };
        assert(fields@.take(i + 1).drop_last() =~= fields@.take(i as int));
        n = add_capped(n, length);
        i += 1;
    }
    assert(fields@.take(i as int) =~= fields@);
    n
}

/// The sum over fields is the sum over the first of them and the sum over
/// the rest.
pub proof fn lemma_total_is_additive(a: Seq<Field>, b: Seq<Field>)
    ensures
        total(a + b) == total(a) + total(b),
    decreases b.len(),
{
    if b.len() == 0 {
        assert(a + b =~= a);
    } else {
        assert((a + b).drop_last() =~= a + b.drop_last());
        lemma_total_is_additive(a, b.drop_last());
    }
}

/// The sum over fields is the sum over all but one of them and what that
/// one adds.
pub proof fn lemma_total_without(fields: Seq<Field>, i: int)
    requires
        0 <= i < fields.len(),
    ensures
        total(fields) == total(fields.remove(i)) + fields[i].length(),
    decreases fields.len(),
{
    if i == fields.len() - 1 {
        assert(fields.remove(i) =~= fields.drop_last());
    } else {
        assert(fields.remove(i).drop_last() =~= fields.drop_last().remove(i));
        lemma_total_without(fields.drop_last(), i);
    }
}

/// The block length of a struct does not depend on the order of its fields:
/// the same fields in any order add up to the same.
pub proof fn lemma_total_in_any_order(a: Seq<Field>, b: Seq<Field>)
    requires
        a.to_multiset() == b.to_multiset(),
    ensures
        total(a) == total(b),
    decreases a.len(),
{
    to_multiset_len(a);
    to_multiset_len(b);
    if a.len() > 0 {
        let last = a.last();
        let init = a.drop_last();
        assert(init.push(last) =~= a);
        to_multiset_build(init, last);
        to_multiset_contains(b, last);
        let j = choose|j: int| 0 <= j < b.len() && b[j] == last;
        to_multiset_remove(b, j);
        assert(b.remove(j).to_multiset() =~= init.to_multiset());
        lemma_total_in_any_order(init, b.remove(j));
        lemma_total_without(b, j);
    }
}

/// A string, a blob and a group add nothing to the block length, and a
/// struct without fields has none.
pub proof fn lemma_total_of_variable_fields(fields: Seq<Field>)
    requires
        forall|i: int| 0 <= i < fields.len() ==> #[trigger] fields[i] == Field::Variable,
    ensures
        total(fields) == 0,
    decreases fields.len(),
{
    if fields.len() > 0 {
        lemma_total_of_variable_fields(fields.drop_last());
    }
}

/// The block length of a tuple is that of the struct with its parts as
/// fields.
pub proof fn lemma_tuple_is_a_struct<A: BlockLength, B: BlockLength, C: BlockLength>()
    requires
        A::fixed_length() <= u16::MAX,
        B::fixed_length() <= u16::MAX,
        C::fixed_length() <= u16::MAX,
    ensures
        <(A, B)>::fixed_length() == capped(
            total(
                seq![
                    Field::Fixed(A::fixed_length() as u16),
                    Field::Fixed(B::fixed_length() as u16),
                ],
            ),
        ),
        <(A, B, C)>::fixed_length() == capped(
            total(
                seq![
                    Field::Fixed(A::fixed_length() as u16),
                    Field::Fixed(B::fixed_length() as u16),
                    Field::Fixed(C::fixed_length() as u16),
                ],
            ),
        ),
{
    let a = Field::Fixed(A::fixed_length() as u16);
    let b = Field::Fixed(B::fixed_length() as u16);
    let c = Field::Fixed(C::fixed_length() as u16);
    assert(total(Seq::<Field>::empty()) == 0);
    assert(seq![a].drop_last() =~= Seq::<Field>::empty());
    assert(total(seq![a]) == a.length());
    assert(seq![a, b].drop_last() =~= seq![a]);
    assert(total(seq![a, b]) == a.length() + b.length());
    assert(seq![a, b, c].drop_last() =~= seq![a, b]);
    assert(total(seq![a, b, c]) == a.length() + b.length() + c.length());
}

} // verus!
