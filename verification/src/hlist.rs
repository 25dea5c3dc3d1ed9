//! Type-level natural numbers and heterogeneous lists.
//!
//! These encode "field `N` of struct `S`" generically: a struct's field
//! types form a [`Cons`]/[`Nil`] list, and a type-level index selects or
//! replaces one entry without per-arity code. The types carry no runtime
//! behaviour of their own.

use vstd::prelude::*;

verus! {

/// The type-level number zero.
pub struct Zero;

/// The successor of a type-level number.
pub struct Succ<N: Nat>(pub N);

/// Type-level natural numbers: [`Zero`] and its successors.
pub trait Nat {

}

impl Nat for Zero {

}

impl <N: Nat> Nat for Succ<N> {

}

/// A heterogeneous list cell: a head value and the list of the remaining
/// values.
#[derive(Clone, Copy, Debug)]
pub struct Cons<H, T> {
    pub head: H,
    pub tail: T,
}

/// The empty heterogeneous list.
#[derive(Clone, Copy, Debug)]
pub struct Nil;

/// Selects the item type at a type-level index of a heterogeneous list.
pub trait Index<N: Nat> {
    type Item;
}

impl <H, T> Index<Zero> for Cons<H, T> {
    type Item = H;
}

impl <H, T, N: Nat> Index<Succ<N>> for Cons<H, T> where T: Index<N> {
    type Item = <T as Index<N>>::Item;
}

/// Replaces the item type at a type-level index of a heterogeneous list.
pub trait SetItemAt<N: Nat, Item> {
    type Result;
}

impl <Item, H, T> SetItemAt<Zero, Item> for Cons<H, T> {
    type Result = Cons<Item, T>;
}

impl <N: Nat, Item, H, T> SetItemAt<Succ<N>, Item> for Cons<H, T> where T: SetItemAt<N, Item> {
    type Result = Cons<H, <T as SetItemAt<N, Item>>::Result>;
}

} // verus!
