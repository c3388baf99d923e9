//! Collecting leaves: a leaf yields itself, a composite the leaves of its
//! members in order, skipped members left out.

use vstd::prelude::*;

use crate::leaf::{AnyNameable, LeafView, Nameable};
use crate::render::Rename;

verus! {

/// Appends `more` to `out`.
pub fn append_leaves(out: &mut Vec<AnyNameable>, more: Vec<AnyNameable>)
    ensures
        final(out)@ == old(out)@ + more@,
{
    let mut more = more;
    out.append(&mut more);
}

/// The leaves of a composite's members, as a derived collection gives them:
/// each member's leaves in declaration order, members marked skipped left out.
pub open spec fn collected(members: Seq<(bool, Seq<AnyNameable>)>) -> Seq<AnyNameable>
    decreases members.len(),
{
    if members.len() == 0 {
        Seq::empty()
    } else {
        collected(members.drop_last()) + if members.last().0 {
            Seq::empty()
        } else {
            members.last().1
        }
    }
}

/// One member of a composite: whether it is skipped, and its leaves.
pub struct Member {
    pub skip: bool,
    pub leaves: Vec<AnyNameable>,
}

/// The leaves of a composite from those of its members, in declaration order;
/// a member marked skipped contributes nothing.
pub fn collect_members(members: Vec<Member>) -> (r: Vec<AnyNameable>)
    ensures
        r@ == collected(members@.map_values(|m: Member| (m.skip, m.leaves@))),
{
    let ghost all = members@;
    let mut members = members;
    let total = members.len();
    assert(all.len() == total);
    let mut out: Vec<AnyNameable> = Vec::new();
    let mut k: usize = 0;
    while members.len() > 0
        invariant
            k <= all.len() <= usize::MAX,
            members@ == all.skip(k as int),
            out@ == collected(all.take(k as int).map_values(|m: Member| (m.skip, m.leaves@))),
        decreases members.len(),
    {
        assert(all.skip(k as int).len() == all.len() - k);
        let m = members.remove(0);
        proof {
            assert(m == all[k as int]);
            let pre = all.take(k + 1).map_values(|m: Member| (m.skip, m.leaves@));
            assert(pre.drop_last() =~= all.take(k as int).map_values(
                |m: Member| (m.skip, m.leaves@),
            ));
            assert(members@ =~= all.skip(k + 1));
        }
        if !m.skip {
            append_leaves(&mut out, m.leaves);
        }
        k = k + 1;
    }
    assert(all.take(k as int) =~= all);
    out
}

/// What is known of the leaves a value yields: for each leaf in order, its
/// view where the value's type fixes it; `None` as a whole where not even
/// their number is known.
pub open spec fn fits(leaves: Seq<AnyNameable>, shape: Option<Seq<Option<LeafView>>>) -> bool {
    match shape {
        Some(s) => leaves.len() == s.len() && forall|i: int|
            0 <= i < s.len() ==> (#[trigger] s[i] matches Some(v) ==> leaves[i]@ == v),
        None => true,
    }
}

/// The shape of two runs of leaves, one after the other.
pub open spec fn joined(
    a: Option<Seq<Option<LeafView>>>,
    b: Option<Seq<Option<LeafView>>>,
) -> Option<Seq<Option<LeafView>>> {
    match (a, b) {
        (Some(x), Some(y)) => Some(x + y),
        _ => None,
    }
}

/// The shape of no leaves.
pub open spec fn no_leaves() -> Option<Seq<Option<LeafView>>> {
    Some(Seq::empty())
}

/// The shape of one leaf whose view is not known.
pub open spec fn one_leaf() -> Option<Seq<Option<LeafView>>> {
    Some(seq![None])
}

/// Leaves that fit two shapes, one after the other, fit the joined shape.
pub proof fn fits_joined(
    a: Seq<AnyNameable>,
    sa: Option<Seq<Option<LeafView>>>,
    b: Seq<AnyNameable>,
    sb: Option<Seq<Option<LeafView>>>,
)
    requires
        fits(a, sa),
        fits(b, sb),
    ensures
        fits(a + b, joined(sa, sb)),
{
    if let (Some(x), Some(y)) = (sa, sb) {
        let s = x + y;
        assert forall|i: int| 0 <= i < s.len() implies (#[trigger] s[i] matches Some(v) ==> (a
            + b)[i]@ == v) by {
            if i < x.len() {
                assert(s[i] == x[i]);
            } else {
                assert(s[i] == y[i - x.len()]);
            }
        }
    }
}

/// Appends `more`, which fits `shape`, to `out`, which fits `before`.
pub fn append_fitting(
    out: &mut Vec<AnyNameable>,
    more: Vec<AnyNameable>,
    Ghost(before): Ghost<Option<Seq<Option<LeafView>>>>,
    Ghost(shape): Ghost<Option<Seq<Option<LeafView>>>>,
)
    requires
        fits(old(out)@, before),
        fits(more@, shape),
    ensures
        final(out)@ == old(out)@ + more@,
        fits(final(out)@, joined(before, shape)),
{
    proof {
        fits_joined(old(out)@, before, more@, shape);
    }
    append_leaves(out, more);
}

/// The shape of the leaves of a sequence of values, one after the other.
pub open spec fn seq_shape<T: Rename>(s: Seq<T>) -> Option<Seq<Option<LeafView>>>
    decreases s.len(),
{
    if s.len() == 0 {
        no_leaves()
    } else {
        joined(seq_shape(s.drop_last()), s.last().shape())
    }
}

impl<T: Nameable> Rename for T {
    open spec fn shape(&self) -> Option<Seq<Option<LeafView>>> {
        one_leaf()
    }

    fn nameables(&self) -> (r: Vec<AnyNameable>) {
        let mut v: Vec<AnyNameable> = Vec::new();
        v.push(self.as_leaf());
        assert(v@.len() == 1);
        v
    }
}

/// Relies on `BTreeSet::iter`: the elements, in the set's order.
#[verifier::external_body]
pub(crate) fn btree_set_items<T>(s: &std::collections::BTreeSet<T>) -> Vec<&T> {
    s.iter().collect()
}

/// Relies on `BTreeMap::iter`: the entries, in the map's order of keys.
#[verifier::external_body]
pub(crate) fn btree_map_items<K, V>(m: &std::collections::BTreeMap<K, V>) -> Vec<(&K, &V)> {
    m.iter().collect()
}

/// Relies on `HashSet::iter`: the elements, in the order the set is walked.
#[verifier::external_body]
pub(crate) fn hash_set_items<T>(s: &std::collections::HashSet<T>) -> Vec<&T> {
    s.iter().collect()
}

/// Relies on `HashMap::iter`: the entries, in the order the map is walked.
#[verifier::external_body]
pub(crate) fn hash_map_items<K, V>(m: &std::collections::HashMap<K, V>) -> Vec<(&K, &V)> {
    m.iter().collect()
}

fn leaves_of_items<T: Rename>(items: &Vec<&T>) -> (r: Vec<AnyNameable>)
    ensures
        items@.len() == 0 ==> r@.len() == 0,
{
    let mut out: Vec<AnyNameable> = Vec::new();
    let mut i: usize = 0;
    while i < items.len()
        invariant
            i <= items.len(),
            i == 0 ==> out@.len() == 0,
        decreases items.len() - i,
    {
        append_leaves(&mut out, items[i].nameables());
        i = i + 1;
    }
    out
}

fn leaves_of_entries<K: Rename, V: Rename>(entries: &Vec<(&K, &V)>) -> (r: Vec<AnyNameable>)
    ensures
        entries@.len() == 0 ==> r@.len() == 0,
{
    let mut out: Vec<AnyNameable> = Vec::new();
    let mut i: usize = 0;
    while i < entries.len()
        invariant
            i <= entries.len(),
            i == 0 ==> out@.len() == 0,
        decreases entries.len() - i,
    {
        let (k, v) = entries[i];
        append_leaves(&mut out, k.nameables());
        append_leaves(&mut out, v.nameables());
        i = i + 1;
    }
    out
}

impl Rename for () {
    open spec fn shape(&self) -> Option<Seq<Option<LeafView>>> {
        no_leaves()
    }

    fn nameables(&self) -> (r: Vec<AnyNameable>) {
        Vec::new()
    }
}

impl Rename for u8 {
    open spec fn shape(&self) -> Option<Seq<Option<LeafView>>> {
        no_leaves()
    }

    fn nameables(&self) -> (r: Vec<AnyNameable>) {
        Vec::new()
    }
}

impl Rename for u16 {
    open spec fn shape(&self) -> Option<Seq<Option<LeafView>>> {
        no_leaves()
    }

    fn nameables(&self) -> (r: Vec<AnyNameable>) {
        Vec::new()
    }
}

impl Rename for u32 {
    open spec fn shape(&self) -> Option<Seq<Option<LeafView>>> {
        no_leaves()
    }

    fn nameables(&self) -> (r: Vec<AnyNameable>) {
        Vec::new()
    }
}

impl Rename for u64 {
    open spec fn shape(&self) -> Option<Seq<Option<LeafView>>> {
        no_leaves()
    }

    fn nameables(&self) -> (r: Vec<AnyNameable>) {
        Vec::new()
    }
}

impl Rename for u128 {
    open spec fn shape(&self) -> Option<Seq<Option<LeafView>>> {
        no_leaves()
    }

    fn nameables(&self) -> (r: Vec<AnyNameable>) {
        Vec::new()
    }
}

impl Rename for usize {
    open spec fn shape(&self) -> Option<Seq<Option<LeafView>>> {
        no_leaves()
    }

    fn nameables(&self) -> (r: Vec<AnyNameable>) {
        Vec::new()
    }
}

impl Rename for i8 {
    open spec fn shape(&self) -> Option<Seq<Option<LeafView>>> {
        no_leaves()
    }

    fn nameables(&self) -> (r: Vec<AnyNameable>) {
        Vec::new()
    }
}

impl Rename for i16 {
    open spec fn shape(&self) -> Option<Seq<Option<LeafView>>> {
        no_leaves()
    }

    fn nameables(&self) -> (r: Vec<AnyNameable>) {
        Vec::new()
    }
}

impl Rename for i32 {
    open spec fn shape(&self) -> Option<Seq<Option<LeafView>>> {
        no_leaves()
    }

    fn nameables(&self) -> (r: Vec<AnyNameable>) {
        Vec::new()
    }
}

impl Rename for i64 {
    open spec fn shape(&self) -> Option<Seq<Option<LeafView>>> {
        no_leaves()
    }

    fn nameables(&self) -> (r: Vec<AnyNameable>) {
        Vec::new()
    }
}

impl Rename for i128 {
    open spec fn shape(&self) -> Option<Seq<Option<LeafView>>> {
        no_leaves()
    }

    fn nameables(&self) -> (r: Vec<AnyNameable>) {
        Vec::new()
    }
}

impl Rename for isize {
    open spec fn shape(&self) -> Option<Seq<Option<LeafView>>> {
        no_leaves()
    }

    fn nameables(&self) -> (r: Vec<AnyNameable>) {
        Vec::new()
    }
}

impl Rename for bool {
    open spec fn shape(&self) -> Option<Seq<Option<LeafView>>> {
        no_leaves()
    }

    fn nameables(&self) -> (r: Vec<AnyNameable>) {
        Vec::new()
    }
}

impl Rename for char {
    open spec fn shape(&self) -> Option<Seq<Option<LeafView>>> {
        no_leaves()
    }

    fn nameables(&self) -> (r: Vec<AnyNameable>) {
        Vec::new()
    }
}

impl Rename for &'static str {
    open spec fn shape(&self) -> Option<Seq<Option<LeafView>>> {
        no_leaves()
    }

    fn nameables(&self) -> (r: Vec<AnyNameable>) {
        Vec::new()
    }
}

impl Rename for String {
    open spec fn shape(&self) -> Option<Seq<Option<LeafView>>> {
        no_leaves()
    }

    fn nameables(&self) -> (r: Vec<AnyNameable>) {
        Vec::new()
    }
}

impl<T> Rename for core::marker::PhantomData<T> {
    open spec fn shape(&self) -> Option<Seq<Option<LeafView>>> {
        no_leaves()
    }

    fn nameables(&self) -> (r: Vec<AnyNameable>) {
        Vec::new()
    }
}

impl<T: Rename> Rename for Option<T> {
    open spec fn shape(&self) -> Option<Seq<Option<LeafView>>> {
        match self {
            Some(t) => t.shape(),
            None => no_leaves(),
        }
    }

    fn nameables(&self) -> (r: Vec<AnyNameable>) {
        match self {
            Some(t) => t.nameables(),
            None => Vec::new(),
        }
    }
}

impl<T: Rename> Rename for Vec<T> {
    open spec fn shape(&self) -> Option<Seq<Option<LeafView>>> {
        seq_shape(self@)
    }

    fn nameables(&self) -> (r: Vec<AnyNameable>) {
        let mut out: Vec<AnyNameable> = Vec::new();
        let mut i: usize = 0;
        assert(self@.take(0) =~= Seq::<T>::empty());
        while i < self.len()
            invariant
                i <= self.len(),
                fits(out@, seq_shape(self@.take(i as int))),
            decreases self.len() - i,
        {
            let more = self[i].nameables();
            proof {
                let next = self@.take(i + 1);
                assert(next.drop_last() =~= self@.take(i as int));
                assert(next.last() == self@[i as int]);
            }
            append_fitting(
                &mut out,
                more,
                Ghost(seq_shape(self@.take(i as int))),
                Ghost(self@[i as int].shape()),
            );
            i = i + 1;
        }
        assert(self@.take(self.len() as int) =~= self@);
        out
    }
}

impl<T: Rename> Rename for std::collections::BTreeSet<T> {
    open spec fn shape(&self) -> Option<Seq<Option<LeafView>>> {
        None
    }

    fn nameables(&self) -> (r: Vec<AnyNameable>) {
        leaves_of_items(&btree_set_items(self))
    }
}

impl<K: Rename, V: Rename> Rename for std::collections::BTreeMap<K, V> {
    open spec fn shape(&self) -> Option<Seq<Option<LeafView>>> {
        None
    }

    fn nameables(&self) -> (r: Vec<AnyNameable>) {
        leaves_of_entries(&btree_map_items(self))
    }
}

impl<T: Rename> Rename for std::collections::HashSet<T> {
    open spec fn shape(&self) -> Option<Seq<Option<LeafView>>> {
        None
    }

    fn nameables(&self) -> (r: Vec<AnyNameable>) {
        leaves_of_items(&hash_set_items(self))
    }
}

impl<K: Rename, V: Rename> Rename for std::collections::HashMap<K, V> {
    open spec fn shape(&self) -> Option<Seq<Option<LeafView>>> {
        None
    }

    fn nameables(&self) -> (r: Vec<AnyNameable>) {
        leaves_of_entries(&hash_map_items(self))
    }
}

impl<A: Rename, B: Rename> Rename for (A, B) {
    open spec fn shape(&self) -> Option<Seq<Option<LeafView>>> {
        joined(self.0.shape(), self.1.shape())
    }

    fn nameables(&self) -> (r: Vec<AnyNameable>) {
        let mut out = self.0.nameables();
        append_fitting(&mut out, self.1.nameables(), Ghost(self.0.shape()), Ghost(self.1.shape()));
        out
    }
}

impl<A: Rename, B: Rename, C: Rename> Rename for (A, B, C) {
    open spec fn shape(&self) -> Option<Seq<Option<LeafView>>> {
        joined(joined(self.0.shape(), self.1.shape()), self.2.shape())
    }

    fn nameables(&self) -> (r: Vec<AnyNameable>) {
        let mut out = self.0.nameables();
        append_fitting(&mut out, self.1.nameables(), Ghost(self.0.shape()), Ghost(self.1.shape()));
        append_fitting(&mut out, self.2.nameables(), Ghost(joined(self.0.shape(), self.1.shape())), Ghost(self.2.shape()));
        out
    }
}

impl<A: Rename, B: Rename, C: Rename, D: Rename> Rename for (A, B, C, D) {
    open spec fn shape(&self) -> Option<Seq<Option<LeafView>>> {
        joined(joined(joined(self.0.shape(), self.1.shape()), self.2.shape()), self.3.shape())
    }

    fn nameables(&self) -> (r: Vec<AnyNameable>) {
        let mut out = self.0.nameables();
        append_fitting(&mut out, self.1.nameables(), Ghost(self.0.shape()), Ghost(self.1.shape()));
        append_fitting(&mut out, self.2.nameables(), Ghost(joined(self.0.shape(), self.1.shape())), Ghost(self.2.shape()));
        append_fitting(&mut out, self.3.nameables(), Ghost(joined(joined(self.0.shape(), self.1.shape()), self.2.shape())), Ghost(self.3.shape()));
        out
    }
}

impl<A: Rename, B: Rename, C: Rename, D: Rename, E: Rename> Rename for (A, B, C, D, E) {
    open spec fn shape(&self) -> Option<Seq<Option<LeafView>>> {
        joined(joined(joined(joined(self.0.shape(), self.1.shape()), self.2.shape()), self.3.shape()), self.4.shape())
    }

    fn nameables(&self) -> (r: Vec<AnyNameable>) {
        let mut out = self.0.nameables();
        append_fitting(&mut out, self.1.nameables(), Ghost(self.0.shape()), Ghost(self.1.shape()));
        append_fitting(&mut out, self.2.nameables(), Ghost(joined(self.0.shape(), self.1.shape())), Ghost(self.2.shape()));
        append_fitting(&mut out, self.3.nameables(), Ghost(joined(joined(self.0.shape(), self.1.shape()), self.2.shape())), Ghost(self.3.shape()));
        append_fitting(&mut out, self.4.nameables(), Ghost(joined(joined(joined(self.0.shape(), self.1.shape()), self.2.shape()), self.3.shape())), Ghost(self.4.shape()));
        out
    }
}

impl<A: Rename, B: Rename, C: Rename, D: Rename, E: Rename, F: Rename> Rename for (A, B, C, D, E, F) {
    open spec fn shape(&self) -> Option<Seq<Option<LeafView>>> {
        joined(joined(joined(joined(joined(self.0.shape(), self.1.shape()), self.2.shape()), self.3.shape()), self.4.shape()), self.5.shape())
    }

    fn nameables(&self) -> (r: Vec<AnyNameable>) {
        let mut out = self.0.nameables();
        append_fitting(&mut out, self.1.nameables(), Ghost(self.0.shape()), Ghost(self.1.shape()));
        append_fitting(&mut out, self.2.nameables(), Ghost(joined(self.0.shape(), self.1.shape())), Ghost(self.2.shape()));
        append_fitting(&mut out, self.3.nameables(), Ghost(joined(joined(self.0.shape(), self.1.shape()), self.2.shape())), Ghost(self.3.shape()));
        append_fitting(&mut out, self.4.nameables(), Ghost(joined(joined(joined(self.0.shape(), self.1.shape()), self.2.shape()), self.3.shape())), Ghost(self.4.shape()));
        append_fitting(&mut out, self.5.nameables(), Ghost(joined(joined(joined(joined(self.0.shape(), self.1.shape()), self.2.shape()), self.3.shape()), self.4.shape())), Ghost(self.5.shape()));
        out
    }
}

impl<A: Rename, B: Rename, C: Rename, D: Rename, E: Rename, F: Rename, G: Rename> Rename for (A, B, C, D, E, F, G) {
    open spec fn shape(&self) -> Option<Seq<Option<LeafView>>> {
        joined(joined(joined(joined(joined(joined(self.0.shape(), self.1.shape()), self.2.shape()), self.3.shape()), self.4.shape()), self.5.shape()), self.6.shape())
    }

    fn nameables(&self) -> (r: Vec<AnyNameable>) {
        let mut out = self.0.nameables();
        append_fitting(&mut out, self.1.nameables(), Ghost(self.0.shape()), Ghost(self.1.shape()));
        append_fitting(&mut out, self.2.nameables(), Ghost(joined(self.0.shape(), self.1.shape())), Ghost(self.2.shape()));
        append_fitting(&mut out, self.3.nameables(), Ghost(joined(joined(self.0.shape(), self.1.shape()), self.2.shape())), Ghost(self.3.shape()));
        append_fitting(&mut out, self.4.nameables(), Ghost(joined(joined(joined(self.0.shape(), self.1.shape()), self.2.shape()), self.3.shape())), Ghost(self.4.shape()));
        append_fitting(&mut out, self.5.nameables(), Ghost(joined(joined(joined(joined(self.0.shape(), self.1.shape()), self.2.shape()), self.3.shape()), self.4.shape())), Ghost(self.5.shape()));
        append_fitting(&mut out, self.6.nameables(), Ghost(joined(joined(joined(joined(joined(self.0.shape(), self.1.shape()), self.2.shape()), self.3.shape()), self.4.shape()), self.5.shape())), Ghost(self.6.shape()));
        out
    }
}

impl<A: Rename, B: Rename, C: Rename, D: Rename, E: Rename, F: Rename, G: Rename, H: Rename> Rename for (A, B, C, D, E, F, G, H) {
    open spec fn shape(&self) -> Option<Seq<Option<LeafView>>> {
        joined(joined(joined(joined(joined(joined(joined(self.0.shape(), self.1.shape()), self.2.shape()), self.3.shape()), self.4.shape()), self.5.shape()), self.6.shape()), self.7.shape())
    }

    fn nameables(&self) -> (r: Vec<AnyNameable>) {
        let mut out = self.0.nameables();
        append_fitting(&mut out, self.1.nameables(), Ghost(self.0.shape()), Ghost(self.1.shape()));
        append_fitting(&mut out, self.2.nameables(), Ghost(joined(self.0.shape(), self.1.shape())), Ghost(self.2.shape()));
        append_fitting(&mut out, self.3.nameables(), Ghost(joined(joined(self.0.shape(), self.1.shape()), self.2.shape())), Ghost(self.3.shape()));
        append_fitting(&mut out, self.4.nameables(), Ghost(joined(joined(joined(self.0.shape(), self.1.shape()), self.2.shape()), self.3.shape())), Ghost(self.4.shape()));
        append_fitting(&mut out, self.5.nameables(), Ghost(joined(joined(joined(joined(self.0.shape(), self.1.shape()), self.2.shape()), self.3.shape()), self.4.shape())), Ghost(self.5.shape()));
        append_fitting(&mut out, self.6.nameables(), Ghost(joined(joined(joined(joined(joined(self.0.shape(), self.1.shape()), self.2.shape()), self.3.shape()), self.4.shape()), self.5.shape())), Ghost(self.6.shape()));
        append_fitting(&mut out, self.7.nameables(), Ghost(joined(joined(joined(joined(joined(joined(self.0.shape(), self.1.shape()), self.2.shape()), self.3.shape()), self.4.shape()), self.5.shape()), self.6.shape())), Ghost(self.7.shape()));
        out
    }
}

} // verus!
