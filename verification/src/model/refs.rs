//! Reference lists for upstream and downstream relationships.
use vstd::prelude::*;

use super::item::{id_views, ItemId};

verus! {

/// Upstream relationship references (this item points to parents).
pub struct UpstreamRefs {
    /// Items this item refines (for UseCase, Scenario).
    pub refines: Vec<ItemId>,
    /// Items this item derives from (for requirements).
    pub derives_from: Vec<ItemId>,
    /// Items this item satisfies (for architectures and designs).
    pub satisfies: Vec<ItemId>,
    /// Design artifacts this ADR justifies.
    pub justifies: Vec<ItemId>,
}

/// Downstream relationship references (this item points to children).
pub struct DownstreamRefs {
    /// Items that refine this item.
    pub is_refined_by: Vec<ItemId>,
    /// Items derived from this item.
    pub derives: Vec<ItemId>,
    /// Items that satisfy this item.
    pub is_satisfied_by: Vec<ItemId>,
    /// ADRs that justify this item.
    pub justified_by: Vec<ItemId>,
}

/// The texts of a list of identifier references.
pub open spec fn ref_views(v: Seq<&ItemId>) -> Seq<Seq<char>> {
    v.map_values(|i: &ItemId| i@)
}

/// Appends references to every identifier of `l`.
fn push_all<'a>(r: &mut Vec<&'a ItemId>, l: &'a Vec<ItemId>)
    ensures
        ref_views(final(r)@) == ref_views(old(r)@) + id_views(l@),
{
    let mut j: usize = 0;
    while j < l.len()
        invariant
            j <= l.len(),
            ref_views(r@) == ref_views(old(r)@) + id_views(l@.take(j as int)),
        decreases l.len() - j,
    {
        let ghost prev = r@;
        r.push(&l[j]);
        assert(ref_views(r@) =~= ref_views(prev).push(l@[j as int]@));
        assert(id_views(l@.take(j + 1)) =~= id_views(l@.take(j as int)).push(l@[j as int]@));
        j += 1;
    }
    assert(l@.take(l.len() as int) =~= l@);
}

/// The references of four lists, in order.
fn chain4<'a>(a: &'a Vec<ItemId>, b: &'a Vec<ItemId>, c: &'a Vec<ItemId>, d: &'a Vec<ItemId>) -> (r: Vec<&'a ItemId>)
    ensures
        ref_views(r@) == id_views(a@) + id_views(b@) + id_views(c@) + id_views(d@),
{
    let mut r: Vec<&ItemId> = Vec::new();
    assert(ref_views(r@) =~= Seq::<Seq<char>>::empty());
    push_all(&mut r, a);
    push_all(&mut r, b);
    push_all(&mut r, c);
    push_all(&mut r, d);
    assert(ref_views(r@) =~= id_views(a@) + id_views(b@) + id_views(c@) + id_views(d@));
    r
}

impl UpstreamRefs {
    /// Returns all upstream item IDs: refines, derives from, satisfies,
    /// then justifies.
    pub fn all_ids(&self) -> (r: Vec<&ItemId>)
        ensures
            ref_views(r@) == id_views(self.refines@) + id_views(self.derives_from@)
                + id_views(self.satisfies@) + id_views(self.justifies@),
    {
        chain4(&self.refines, &self.derives_from, &self.satisfies, &self.justifies)
    }

    /// Returns true if there are no upstream references.
    pub fn is_empty(&self) -> (r: bool)
        ensures
            r == (self.refines@.len() == 0 && self.derives_from@.len() == 0 && self.satisfies@.len()
                == 0 && self.justifies@.len() == 0),
    {
        self.refines.len() == 0 && self.derives_from.len() == 0 && self.satisfies.len() == 0
            && self.justifies.len() == 0
    }
}

impl DownstreamRefs {
    /// Returns all downstream item IDs: is refined by, derives, is
    /// satisfied by, then justified by.
    pub fn all_ids(&self) -> (r: Vec<&ItemId>)
        ensures
            ref_views(r@) == id_views(self.is_refined_by@) + id_views(self.derives@)
                + id_views(self.is_satisfied_by@) + id_views(self.justified_by@),
    {
        chain4(&self.is_refined_by, &self.derives, &self.is_satisfied_by, &self.justified_by)
    }

    /// Returns true if there are no downstream references.
    pub fn is_empty(&self) -> (r: bool)
        ensures
            r == (self.is_refined_by@.len() == 0 && self.derives@.len() == 0
                && self.is_satisfied_by@.len() == 0 && self.justified_by@.len() == 0),
    {
        self.is_refined_by.len() == 0 && self.derives.len() == 0 && self.is_satisfied_by.len() == 0
            && self.justified_by.len() == 0
    }
}

} // verus!
