//! Runtime field values for item attributes.
use vstd::prelude::*;

use super::item::ItemId;

verus! {

/// Runtime value of a declared field.
#[derive(Debug, PartialEq, Eq)]
pub enum FieldValue {
    /// Free-form text.
    Text(String),
    /// One value among a closed set, kept as its snake_case identifier.
    Enum(String),
    /// A single reference to another item's id.
    ItemRef(ItemId),
    /// An ordered list of values.
    List(Vec<FieldValue>),
    /// An ISO-8601 date string.
    Date(String),
}

/// True if two values are equal as plain values: the same variant with
/// the same texts, element by element for lists.
pub open spec fn same_value(a: FieldValue, b: FieldValue) -> bool
    decreases a,
{
    match a {
        FieldValue::Text(x) => b is Text && x@ == b->Text_0@,
        FieldValue::Enum(x) => b is Enum && x@ == b->Enum_0@,
        FieldValue::ItemRef(x) => b is ItemRef && x@ == b->ItemRef_0@,
        FieldValue::Date(x) => b is Date && x@ == b->Date_0@,
        FieldValue::List(xs) => b is List && same_values(xs@, b->List_0@),
    }
}

/// True if two lists hold the same values, position by position.
pub open spec fn same_values(xs: Seq<FieldValue>, ys: Seq<FieldValue>) -> bool
    decreases xs,
{
    if xs.len() == 0 {
        ys.len() == 0
    } else {
        proof {
            assert(decreases_to!(xs => xs.subrange(0, xs.len() - 1)));
            assert(decreases_to!(xs => xs[xs.len() - 1]));
        }
        ys.len() == xs.len() && same_values(xs.subrange(0, xs.len() - 1), ys.subrange(0, ys.len() - 1))
            && same_value(xs[xs.len() - 1], ys[ys.len() - 1])
    }
}

/// Lists holding the same values have the same length.
proof fn lemma_same_values_len(xs: Seq<FieldValue>, ys: Seq<FieldValue>)
    requires
        same_values(xs, ys),
    ensures
        xs.len() == ys.len(),
{
}

impl FieldValue {
    /// Returns a copy of this value.
    pub fn duplicate(&self) -> (r: FieldValue)
        ensures
            same_value(r, *self),
        decreases self,
    {
        match self {
            FieldValue::Text(s) => FieldValue::Text(s.clone()),
            FieldValue::Enum(s) => FieldValue::Enum(s.clone()),
            FieldValue::ItemRef(id) => FieldValue::ItemRef(id.duplicate()),
            FieldValue::Date(s) => FieldValue::Date(s.clone()),
            FieldValue::List(v) => {
                let mut out: Vec<FieldValue> = Vec::new();
                let mut i: usize = 0;
                assert(v@.subrange(0, 0) =~= Seq::<FieldValue>::empty());
                while i < v.len()
                    invariant
                        i <= v.len(),
                        *self is List,
                        self->List_0 == *v,
                        same_values(out@, v@.subrange(0, i as int)),
                    decreases v.len() - i,
                {
                    proof {
                        assert(decreases_to!(*self => self->List_0));
                        assert(decreases_to!(self->List_0 => self->List_0@));
                        assert(decreases_to!(self->List_0@ => v@[i as int]));
                    }
                    let d = v[i].duplicate();
                    let ghost before = out@;
                    out.push(d);
                    proof {
                        let vi = v@.subrange(0, i + 1);
                        lemma_same_values_len(before, v@.subrange(0, i as int));
                        assert(out@.subrange(0, out@.len() - 1) =~= before);
                        assert(vi.subrange(0, vi.len() - 1) =~= v@.subrange(0, i as int));
                        assert(out@[out@.len() - 1] == d);
                        assert(vi[vi.len() - 1] == v@[i as int]);
                        assert(same_values(out@, vi));
                    }
                    i += 1;
                }
                assert(v@.subrange(0, v@.len() as int) =~= v@);
                FieldValue::List(out)
            },
        }
    }

    /// Creates a text value.
    pub fn text(value: &str) -> (r: FieldValue)
        ensures
            r matches FieldValue::Text(s) && s@ == value@,
    {
        FieldValue::Text(value.to_owned())
    }

    /// Returns the inner string if this is a text value.
    pub fn as_text(&self) -> (r: Option<&String>)
        ensures
            match self {
                FieldValue::Text(s) => r == Some(s),
                _ => r is None,
            },
    {
        match self {
            FieldValue::Text(s) => Some(s),
            _ => None,
        }
    }

    /// Returns the inner string if this is an enum value.
    pub fn as_enum(&self) -> (r: Option<&String>)
        ensures
            match self {
                FieldValue::Enum(s) => r == Some(s),
                _ => r is None,
            },
    {
        match self {
            FieldValue::Enum(s) => Some(s),
            _ => None,
        }
    }

    /// Returns the inner item id if this is an item reference.
    pub fn as_item_ref(&self) -> (r: Option<&ItemId>)
        ensures
            match self {
                FieldValue::ItemRef(id) => r == Some(id),
                _ => r is None,
            },
    {
        match self {
            FieldValue::ItemRef(id) => Some(id),
            _ => None,
        }
    }

    /// Returns the inner values if this is a list.
    pub fn as_list(&self) -> (r: Option<&[FieldValue]>)
        ensures
            match self {
                FieldValue::List(v) => r is Some && r.unwrap()@ == v@,
                _ => r is None,
            },
    {
        match self {
            FieldValue::List(v) => Some(v.as_slice()),
            _ => None,
        }
    }

    /// Returns the inner string if this is a date.
    pub fn as_date(&self) -> (r: Option<&String>)
        ensures
            match self {
                FieldValue::Date(s) => r == Some(s),
                _ => r is None,
            },
    {
        match self {
            FieldValue::Date(s) => Some(s),
            _ => None,
        }
    }
}

impl Clone for FieldValue {
    /// A copy holding the same texts, element by element for lists.
    fn clone(&self) -> (r: FieldValue)
        ensures
            same_value(r, *self),
    {
        self.duplicate()
    }
}

} // verus!
