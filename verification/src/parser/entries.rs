//! Lists of named values that are compared without regard to the order of
//! their names.

use crate::parser::value::{equal_values, field_views, value_views, Value, ValueModel};
use std::slice::Iter;
use vstd::prelude::*;
use vstd::std_specs::slice::into_iter_elts;

verus! {

/// Named values whose order counts only among those of one name.
#[derive(Debug)]
pub struct Entries {
    data: Vec<(String, Value)>,
}

/// The values under `key` among the entries from position `i` on, in order.
pub open spec fn values_under(s: Seq<(Seq<char>, ValueModel)>, key: Seq<char>, i: int) -> Seq<
    ValueModel,
>
    decreases s.len() - i,
{
    if i < 0 || i >= s.len() {
        Seq::empty()
    } else if s[i].0 == key {
        seq![s[i].1] + values_under(s, key, i + 1)
    } else {
        values_under(s, key, i + 1)
    }
}

/// Whether two sequences of entries hold, under every name, the same
/// values in the same order: they are the same once each is sorted by
/// name with entries of one name left in their order.
pub open spec fn same_entries(a: Seq<(Seq<char>, ValueModel)>, b: Seq<(Seq<char>, ValueModel)>) -> bool {
    forall|key: Seq<char>| #[trigger] values_under(a, key, 0) == values_under(b, key, 0)
}

/// Where no entry from position `i` on has the name `key`, nothing is under it.
proof fn lemma_nothing_under(s: Seq<(Seq<char>, ValueModel)>, key: Seq<char>, i: int)
    requires
        0 <= i,
        forall|j: int| i <= j < s.len() ==> (#[trigger] s[j]).0 != key,
    ensures
        values_under(s, key, i) == Seq::<ValueModel>::empty(),
    decreases s.len() - i,
{
    if i < s.len() {
        lemma_nothing_under(s, key, i + 1);
    }
}

/// The values under `key`, in order.
#[verifier::loop_isolation(false)]
fn under(data: &Vec<(String, Value)>, key: &String) -> (r: Vec<Value>)
    ensures
        value_views(r@) == values_under(field_views(data@), key@, 0),
{
    let ghost s = field_views(data@);
    let mut out: Vec<Value> = Vec::new();
    let mut i: usize = 0;
    assert(value_views(out@) + values_under(s, key@, 0) =~= values_under(s, key@, 0));
    while i < data.len()
        invariant
            i <= data.len(),
            values_under(s, key@, 0) == value_views(out@) + values_under(s, key@, i as int),
        decreases data.len() - i,
    {
        assert(s[i as int] == (data[i as int].0@, data[i as int].1@));
        if data[i].0 == *key {
            let ghost before = value_views(out@);
            let ghost rest = values_under(s, key@, i + 1);
            out.push(data[i].1.clone());
            assert(value_views(out@) =~= before.push(data[i as int].1@));
            assert(before + (seq![data[i as int].1@] + rest) =~= before.push(data[i as int].1@)
                + rest);
        }
        i += 1;
    }
    assert(value_views(out@) + Seq::<ValueModel>::empty() =~= value_views(out@));
    out
}

/// Tells whether two lists of entries hold the same values under `key`.
fn agree(a: &Vec<(String, Value)>, b: &Vec<(String, Value)>, key: &String) -> (r: bool)
    ensures
        r == (values_under(field_views(a@), key@, 0) == values_under(field_views(b@), key@, 0)),
{
    let left = under(a, key);
    let right = under(b, key);
    equal_values(&left, &right)
}

impl View for Entries {
    type V = Seq<(Seq<char>, ValueModel)>;

    closed spec fn view(&self) -> Seq<(Seq<char>, ValueModel)> {
        field_views(self.data@)
    }
}

impl Entries {
    /// The entries as they were given.
    pub closed spec fn items(&self) -> Seq<(String, Value)> {
        self.data@
    }

    /// The entries of a list.
    pub fn new(data: Vec<(String, Value)>) -> (r: Self)
        ensures
            r.items() == data@,
            r@ == field_views(data@),
    {
        Self { data }
    }

    /// The entries, one after the other, in the order in which they were given.
    pub fn iter(&self) -> (r: Iter<'_, (String, Value)>)
        ensures
            into_iter_elts(r) == self.items(),
    {
        let r = self.data.iter();
        assert(into_iter_elts(r) =~= self.data@);
        r
    }

    /// Tells whether these entries and the others hold, under every name,
    /// the same values in the same order.
    #[verifier::loop_isolation(false)]
    pub fn equals(&self, other: &Entries) -> (same: bool)
        ensures
            same == same_entries(self@, other@),
    {
        let ghost a = field_views(self.data@);
        let ghost b = field_views(other.data@);
        let mut i: usize = 0;
        while i < self.data.len()
            invariant
                i <= self.data.len(),
                forall|j: int|
                    0 <= j < i ==> values_under(a, (#[trigger] a[j]).0, 0) == values_under(
                        b,
                        a[j].0,
                        0,
                    ),
            decreases self.data.len() - i,
        {
            assert(a[i as int].0 == self.data[i as int].0@);
            if !agree(&self.data, &other.data, &self.data[i].0) {
                return false;
            }
            i += 1;
        }
        let mut k: usize = 0;
        while k < other.data.len()
            invariant
                k <= other.data.len(),
                forall|j: int|
                    0 <= j < k ==> values_under(a, (#[trigger] b[j]).0, 0) == values_under(
                        b,
                        b[j].0,
                        0,
                    ),
            decreases other.data.len() - k,
        {
            assert(b[k as int].0 == other.data[k as int].0@);
            if !agree(&self.data, &other.data, &other.data[k].0) {
                return false;
            }
            k += 1;
        }
        assert forall|key: Seq<char>| #[trigger]
            values_under(a, key, 0) == values_under(b, key, 0) by {
            if exists|j: int| 0 <= j < a.len() && (#[trigger] a[j]).0 == key {
                let j = choose|j: int| 0 <= j < a.len() && (#[trigger] a[j]).0 == key;
                assert(values_under(a, a[j].0, 0) == values_under(b, a[j].0, 0));
            } else if exists|j: int| 0 <= j < b.len() && (#[trigger] b[j]).0 == key {
                let j = choose|j: int| 0 <= j < b.len() && (#[trigger] b[j]).0 == key;
                assert(values_under(a, b[j].0, 0) == values_under(b, b[j].0, 0));
            } else {
                lemma_nothing_under(a, key, 0);
                lemma_nothing_under(b, key, 0);
            }
        }
        true
    }
}

} // verus!
