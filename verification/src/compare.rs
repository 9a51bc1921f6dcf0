//! Comparison of values by what they hold.

use vstd::prelude::*;
use vstd::string::*;

use crate::text::same_text;

verus! {

/// A value that can be compared with another by its model.
pub trait Alike: View + Sized {
    /// Whether both hold the same.
    fn alike(&self, other: &Self) -> (r: bool)
        ensures
            r == (self@ == other@),
    ;
}

impl Alike for String {
    fn alike(&self, other: &Self) -> (r: bool) {
        same_text(self.as_str(), other.as_str())
    }
}

/// The models of a sequence of values.
pub open spec fn views<T: View>(s: Seq<T>) -> Seq<T::V> {
    s.map_values(|x: T| x@)
}

/// The models of a sequence in which one value was replaced.
pub(crate) proof fn lemma_views_update<T: View>(before: Seq<T>, after: Seq<T>, index: int)
    requires
        0 <= index < before.len(),
        after.len() == before.len(),
        forall|i: int| 0 <= i < before.len() && i != index ==> after[i] == before[i],
    ensures
        views(after) == views(before).update(index, after[index]@),
{
    assert(views(after) =~= views(before).update(index, after[index]@));
}

/// The model of an optional value.
pub open spec fn opt_view<T: View>(o: Option<T>) -> Option<T::V> {
    match o {
        Some(x) => Some(x@),
        None => None,
    }
}

/// The model of a value, or the text of what stands in its way.
pub open spec fn result_view<T: View>(r: Result<T, String>) -> Result<T::V, Seq<char>> {
    match r {
        Ok(x) => Ok(x@),
        Err(e) => Err(e@),
    }
}

/// The text of an optional string.
pub open spec fn opt_text(o: Option<String>) -> Option<Seq<char>> {
    match o {
        Some(s) => Some(s@),
        None => None,
    }
}

/// Whether two vectors hold the same values in the same order.
pub fn all_alike<T: Alike>(a: &Vec<T>, b: &Vec<T>) -> (r: bool)
    ensures
        r == (views(a@) == views(b@)),
{
    if a.len() != b.len() {
        assert(views(a@).len() != views(b@).len());
        return false;
    }
    let mut i: usize = 0;
    while i < a.len()
        invariant
            a@.len() == b@.len(),
            i <= a@.len(),
            forall|j: int| 0 <= j < i ==> (#[trigger] a@[j])@ == b@[j]@,
        decreases a@.len() - i,
    {
        if !a[i].alike(&b[i]) {
            assert(views(a@)[i as int] != views(b@)[i as int]);
            return false;
        }
        i += 1;
    }
    assert(views(a@) =~= views(b@));
    true
}

/// Whether two optional strings are both absent, or hold the same text.
pub fn same_option_text(a: &Option<String>, b: &Option<String>) -> (r: bool)
    ensures
        r == (opt_text(*a) == opt_text(*b)),
{
    match (a, b) {
        (Some(x), Some(y)) => same_text(x.as_str(), y.as_str()),
        (None, None) => true,
        _ => false,
    }
}

/// Whether an optional string holds the given text.
pub fn option_is_text(a: &Option<String>, text: &str) -> (r: bool)
    ensures
        r == (opt_text(*a) == Some(text@)),
{
    match a {
        Some(x) => same_text(x.as_str(), text),
        None => false,
    }
}

/// A copy of an optional string.
pub fn copy_option_text(a: &Option<String>) -> (r: Option<String>)
    ensures
        r == *a,
{
    match a {
        Some(x) => Some(x.clone()),
        None => None,
    }
}

/// The first of two optional values that is present.
pub open spec fn first_present<T>(a: Option<T>, b: Option<T>) -> Option<T> {
    if a is Some {
        a
    } else {
        b
    }
}

/// A copy of the first of two optional strings that is present.
pub fn first_option_text(a: &Option<String>, b: &Option<String>) -> (r: Option<String>)
    ensures
        r == first_present(*a, *b),
{
    match a {
        Some(x) => Some(x.clone()),
        None => copy_option_text(b),
    }
}

} // verus!
