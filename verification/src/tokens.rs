//! Tables of named text values, as snapshots carry them.

use vstd::prelude::*;
use vstd::string::*;

use crate::compare::Alike;
use crate::text::same_text;

verus! {

/// A table of text values by name. Where a name is listed twice, the later
/// entry holds.
#[derive(Debug)]
pub struct Tokens {
    pub entries: Vec<(String, String)>,
}

/// The map that a list of entries stands for.
pub open spec fn token_map(entries: Seq<(String, String)>) -> Map<Seq<char>, Seq<char>>
    decreases entries.len(),
{
    if entries.len() == 0 {
        Map::empty()
    } else {
        token_map(entries.drop_last()).insert(entries.last().0@, entries.last().1@)
    }
}

impl View for Tokens {
    type V = Map<Seq<char>, Seq<char>>;

    open spec fn view(&self) -> Map<Seq<char>, Seq<char>> {
        token_map(self.entries@)
    }
}

/// A name is in the map where an entry has it, and the last such entry holds
/// its value.
proof fn lemma_last_entry_holds(entries: Seq<(String, String)>, i: int)
    requires
        0 <= i < entries.len(),
        forall|j: int| i < j < entries.len() ==> (#[trigger] entries[j]).0@ != entries[i].0@,
    ensures
        token_map(entries).contains_key(entries[i].0@),
        token_map(entries)[entries[i].0@] == entries[i].1@,
    decreases entries.len(),
{
    if i < entries.len() - 1 {
        assert(entries[entries.len() - 1].0@ != entries[i].0@);
        lemma_last_entry_holds(entries.drop_last(), i);
    }
}

proof fn lemma_absent_name(entries: Seq<(String, String)>, key: Seq<char>)
    requires
        forall|j: int| 0 <= j < entries.len() ==> (#[trigger] entries[j]).0@ != key,
    ensures
        !token_map(entries).contains_key(key),
    decreases entries.len(),
{
    if entries.len() > 0 {
        assert(entries[entries.len() - 1].0@ != key);
        lemma_absent_name(entries.drop_last(), key);
    }
}

proof fn lemma_replace_entry(entries: Seq<(String, String)>, i: int, entry: (String, String))
    requires
        0 <= i < entries.len(),
        entries[i].0@ == entry.0@,
        forall|j: int| i < j < entries.len() ==> (#[trigger] entries[j]).0@ != entry.0@,
    ensures
        token_map(entries.update(i, entry)) == token_map(entries).insert(entry.0@, entry.1@),
    decreases entries.len(),
{
    let updated = entries.update(i, entry);
    if i == entries.len() - 1 {
        assert(updated.drop_last() =~= entries.drop_last());
    } else {
        assert(entries[entries.len() - 1].0@ != entry.0@);
        lemma_replace_entry(entries.drop_last(), i, entry);
        assert(updated.drop_last() =~= entries.drop_last().update(i, entry));
    }
    assert(token_map(updated) =~= token_map(entries).insert(entry.0@, entry.1@));
}

proof fn lemma_names_have_entries(entries: Seq<(String, String)>, key: Seq<char>)
    requires
        token_map(entries).contains_key(key),
    ensures
        exists|i: int| 0 <= i < entries.len() && (#[trigger] entries[i]).0@ == key,
{
    if forall|i: int| 0 <= i < entries.len() ==> (#[trigger] entries[i]).0@ != key {
        lemma_absent_name(entries, key);
    }
}

impl Tokens {
    /// An empty table.
    pub fn new() -> (r: Self)
        ensures
            r@ == Map::<Seq<char>, Seq<char>>::empty(),
    {
        Tokens { entries: Vec::new() }
    }

    /// The position of the entry that holds a name's value.
    fn position(&self, key: &str) -> (r: Option<usize>)
        ensures
            match r {
                Some(i) => {
                    &&& i < self.entries@.len()
                    &&& self.entries@[i as int].0@ == key@
                    &&& forall|j: int|
                        i < j < self.entries@.len() ==> (#[trigger] self.entries@[j]).0@ != key@
                },
                None => forall|j: int|
                    0 <= j < self.entries@.len() ==> (#[trigger] self.entries@[j]).0@ != key@,
            },
    {
        let mut i: usize = self.entries.len();
        while i > 0
            invariant
                i <= self.entries@.len(),
                forall|j: int|
                    i <= j < self.entries@.len() ==> (#[trigger] self.entries@[j]).0@ != key@,
            decreases i,
        {
            i -= 1;
            if same_text(self.entries[i].0.as_str(), key) {
                return Some(i);
            }
        }
        None
    }

    /// The value of a name.
    pub fn get(&self, key: &str) -> (r: Option<&String>)
        ensures
            match r {
                Some(v) => self@.contains_key(key@) && v@ == self@[key@],
                None => !self@.contains_key(key@),
            },
    {
        match self.position(key) {
            Some(i) => {
                proof {
                    lemma_last_entry_holds(self.entries@, i as int);
                }
                Some(&self.entries[i].1)
            },
            None => {
                proof {
                    lemma_absent_name(self.entries@, key@);
                }
                None
            },
        }
    }

    /// Gives a name a value, in place of the one it had.
    pub fn insert(&mut self, key: String, value: String)
        ensures
            final(self)@ == old(self)@.insert(key@, value@),
    {
        let ghost before = self.entries@;
        match self.position(key.as_str()) {
            Some(i) => {
                proof {
                    lemma_replace_entry(before, i as int, (key, value));
                }
                self.entries[i] = (key, value);
            },
            None => {
                self.entries.push((key, value));
                assert(self.entries@.drop_last() =~= before);
            },
        }
    }

    /// A copy of the table.
    pub fn copy(&self) -> (r: Self)
        ensures
            r@ == self@,
    {
        let mut entries: Vec<(String, String)> = Vec::new();
        let mut i: usize = 0;
        while i < self.entries.len()
            invariant
                i <= self.entries@.len(),
                entries@ == self.entries@.take(i as int),
            decreases self.entries@.len() - i,
        {
            entries.push((self.entries[i].0.clone(), self.entries[i].1.clone()));
            i += 1;
            assert(entries@ =~= self.entries@.take(i as int));
        }
        assert(self.entries@.take(i as int) =~= self.entries@);
        Tokens { entries }
    }

    /// Whether every name of this table has the same value in `other`.
    fn within(&self, other: &Self) -> (r: bool)
        ensures
            r == (forall|key: Seq<char>| #[trigger]
                self@.contains_key(key) ==> other@.contains_key(key) && other@[key] == self@[key]),
    {
        let mut i: usize = 0;
        while i < self.entries.len()
            invariant
                i <= self.entries@.len(),
                forall|j: int|
                    0 <= j < i ==> {
                        let key = (#[trigger] self.entries@[j]).0@;
                        other@.contains_key(key) && other@[key] == self@[key]
                    },
            decreases self.entries@.len() - i,
        {
            let key = self.entries[i].0.as_str();
            let same: bool = match (self.get(key), other.get(key)) {
                (Some(a), Some(b)) => same_text(a.as_str(), b.as_str()),
                _ => false,
            };
            proof {
                if !self@.contains_key(key@) {
                    lemma_entries_have_names(self.entries@, i as int);
                }
            }
            if !same {
                return false;
            }
            i += 1;
        }
        assert forall|key: Seq<char>| #[trigger] self@.contains_key(key) implies other@.contains_key(
            key,
        ) && other@[key] == self@[key] by {
            lemma_names_have_entries(self.entries@, key);
        }
        true
    }
}

proof fn lemma_entries_have_names(entries: Seq<(String, String)>, i: int)
    requires
        0 <= i < entries.len(),
    ensures
        token_map(entries).contains_key(entries[i].0@),
    decreases entries.len(),
{
    if i < entries.len() - 1 {
        lemma_entries_have_names(entries.drop_last(), i);
    }
}

impl Alike for Tokens {
    fn alike(&self, other: &Self) -> (r: bool) {
        let r: bool = self.within(other) && other.within(self);
        proof {
            if r {
                assert forall|key: Seq<char>| self@.contains_key(key) == other@.contains_key(
                    key,
                ) by {
                    if self@.contains_key(key) {
                        assert(other@.contains_key(key));
                    }
                    if other@.contains_key(key) {
                        assert(self@.contains_key(key));
                    }
                }
                assert(self@ =~= other@);
            }
        }
        r
    }
}

/// A table with the values of another set in it.
pub open spec fn patched(
    target: Map<Seq<char>, Seq<char>>,
    values: Map<Seq<char>, Seq<char>>,
) -> Map<Seq<char>, Seq<char>> {
    target.union_prefer_right(values)
}

/// Sets every value of `values` in `target`, and leaves the other names of
/// `target` as they were.
pub fn patch_metadata_tokens(target: &mut Tokens, values: &Tokens)
    ensures
        final(target)@ == patched(old(target)@, values@),
{
    let mut i: usize = 0;
    let ghost before = target@;
    assert(before.union_prefer_right(token_map(values.entries@.take(0))) =~= before);
    while i < values.entries.len()
        invariant
            i <= values.entries@.len(),
            target@ == before.union_prefer_right(token_map(values.entries@.take(i as int))),
        decreases values.entries@.len() - i,
    {
        target.insert(values.entries[i].0.clone(), values.entries[i].1.clone());
        proof {
            let next = values.entries@.take(i + 1);
            assert(next.drop_last() =~= values.entries@.take(i as int));
            assert(target@ =~= before.union_prefer_right(token_map(next)));
        }
        i += 1;
    }
    assert(values.entries@.take(i as int) =~= values.entries@);
}

/// A name has the value of the last entry that has it, and no value where no entry
/// does.
pub proof fn law_later_entries_hold(entries: Seq<(String, String)>, key: Seq<char>, i: int)
    requires
        -1 <= i < entries.len(),
        i >= 0 ==> entries[i].0@ == key,
        forall|j: int| i < j < entries.len() ==> (#[trigger] entries[j]).0@ != key,
    ensures
        i >= 0 ==> token_map(entries).contains_key(key) && token_map(entries)[key]
            == entries[i].1@,
        i < 0 ==> !token_map(entries).contains_key(key),
{
    if i >= 0 {
        lemma_last_entry_holds(entries, i);
    } else {
        lemma_absent_name(entries, key);
    }
}

/// Patching gives each name of the values its value there, and leaves every other
/// name as it was.
pub proof fn law_patched_values_win(
    target: Map<Seq<char>, Seq<char>>,
    values: Map<Seq<char>, Seq<char>>,
    key: Seq<char>,
)
    ensures
        ({
            let after = patched(target, values);
            &&& values.contains_key(key) ==> after.contains_key(key) && after[key] == values[key]
            &&& !values.contains_key(key) && target.contains_key(key) ==> after.contains_key(key)
                && after[key] == target[key]
            &&& !values.contains_key(key) && !target.contains_key(key) ==> !after.contains_key(key)
        }),
{
}

} // verus!
