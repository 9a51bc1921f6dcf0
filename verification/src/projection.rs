//! Stable identities for the panes of remote instances.

use vstd::prelude::*;
use vstd::string::*;

use crate::frame::texts;
use crate::text::same_text;

verus! {

/// The identity under which the sidebar keeps a terminal.
#[derive(Debug, Clone, Copy, PartialEq, Eq, Structural)]
pub struct TerminalId {
    pub number: usize,
}

/// The identity under which the sidebar keeps a pane.
#[derive(Debug, Clone, Copy, PartialEq, Eq, Structural)]
pub struct PaneId {
    pub number: usize,
}

/// The keys that have an identity so far. The number of a key is the place at
/// which it was first listed, so a key keeps its number for good.
#[derive(Debug)]
pub struct Projection {
    pub keys: Vec<String>,
}

impl View for Projection {
    type V = Seq<Seq<char>>;

    open spec fn view(&self) -> Seq<Seq<char>> {
        texts(self.keys@)
    }
}

/// The place of the first key equal to `key`; the number of keys where there
/// is none.
pub open spec fn key_number(keys: Seq<Seq<char>>, key: Seq<char>) -> nat
    decreases keys.len(),
{
    if keys.len() == 0 || keys[0] == key {
        0
    } else {
        1 + key_number(keys.skip(1), key)
    }
}

/// The keys after `key` was asked for.
pub open spec fn with_key(keys: Seq<Seq<char>>, key: Seq<char>) -> Seq<Seq<char>> {
    if keys.contains(key) {
        keys
    } else {
        keys.push(key)
    }
}

/// The keys after each of `added` was asked for, in order.
pub open spec fn with_keys(keys: Seq<Seq<char>>, added: Seq<Seq<char>>) -> Seq<Seq<char>>
    decreases added.len(),
{
    if added.len() == 0 {
        keys
    } else {
        with_key(with_keys(keys, added.drop_last()), added.last())
    }
}

pub(crate) proof fn lemma_key_number(keys: Seq<Seq<char>>, key: Seq<char>, i: int)
    requires
        0 <= i <= keys.len(),
        forall|j: int| 0 <= j < i ==> keys[j] != key,
        i < keys.len() ==> keys[i] == key,
    ensures
        key_number(keys, key) == i,
    decreases i,
{
    if i > 0 {
        assert(keys[0] != key);
        assert forall|j: int| 0 <= j < i - 1 implies keys.skip(1)[j] != key by {
            assert(keys.skip(1)[j] == keys[j + 1]);
        }
        lemma_key_number(keys.skip(1), key, i - 1);
    }
}

pub(crate) proof fn lemma_key_number_found(keys: Seq<Seq<char>>, key: Seq<char>)
    requires
        keys.contains(key),
    ensures
        key_number(keys, key) < keys.len(),
        keys[key_number(keys, key) as int] == key,
        forall|j: int| 0 <= j < key_number(keys, key) ==> keys[j] != key,
    decreases keys.len(),
{
    if keys[0] != key {
        let i = choose|i: int| 0 <= i < keys.len() && keys[i] == key;
        assert(keys.skip(1)[i - 1] == key);
        lemma_key_number_found(keys.skip(1), key);
        assert forall|j: int| 0 <= j < key_number(keys, key) implies keys[j] != key by {
            if j > 0 {
                assert(keys.skip(1)[j - 1] == keys[j]);
            }
        }
    }
}

/// Asking for a key leaves the number of every key that had one as it was.
pub proof fn law_key_numbers_are_stable(keys: Seq<Seq<char>>, added: Seq<Seq<char>>, key: Seq<char>)
    requires
        keys.contains(key),
    ensures
        with_keys(keys, added).contains(key),
        key_number(with_keys(keys, added), key) == key_number(keys, key),
    decreases added.len(),
{
    if added.len() > 0 {
        law_key_numbers_are_stable(keys, added.drop_last(), key);
        let before = with_keys(keys, added.drop_last());
        let after = with_key(before, added.last());
        lemma_key_number_found(before, key);
        let i = key_number(before, key) as int;
        assert(after[i] == key);
        assert forall|j: int| 0 <= j < i implies after[j] != key by {
            assert(after[j] == before[j]);
        }
        lemma_key_number(after, key, i);
    }
}

/// Two keys with the same number are the same key.
pub proof fn law_key_numbers_are_distinct(keys: Seq<Seq<char>>, a: Seq<char>, b: Seq<char>)
    requires
        keys.contains(a),
        keys.contains(b),
        key_number(keys, a) == key_number(keys, b),
    ensures
        a == b,
{
    lemma_key_number_found(keys, a);
    lemma_key_number_found(keys, b);
}

/// Every key that was asked for has a number.
pub proof fn law_asked_keys_have_numbers(
    keys: Seq<Seq<char>>,
    added: Seq<Seq<char>>,
    key: Seq<char>,
)
    requires
        added.contains(key),
    ensures
        with_keys(keys, added).contains(key),
    decreases added.len(),
{
    let before = with_keys(keys, added.drop_last());
    if key == added.last() {
        if !before.contains(key) {
            assert(before.push(key)[before.len() as int] == key);
        }
    } else {
        let i = choose|i: int| 0 <= i < added.len() && added[i] == key;
        assert(added.drop_last()[i] == key);
        law_asked_keys_have_numbers(keys, added.drop_last(), key);
        let j = choose|j: int| 0 <= j < before.len() && before[j] == key;
        assert(with_key(before, added.last())[j] == key);
    }
}

proof fn lemma_known_keys_add_none(keys: Seq<Seq<char>>, added: Seq<Seq<char>>)
    requires
        forall|i: int| 0 <= i < added.len() ==> keys.contains(#[trigger] added[i]),
    ensures
        with_keys(keys, added) == keys,
    decreases added.len(),
{
    if added.len() > 0 {
        assert forall|i: int| 0 <= i < added.drop_last().len() implies keys.contains(
            #[trigger] added.drop_last()[i],
        ) by {
            assert(added.drop_last()[i] == added[i]);
        }
        lemma_known_keys_add_none(keys, added.drop_last());
        assert(keys.contains(added[added.len() - 1]));
    }
}

/// Asking for the same keys again adds none.
pub proof fn law_asking_again_adds_nothing(keys: Seq<Seq<char>>, added: Seq<Seq<char>>)
    ensures
        with_keys(with_keys(keys, added), added) == with_keys(keys, added),
{
    assert forall|i: int| 0 <= i < added.len() implies with_keys(keys, added).contains(
        #[trigger] added[i],
    ) by {
        law_asked_keys_have_numbers(keys, added, added[i]);
    }
    lemma_known_keys_add_none(with_keys(keys, added), added);
}

impl Projection {
    /// No key has an identity yet.
    pub fn new() -> (r: Self)
        ensures
            r@ == Seq::<Seq<char>>::empty(),
    {
        let r = Projection { keys: Vec::new() };
        assert(r@ =~= Seq::empty());
        r
    }

    /// The number of a key.
    pub fn number_of(&self, key: &str) -> (r: usize)
        ensures
            r == key_number(self@, key@),
            r < self@.len() <==> self@.contains(key@),
    {
        let mut i: usize = 0;
        while i < self.keys.len()
            invariant
                i <= self.keys@.len(),
                forall|j: int| 0 <= j < i ==> self@[j] != key@,
            decreases self.keys@.len() - i,
        {
            if same_text(self.keys[i].as_str(), key) {
                assert(self@[i as int] == key@);
                proof {
                    lemma_key_number(self@, key@, i as int);
                }
                return i;
            }
            i += 1;
        }
        proof {
            lemma_key_number(self@, key@, i as int);
        }
        i
    }

    /// Gives a key an identity, where it has none.
    pub fn ask(&mut self, key: String)
        ensures
            final(self)@ == with_key(old(self)@, key@),
    {
        if self.number_of(key.as_str()) >= self.keys.len() {
            self.keys.push(key);
            assert(self@ =~= old(self)@.push(key@));
        }
    }
}

/// Keys keep their places, and new ones come behind them. Nothing is listed that
/// was neither known nor asked for, and nothing new is listed twice.
pub proof fn law_new_keys_come_last(keys: Seq<Seq<char>>, added: Seq<Seq<char>>)
    ensures
        ({
            let after = with_keys(keys, added);
            &&& after.len() >= keys.len()
            &&& after.take(keys.len() as int) == keys
            &&& forall|i: int|
                keys.len() <= i < after.len() ==> added.contains(#[trigger] after[i])
                    && !keys.contains(after[i])
            &&& forall|i: int, j: int|
                0 <= i < j < after.len() && j >= keys.len() ==> #[trigger] after[i]
                    != #[trigger] after[j]
        }),
    decreases added.len(),
{
    let after = with_keys(keys, added);
    if added.len() == 0 {
        assert(after.take(keys.len() as int) =~= keys);
    } else {
        let front = added.drop_last();
        let before = with_keys(keys, front);
        let last = added.last();
        law_new_keys_come_last(keys, front);
        assert(added[added.len() - 1] == last);
        assert forall|i: int| keys.len() <= i < after.len() implies added.contains(
            #[trigger] after[i],
        ) && !keys.contains(after[i]) by {
            if i < before.len() {
                assert(after[i] == before[i]);
                let k = choose|k: int| 0 <= k < front.len() && front[k] == before[i];
                assert(added[k] == before[i]);
            } else if keys.contains(last) {
                let k = choose|k: int| 0 <= k < keys.len() && keys[k] == last;
                assert(before.take(keys.len() as int)[k] == last);
                assert(before[k] == last);
            }
        }
        assert forall|i: int, j: int|
            0 <= i < j < after.len() && j >= keys.len() implies #[trigger] after[i]
            != #[trigger] after[j] by {
            assert(after[i] == before[i]);
            if j < before.len() {
                assert(after[j] == before[j]);
            } else {
                assert(!before.contains(last));
            }
        }
        assert(after.take(keys.len() as int) =~= keys) by {
            assert forall|i: int| 0 <= i < keys.len() implies after[i] == keys[i] by {
                assert(after[i] == before[i]);
                assert(before.take(keys.len() as int)[i] == before[i]);
            }
        }
    }
}

/// The number of a key is the place where it is first listed.
pub proof fn law_numbers_are_places(keys: Seq<Seq<char>>, key: Seq<char>, i: int)
    requires
        0 <= i < keys.len(),
        keys[i] == key,
        forall|j: int| 0 <= j < i ==> keys[j] != key,
    ensures
        key_number(keys, key) == i,
{
    lemma_key_number(keys, key, i);
}

} // verus!
