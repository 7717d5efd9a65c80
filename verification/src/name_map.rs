//! A map from names to values that is walked in the order of the names.

use crate::text::encode_utf8_injective;
use vstd::prelude::*;
use vstd::utf8::encode_utf8;

verus! {

/// Whether `a` stands before `b` in the lexicographic order of bytes.
pub open spec fn bytes_before(a: Seq<u8>, b: Seq<u8>) -> bool
    decreases a.len(),
{
    if b.len() == 0 {
        false
    } else if a.len() == 0 {
        true
    } else if a[0] != b[0] {
        a[0] < b[0]
    } else {
        bytes_before(a.drop_first(), b.drop_first())
    }
}

/// Whether `a` stands before `b` in the order of names: that of the bytes of
/// their UTF-8 encodings.
pub open spec fn name_before(a: Seq<char>, b: Seq<char>) -> bool {
    bytes_before(encode_utf8(a), encode_utf8(b))
}

proof fn bytes_before_irreflexive(a: Seq<u8>)
    ensures
        !bytes_before(a, a),
    decreases a.len(),
{
    if a.len() > 0 {
        bytes_before_irreflexive(a.drop_first());
    }
}

proof fn bytes_before_transitive(a: Seq<u8>, b: Seq<u8>, c: Seq<u8>)
    requires
        bytes_before(a, b),
        bytes_before(b, c),
    ensures
        bytes_before(a, c),
    decreases a.len(),
{
    if a.len() > 0 && a[0] == b[0] && b[0] == c[0] {
        bytes_before_transitive(a.drop_first(), b.drop_first(), c.drop_first());
    }
}

/// The order of names is a strict order: no name stands before itself, and a
/// name that stands before a second, which stands before a third, stands before
/// the third.
pub proof fn name_before_is_strict(a: Seq<char>, b: Seq<char>, c: Seq<char>)
    ensures
        !name_before(a, a),
        name_before(a, b) && name_before(b, c) ==> name_before(a, c),
{
    bytes_before_irreflexive(encode_utf8(a));
    if name_before(a, b) && name_before(b, c) {
        bytes_before_transitive(encode_utf8(a), encode_utf8(b), encode_utf8(c));
    }
}

/// How two names stand to each other.
#[derive(Clone, Copy, Debug, PartialEq, Eq, Structural)]
enum Place {
    Before,
    Same,
    After,
}

/// How `a` stands to `b` in the order of names.
fn place(a: &str, b: &str) -> (place: Place)
    ensures
        match place {
            Place::Before => name_before(a@, b@),
            Place::Same => a@ == b@,
            Place::After => name_before(b@, a@),
        },
{
    let x = a.as_bytes();
    let y = b.as_bytes();
    let mut i: usize = 0;
    assert(x@.skip(0) =~= x@ && y@.skip(0) =~= y@);
    while i < x.len() && i < y.len() && x[i] == y[i]
        invariant
            i <= x@.len(),
            i <= y@.len(),
            x@ == encode_utf8(a@),
            y@ == encode_utf8(b@),
            x@.take(i as int) == y@.take(i as int),
            bytes_before(x@, y@) == bytes_before(x@.skip(i as int), y@.skip(i as int)),
            bytes_before(y@, x@) == bytes_before(y@.skip(i as int), x@.skip(i as int)),
        decreases x@.len() - i,
    {
        proof {
            assert(x@.skip(i as int).drop_first() =~= x@.skip(i + 1));
            assert(y@.skip(i as int).drop_first() =~= y@.skip(i + 1));
            assert(x@.take(i + 1) =~= x@.take(i as int).push(x@[i as int]));
            assert(y@.take(i + 1) =~= y@.take(i as int).push(y@[i as int]));
        }
        i = i + 1;
    }
    if i < x.len() {
        if i < y.len() {
            if x[i] < y[i] {
                Place::Before
            } else {
                Place::After
            }
        } else {
            Place::After
        }
    } else if i < y.len() {
        Place::Before
    } else {
        proof {
            assert(x@.take(i as int) =~= x@ && y@.take(i as int) =~= y@);
            encode_utf8_injective(a@, b@);
        }
        Place::Same
    }
}

/// A map from names to values, kept in the order of the names. No name stands
/// in it twice.
#[derive(Debug)]
pub struct NameMap<T: View> {
    entries: Vec<(String, T)>,
}

/// Whether the names of `entries` stand in strictly increasing order.
spec fn names_increase<T>(entries: Seq<(String, T)>) -> bool {
    forall|i: int, j: int|
        0 <= i < j < entries.len() ==> name_before(
            (#[trigger] entries[i]).0@,
            (#[trigger] entries[j]).0@,
        )
}

/// Whether `name` is the name of the entry at `i`.
spec fn stands_at<T>(entries: Seq<(String, T)>, name: Seq<char>, i: int) -> bool {
    0 <= i < entries.len() && entries[i].0@ == name
}

/// The map that `entries` write.
spec fn entries_map<T: View>(entries: Seq<(String, T)>) -> Map<Seq<char>, T::V> {
    Map::new(
        |name: Seq<char>| exists|i: int| stands_at(entries, name, i),
        |name: Seq<char>| entries[choose|i: int| stands_at(entries, name, i)].1@,
    )
}

proof fn entry_in_map<T: View>(entries: Seq<(String, T)>, i: int)
    requires
        names_increase(entries),
        0 <= i < entries.len(),
    ensures
        entries_map(entries).contains_key(entries[i].0@),
        entries_map(entries)[entries[i].0@] == entries[i].1@,
{
    let name = entries[i].0@;
    assert(stands_at(entries, name, i));
    let found = choose|k: int| stands_at(entries, name, k);
    name_before_is_strict(name, name, name);
    assert(found == i);
}

proof fn map_of_replaced<T: View>(
    entries: Seq<(String, T)>,
    i: int,
    name: String,
    value: T,
)
    requires
        names_increase(entries),
        0 <= i < entries.len(),
        entries[i].0@ == name@,
    ensures
        names_increase(entries.update(i, (name, value))),
        entries_map(entries.update(i, (name, value))) == entries_map(entries).insert(
            name@,
            value@,
        ),
{
    let after = entries.update(i, (name, value));
    let map = entries_map(entries).insert(name@, value@);
    assert forall|key: Seq<char>|
        #![trigger map.dom().contains(key)]
        #![trigger entries_map(after).dom().contains(key)]
        entries_map(after).dom().contains(key) == map.dom().contains(key) && (map.dom().contains(
            key,
        ) ==> entries_map(after)[key] == map[key]) by {
        if exists|k: int| stands_at(after, key, k) {
            let k = choose|k: int| stands_at(after, key, k);
            assert(stands_at(entries, key, k));
            entry_in_map(after, k);
            entry_in_map(entries, k);
            if key == name@ {
                assert(stands_at(after, key, i));
                entry_in_map(after, i);
            }
        } else if exists|k: int| stands_at(entries, key, k) {
            let k = choose|k: int| stands_at(entries, key, k);
            assert(stands_at(after, key, k));
        } else {
            assert(!stands_at(after, key, i));
        }
    }
    assert(entries_map(after) =~= map);
}

proof fn map_of_inserted<T: View>(
    entries: Seq<(String, T)>,
    i: int,
    name: String,
    value: T,
)
    requires
        names_increase(entries),
        0 <= i <= entries.len(),
        forall|j: int| 0 <= j < i ==> name_before((#[trigger] entries[j]).0@, name@),
        i < entries.len() ==> name_before(name@, entries[i].0@),
    ensures
        names_increase(entries.insert(i, (name, value))),
        entries_map(entries.insert(i, (name, value))) == entries_map(entries).insert(
            name@,
            value@,
        ),
{
    let after = entries.insert(i, (name, value));
    let map = entries_map(entries).insert(name@, value@);
    assert forall|j: int| i <= j < entries.len() implies name_before(
        name@,
        (#[trigger] entries[j]).0@,
    ) by {
        name_before_is_strict(name@, entries[i].0@, entries[j].0@);
    }
    assert forall|j: int, k: int| 0 <= j < k < after.len() implies name_before(
        (#[trigger] after[j]).0@,
        (#[trigger] after[k]).0@,
    ) by {
        let a = if j < i { j } else { j - 1 };
        let b = if k < i { k } else { k - 1 };
        if j != i {
            assert(after[j] == entries[a]);
        }
        if k != i {
            assert(after[k] == entries[b]);
        }
    }
    assert forall|key: Seq<char>|
        #![trigger map.dom().contains(key)]
        #![trigger entries_map(after).dom().contains(key)]
        entries_map(after).dom().contains(key) == map.dom().contains(key) && (map.dom().contains(
            key,
        ) ==> entries_map(after)[key] == map[key]) by {
        if key == name@ {
            assert(stands_at(after, key, i));
            entry_in_map(after, i);
        } else if exists|k: int| stands_at(after, key, k) {
            let k = choose|k: int| stands_at(after, key, k);
            let b = if k < i { k } else { k - 1 };
            assert(after[k] == entries[b]);
            assert(stands_at(entries, key, b));
            entry_in_map(after, k);
            entry_in_map(entries, b);
        } else if exists|k: int| stands_at(entries, key, k) {
            let k = choose|k: int| stands_at(entries, key, k);
            let b = if k < i { k } else { k + 1 };
            assert(after[b] == entries[k]);
            assert(stands_at(after, key, b));
        }
    }
    assert(entries_map(after) =~= map);
}

proof fn map_of_removed<T: View>(entries: Seq<(String, T)>, i: int)
    requires
        names_increase(entries),
        0 <= i < entries.len(),
    ensures
        names_increase(entries.remove(i)),
        entries_map(entries.remove(i)) == entries_map(entries).remove(entries[i].0@),
{
    let after = entries.remove(i);
    let gone = entries[i].0@;
    let map = entries_map(entries).remove(gone);
    assert forall|j: int, k: int| 0 <= j < k < after.len() implies name_before(
        (#[trigger] after[j]).0@,
        (#[trigger] after[k]).0@,
    ) by {
        let a = if j < i { j } else { j + 1 };
        let b = if k < i { k } else { k + 1 };
        assert(after[j] == entries[a] && after[k] == entries[b]);
    }
    assert forall|key: Seq<char>|
        #![trigger map.dom().contains(key)]
        #![trigger entries_map(after).dom().contains(key)]
        entries_map(after).dom().contains(key) == map.dom().contains(key) && (map.dom().contains(
            key,
        ) ==> entries_map(after)[key] == map[key]) by {
        name_before_is_strict(gone, gone, gone);
        if exists|k: int| stands_at(after, key, k) {
            let k = choose|k: int| stands_at(after, key, k);
            let b = if k < i { k } else { k + 1 };
            assert(after[k] == entries[b]);
            assert(stands_at(entries, key, b));
            entry_in_map(after, k);
            entry_in_map(entries, b);
        } else if exists|k: int| stands_at(entries, key, k) {
            let k = choose|k: int| stands_at(entries, key, k);
            if k != i {
                let b = if k < i { k } else { k - 1 };
                assert(after[b] == entries[k]);
                assert(stands_at(after, key, b));
            }
        }
    }
    assert(entries_map(after) =~= map);
}

/// Where `name` stands in `entries`, or where it would have to be put in.
fn find<T>(entries: &Vec<(String, T)>, name: &str) -> (found: (usize, bool))
    requires
        names_increase(entries@),
    ensures
        found.0 <= entries@.len(),
        forall|j: int| 0 <= j < found.0 ==> name_before((#[trigger] entries@[j]).0@, name@),
        found.1 ==> found.0 < entries@.len() && entries@[found.0 as int].0@ == name@,
        !found.1 && found.0 < entries@.len() ==> name_before(
            name@,
            entries@[found.0 as int].0@,
        ),
{
    let mut i: usize = 0;
    while i < entries.len()
        invariant
            i <= entries@.len(),
            forall|j: int| 0 <= j < i ==> name_before((#[trigger] entries@[j]).0@, name@),
        decreases entries@.len() - i,
    {
        match place(entries[i].0.as_str(), name) {
            Place::Before => {
                i = i + 1;
            },
            Place::Same => {
                return (i, true);
            },
            Place::After => {
                return (i, false);
            },
        }
    }
    (i, false)
}

/// A name that `find` did not find is in no entry.
proof fn not_found<T: View>(entries: Seq<(String, T)>, name: Seq<char>, i: int)
    requires
        names_increase(entries),
        0 <= i <= entries.len(),
        forall|j: int| 0 <= j < i ==> name_before((#[trigger] entries[j]).0@, name),
        i < entries.len() ==> name_before(name, entries[i].0@),
    ensures
        !entries_map(entries).contains_key(name),
{
    name_before_is_strict(name, name, name);
    if exists|k: int| stands_at(entries, name, k) {
        let k = choose|k: int| stands_at(entries, name, k);
        if k > i {
            name_before_is_strict(name, entries[i].0@, entries[k].0@);
        }
    }
}

impl<T: View> View for NameMap<T> {
    type V = Map<Seq<char>, T::V>;

    closed spec fn view(&self) -> Map<Seq<char>, T::V> {
        entries_map(self.entries@)
    }
}

impl<T: View> NameMap<T> {
    #[verifier::type_invariant]
    spec fn ordered(self) -> bool {
        names_increase(self.entries@)
    }

    /// The names of the map, in the order in which they are walked.
    pub closed spec fn names(self) -> Seq<Seq<char>> {
        self.entries@.map_values(|entry: (String, T)| entry.0@)
    }

    /// The map that holds nothing.
    pub fn new() -> (map: Self)
        ensures
            map@ == Map::<Seq<char>, T::V>::empty(),
    {
        let map = NameMap { entries: Vec::new() };
        assert(map@ =~= Map::<Seq<char>, T::V>::empty());
        map
    }

    /// The number of names in the map.
    pub fn len(&self) -> (n: usize)
        ensures
            n == self.names().len(),
            forall|i: int, j: int|
                0 <= i < j < self.names().len() ==> name_before(
                    #[trigger] self.names()[i],
                    #[trigger] self.names()[j],
                ),
            self@.dom() == self.names().to_set(),
    {
        proof {
            use_type_invariant(self);
            assert forall|name: Seq<char>| self@.dom().contains(name) == self.names().to_set().contains(name) by {
                if self@.dom().contains(name) {
                    let i = choose|i: int| stands_at(self.entries@, name, i);
                    assert(self.names()[i] == name);
                } else if self.names().contains(name) {
                    let i = choose|i: int| 0 <= i < self.names().len() && self.names()[i] == name;
                    assert(stands_at(self.entries@, name, i));
                }
            }
            assert(self@.dom() =~= self.names().to_set());
        }
        self.entries.len()
    }

    /// The value of `name`, where the map has one.
    pub fn get(&self, name: &str) -> (value: Option<&T>)
        ensures
            match value {
                Some(v) => self@.contains_key(name@) && self@[name@] == v@,
                None => !self@.contains_key(name@),
            },
    {
        proof {
            use_type_invariant(self);
        }
        let (i, present) = find(&self.entries, name);
        if present {
            proof {
                entry_in_map(self.entries@, i as int);
            }
            Some(&self.entries[i].1)
        } else {
            proof {
                not_found(self.entries@, name@, i as int);
            }
            None
        }
    }

    /// The entry at `place` in the order of the names.
    pub fn entry(&self, place: usize) -> (entry: (&str, &T))
        requires
            place < self.names().len(),
        ensures
            entry.0@ == self.names()[place as int],
            self@.contains_key(entry.0@),
            self@[entry.0@] == entry.1@,
    {
        proof {
            use_type_invariant(self);
            entry_in_map(self.entries@, place as int);
        }
        (self.entries[place].0.as_str(), &self.entries[place].1)
    }

    /// Gives `name` a value, in place of the value that it had.
    pub fn insert(&mut self, name: String, value: T)
        ensures
            final(self)@ == old(self)@.insert(name@, value@),
    {
        proof {
            use_type_invariant(&*self);
        }
        let mut entries: Vec<(String, T)> = Vec::new();
        std::mem::swap(&mut entries, &mut self.entries);
        let ghost before = entries@;
        let (i, present) = find(&entries, name.as_str());
        if present {
            proof {
                map_of_replaced(before, i as int, name, value);
                assert(before.remove(i as int).insert(i as int, (name, value)) =~= before.update(
                    i as int,
                    (name, value),
                ));
            }
            let _ = entries.remove(i);
            entries.insert(i, (name, value));
        } else {
            proof {
                map_of_inserted(before, i as int, name, value);
            }
            entries.insert(i, (name, value));
        }
        self.entries = entries;
    }

    /// Takes `name` and its value out of the map.
    pub fn remove(&mut self, name: &str) -> (value: Option<T>)
        ensures
            match value {
                Some(v) => {
                    &&& old(self)@.contains_key(name@)
                    &&& old(self)@[name@] == v@
                    &&& final(self)@ == old(self)@.remove(name@)
                },
                None => !old(self)@.contains_key(name@) && final(self)@ == old(self)@,
            },
    {
        proof {
            use_type_invariant(&*self);
        }
        let mut entries: Vec<(String, T)> = Vec::new();
        std::mem::swap(&mut entries, &mut self.entries);
        let ghost before = entries@;
        let (i, present) = find(&entries, name);
        if present {
            proof {
                map_of_removed(before, i as int);
                entry_in_map(before, i as int);
            }
            let (_, value) = entries.remove(i);
            self.entries = entries;
            Some(value)
        } else {
            proof {
                not_found(before, name@, i as int);
            }
            self.entries = entries;
            None
        }
    }
}

/// Entries with the same names and the same values in the same places write the
/// same map.
proof fn same_entries_same_map<T: View>(a: Seq<(String, T)>, b: Seq<(String, T)>)
    requires
        names_increase(a),
        names_increase(b),
        a.len() == b.len(),
        forall|i: int|
            #![trigger a[i]]
            #![trigger b[i]]
            0 <= i < a.len() ==> a[i].0@ == b[i].0@ && a[i].1@ == b[i].1@,
    ensures
        entries_map(a) == entries_map(b),
{
    let map = entries_map(a);
    let other = entries_map(b);
    assert forall|name: Seq<char>| map.dom().contains(name) == other.dom().contains(name) by {
        if map.dom().contains(name) {
            let i = choose|i: int| stands_at(a, name, i);
            assert(b[i].0@ == name);
            assert(stands_at(b, name, i));
        } else if other.dom().contains(name) {
            let i = choose|i: int| stands_at(b, name, i);
            assert(a[i].0@ == name);
            assert(stands_at(a, name, i));
        }
    }
    assert forall|name: Seq<char>| #[trigger] map.dom().contains(name) implies map[name]
        == other[name] by {
        let i = choose|i: int| stands_at(a, name, i);
        entry_in_map(a, i);
        entry_in_map(b, i);
    }
    assert(map =~= other);
}

impl Clone for NameMap<String> {
    fn clone(&self) -> (copy: Self)
        ensures
            copy@ == self@,
            copy.names() == self.names(),
    {
        proof {
            use_type_invariant(self);
        }
        let mut entries: Vec<(String, String)> = Vec::new();
        let mut i: usize = 0;
        while i < self.entries.len()
            invariant
                i <= self.entries@.len(),
                entries@.len() == i,
                forall|k: int|
                    0 <= k < i ==> (#[trigger] entries@[k]).0@ == self.entries@[k].0@
                        && entries@[k].1@ == self.entries@[k].1@,
            decreases self.entries@.len() - i,
        {
            let (name, value) = &self.entries[i];
            entries.push((name.clone(), value.clone()));
            i = i + 1;
        }
        proof {
            same_entries_same_map(self.entries@, entries@);
        }
        let copy = NameMap { entries };
        assert(copy.names() =~= self.names());
        copy
    }
}

} // verus!
