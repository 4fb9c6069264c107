//! The mapping from field names to raw field values that a renderer reads.

use vstd::prelude::*;

verus! {

/// A finite mapping from field names to field values.
///
/// The entries are kept in a vector in which no name occurs twice, so the
/// order of insertion never shows in the mapping that the value stands for.
pub struct FieldMap {
    entries: Vec<(String, String)>,
}

/// Whether `i` is the position of an entry named `name`.
spec fn holds_at(entries: Seq<(String, String)>, name: Seq<char>, i: int) -> bool {
    0 <= i < entries.len() && entries[i].0@ == name
}

/// No two entries share a name.
spec fn distinct_names(entries: Seq<(String, String)>) -> bool {
    forall|i: int, j: int|
        0 <= i < entries.len() && 0 <= j < entries.len() && #[trigger] entries[i].0@
            == #[trigger] entries[j].0@ ==> i == j
}

/// The mapping that a sequence of entries stands for.
spec fn mapping_of(entries: Seq<(String, String)>) -> Map<Seq<char>, Seq<char>> {
    Map::new(
        |name: Seq<char>| exists|i: int| holds_at(entries, name, i),
        |name: Seq<char>| entries[choose|i: int| holds_at(entries, name, i)].1@,
    )
}

/// Position of the entry named `name`, if there is one.
fn position_in(entries: &Vec<(String, String)>, name: &str) -> (r: Option<usize>)
    ensures
        match r {
            Some(i) => holds_at(entries@, name@, i as int),
            None => forall|i: int| !holds_at(entries@, name@, i),
        },
{
    let wanted: String = name.to_owned();
    let mut i: usize = 0;
    while i < entries.len()
        invariant
            i <= entries.len(),
            wanted@ == name@,
            forall|j: int| 0 <= j < i ==> !holds_at(entries@, name@, j),
        decreases entries.len() - i,
    {
        if entries[i].0 == wanted {
            return Some(i);
        }
        i += 1;
    }
    None
}

impl View for FieldMap {
    type V = Map<Seq<char>, Seq<char>>;

    closed spec fn view(&self) -> Map<Seq<char>, Seq<char>> {
        mapping_of(self.entries@)
    }
}

impl FieldMap {
    #[verifier::type_invariant]
    spec fn well_formed(&self) -> bool {
        distinct_names(self.entries@)
    }

    /// Makes an empty mapping.
    pub fn new() -> (m: FieldMap)
        ensures
            m@ == Map::<Seq<char>, Seq<char>>::empty(),
    {
        let m = FieldMap { entries: Vec::new() };
        assert(m@ =~= Map::<Seq<char>, Seq<char>>::empty());
        m
    }

    /// Looks up the value stored under `name`.
    pub fn get(&self, name: &str) -> (r: Option<&String>)
        ensures
            match r {
                Some(value) => self@.contains_key(name@) && value@ == self@[name@],
                None => !self@.contains_key(name@),
            },
    {
        proof {
            use_type_invariant(self);
        }
        match position_in(&self.entries, name) {
            Some(i) => {
                assert(holds_at(self.entries@, name@, i as int));
                Some(&self.entries[i].1)
            },
            None => None,
        }
    }

    /// Stores `value` under `name` and hands back the value that `name` had
    /// before, if it had one.
    pub fn insert(&mut self, name: String, value: String) -> (r: Option<String>)
        ensures
            final(self)@ == old(self)@.insert(name@, value@),
            match r {
                Some(previous) => old(self)@.contains_key(name@) && previous@ == old(self)@[name@],
                None => !old(self)@.contains_key(name@),
            },
    {
        proof {
            use_type_invariant(&*self);
        }
        let mut entries: Vec<(String, String)> = Vec::new();
        std::mem::swap(&mut self.entries, &mut entries);
        let ghost before = entries@;
        let found = position_in(&entries, name.as_str());
        let previous = match found {
            Some(i) => {
                assert(holds_at(before, name@, i as int));
                let entry = entries.remove(i);
                proof {
                    lemma_remove_entry(before, i as int);
                }
                Some(entry.1)
            },
            None => None,
        };
        proof {
            lemma_push_entry(entries@, (name, value));
            assert(mapping_of(before).remove(name@).insert(name@, value@) =~= mapping_of(
                before,
            ).insert(name@, value@));
        }
        entries.push((name, value));
        std::mem::swap(&mut self.entries, &mut entries);
        previous
    }
}

/// Taking an entry out of a sequence with distinct names takes its name out
/// of the mapping and leaves the names distinct.
proof fn lemma_remove_entry(entries: Seq<(String, String)>, i: int)
    requires
        distinct_names(entries),
        0 <= i < entries.len(),
    ensures
        distinct_names(entries.remove(i)),
        mapping_of(entries.remove(i)) == mapping_of(entries).remove(entries[i].0@),
        mapping_of(entries)[entries[i].0@] == entries[i].1@,
{
    let after = entries.remove(i);
    let gone = entries[i].0@;
    assert forall|a: int, b: int|
        0 <= a < after.len() && 0 <= b < after.len() && #[trigger] after[a].0@
            == #[trigger] after[b].0@ implies a == b by {
        let a0 = if a < i { a } else { a + 1 };
        let b0 = if b < i { b } else { b + 1 };
        assert(entries[a0].0@ == entries[b0].0@);
    }
    assert(holds_at(entries, gone, i));
    assert forall|name: Seq<char>| #[trigger]
        mapping_of(after).contains_key(name) <==> mapping_of(entries).remove(gone).contains_key(
            name,
        ) by {
        if mapping_of(after).contains_key(name) {
            let a = choose|a: int| holds_at(after, name, a);
            let a0 = if a < i { a } else { a + 1 };
            assert(holds_at(entries, name, a0));
        }
        if mapping_of(entries).remove(gone).contains_key(name) {
            let a0 = choose|a0: int| holds_at(entries, name, a0);
            let a = if a0 < i { a0 } else { a0 - 1 };
            assert(holds_at(after, name, a));
        }
    }
    assert forall|name: Seq<char>| #[trigger]
        mapping_of(after).contains_key(name) implies mapping_of(after)[name] == mapping_of(
        entries,
    ).remove(gone)[name] by {
        let a = choose|a: int| holds_at(after, name, a);
        let a0 = if a < i { a } else { a + 1 };
        assert(holds_at(entries, name, a0));
        let c = choose|c: int| holds_at(entries, name, c);
        assert(entries[c].0@ == entries[a0].0@);
    }
    assert(mapping_of(after) =~= mapping_of(entries).remove(gone));
}

/// Adding an entry under a name that no entry has yet adds it to the mapping
/// and leaves the names distinct.
proof fn lemma_push_entry(entries: Seq<(String, String)>, entry: (String, String))
    requires
        distinct_names(entries),
        !mapping_of(entries).contains_key(entry.0@),
    ensures
        distinct_names(entries.push(entry)),
        mapping_of(entries.push(entry)) == mapping_of(entries).insert(entry.0@, entry.1@),
{
    let after = entries.push(entry);
    let n = entries.len() as int;
    assert forall|a: int, b: int|
        0 <= a < after.len() && 0 <= b < after.len() && #[trigger] after[a].0@
            == #[trigger] after[b].0@ implies a == b by {
        if a < n && b == n {
            assert(holds_at(entries, entry.0@, a));
        }
        if b < n && a == n {
            assert(holds_at(entries, entry.0@, b));
        }
        if a < n && b < n {
            assert(entries[a].0@ == entries[b].0@);
        }
    }
    assert(holds_at(after, entry.0@, n));
    assert forall|name: Seq<char>| #[trigger]
        mapping_of(after).contains_key(name) <==> mapping_of(entries).insert(
            entry.0@,
            entry.1@,
        ).contains_key(name) by {
        if mapping_of(after).contains_key(name) {
            let a = choose|a: int| holds_at(after, name, a);
            if a < n {
                assert(holds_at(entries, name, a));
            }
        }
        if mapping_of(entries).contains_key(name) {
            let a = choose|a: int| holds_at(entries, name, a);
            assert(holds_at(after, name, a));
        }
    }
    assert forall|name: Seq<char>| #[trigger]
        mapping_of(after).contains_key(name) implies mapping_of(after)[name] == mapping_of(
        entries,
    ).insert(entry.0@, entry.1@)[name] by {
        let a = choose|a: int| holds_at(after, name, a);
        if name == entry.0@ {
            assert(after[a].0@ == after[n].0@);
        } else {
            assert(holds_at(entries, name, a));
            let c = choose|c: int| holds_at(entries, name, c);
            assert(holds_at(after, name, c));
            assert(after[a].0@ == after[c].0@);
        }
    }
    assert(mapping_of(after) =~= mapping_of(entries).insert(entry.0@, entry.1@));
}

} // verus!
