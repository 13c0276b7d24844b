//! Support for accessing field values in an easier fashion.

use crate::util::{string_from_bytes, utf8_lossy_text};
use vstd::prelude::*;

verus! {

/// The characters of each string of a sequence.
pub open spec fn chars_of(s: Seq<String>) -> Seq<Seq<char>> {
    s.map_values(|x: String| x@)
}

/// `FieldValue` is a wrapper around `Vec<String>` that provides utility functions for accessing
/// values.
#[derive(Debug)]
pub struct FieldValue(Vec<String>);

impl View for FieldValue {
    type V = Seq<Seq<char>>;

    /// The values, in the order they were added.
    closed spec fn view(&self) -> Seq<Seq<char>> {
        chars_of(self.0@)
    }
}

impl FieldValue {
    /// The strings of the collection.
    pub closed spec fn strings(&self) -> Seq<String> {
        self.0@
    }

    /// The view is the characters of the strings.
    pub proof fn lemma_view_is_chars(&self)
        ensures
            self@ == chars_of(self.strings()),
    {
    }

    /// Create a new `FieldValue`.
    pub fn new() -> (r: FieldValue)
        ensures
            r@ == Seq::<Seq<char>>::empty(),
    {
        let r = FieldValue(Vec::new());
        assert(r@ =~= Seq::<Seq<char>>::empty());
        r
    }

    /// Retrieve all values from the collection.
    pub fn all(&self) -> (r: &[String])
        ensures
            r@ == self.strings(),
    {
        self.0.as_slice()
    }

    /// Retrieve the internal mutable collection.
    pub fn as_mut_vec(&mut self) -> (r: &mut Vec<String>)
        ensures
            (*r)@ == old(self).strings(),
            final(self).strings() == (*final(r))@,
    {
        &mut self.0
    }

    /// Retrieve the internal immutable collection.
    pub fn as_vec(&self) -> (r: &Vec<String>)
        ensures
            r@ == self.strings(),
    {
        &self.0
    }

    /// Retrieve the first value from the collection.
    pub fn first(&self) -> (r: Option<&str>)
        ensures
            self@.len() == 0 ==> r is None,
            self@.len() > 0 ==> r is Some && r->0@ == self@[0],
    {
        if self.0.is_empty() {
            None
        } else {
            Some(self.0[0].as_str())
        }
    }

    /// Retrieve `index` from the collection.
    ///
    /// An empty collection gives `None` for any index; on a collection that is not empty, the
    /// index must be in bounds.
    pub fn get(&self, index: usize) -> (r: Option<&str>)
        requires
            self@.len() == 0 || index < self@.len(),
        ensures
            self@.len() == 0 ==> r is None,
            self@.len() > 0 ==> r is Some && r->0@ == self@[index as int],
    {
        if self.0.is_empty() {
            None
        } else {
            Some(self.0[index].as_str())
        }
    }

    /// Indicates that the collection is empty.
    pub fn is_empty(&self) -> (r: bool)
        ensures
            r == (self@.len() == 0),
    {
        self.0.is_empty()
    }

    /// Retrieve the number of values within the collection.
    pub fn len(&self) -> (r: usize)
        ensures
            r == self@.len(),
    {
        self.0.len()
    }

    /// Append `value` onto the collection.
    pub fn push(&mut self, value: String) -> (r: &mut Self)
        ensures
            (*r)@ == old(self)@.push(value@),
            *final(self) == *final(r),
    {
        self.0.push(value);
        assert(chars_of(self.0@) =~= chars_of(old(self).0@).push(value@));
        self
    }

    /// Append the text of `value` onto the collection; bytes that are not valid UTF-8 are
    /// replaced.
    pub fn push_slice(&mut self, value: &[u8]) -> (r: &mut Self)
        ensures
            (*r)@ == old(self)@.push(utf8_lossy_text(value@)),
            *final(self) == *final(r),
    {
        self.push(string_from_bytes(value))
    }

    /// Remove `index` from the collection and return it.
    pub fn remove(&mut self, index: usize) -> (r: Option<String>)
        ensures
            index < old(self)@.len() ==> r is Some && r->0@ == old(self)@[index as int]
                && final(self)@ == old(self)@.remove(index as int),
            index >= old(self)@.len() ==> r is None && final(self)@ == old(self)@,
    {
        if index < self.0.len() {
            let s = self.0.remove(index);
            assert(chars_of(self.0@) =~= chars_of(old(self).0@).remove(index as int));
            Some(s)
        } else {
            None
        }
    }
}

// -------------------------------------------------------------------------------------------------

/// The fields of a sequence of entries have distinct names.
pub open spec fn names_unique<V>(s: Seq<(String, V)>) -> bool {
    forall|i: int, j: int|
        0 <= i < s.len() && 0 <= j < s.len() && i != j ==> #[trigger] s[i].0@ != #[trigger] s[j].0@
}

/// Indicates that a sequence of entries holds a field named `k`.
pub open spec fn has_name<V>(s: Seq<(String, V)>, k: Seq<char>) -> bool {
    exists|i: int| 0 <= i < s.len() && #[trigger] s[i].0@ == k
}

/// The index of the entry named `k`.
pub open spec fn name_index<V>(s: Seq<(String, V)>, k: Seq<char>) -> int {
    choose|i: int| 0 <= i < s.len() && #[trigger] s[i].0@ == k
}

/// The map from field names to values that a sequence of entries holds.
pub open spec fn map_of<V: View>(s: Seq<(String, V)>) -> Map<Seq<char>, V::V> {
    Map::new(|k: Seq<char>| has_name(s, k), |k: Seq<char>| s[name_index(s, k)].1@)
}

/// In entries with distinct names, the entry at `i` is the one that its name finds.
proof fn lemma_name_index<V: View>(s: Seq<(String, V)>, i: int)
    requires
        names_unique(s),
        0 <= i < s.len(),
    ensures
        has_name(s, s[i].0@),
        name_index(s, s[i].0@) == i,
        map_of(s).contains_key(s[i].0@),
        map_of(s)[s[i].0@] == s[i].1@,
{
    assert(has_name(s, s[i].0@));
    let j = name_index(s, s[i].0@);
    assert(s[j].0@ == s[i].0@);
}

/// Replacing the values of the entry at `i` replaces the values of its name in the map.
proof fn lemma_map_of_update<V: View>(s: Seq<(String, V)>, i: int, v: V)
    requires
        names_unique(s),
        0 <= i < s.len(),
    ensures
        names_unique(s.update(i, (s[i].0, v))),
        map_of(s.update(i, (s[i].0, v))) =~= map_of(s).insert(s[i].0@, v@),
{
    let t = s.update(i, (s[i].0, v));
    assert(names_unique(t)) by {
        assert forall|a: int, b: int|
            0 <= a < t.len() && 0 <= b < t.len() && a != b implies #[trigger] t[a].0@
            != #[trigger] t[b].0@ by {
            assert(t[a].0@ == s[a].0@);
            assert(t[b].0@ == s[b].0@);
        }
    }
    lemma_name_index(s, i);
    lemma_name_index(t, i);
    assert forall|k: Seq<char>| #[trigger] has_name(t, k) == has_name(s, k) by {
        if has_name(s, k) {
            let j = name_index(s, k);
            assert(t[j].0@ == k);
        }
        if has_name(t, k) {
            let j = name_index(t, k);
            assert(s[j].0@ == k);
        }
    }
    assert forall|k: Seq<char>| has_name(t, k) && k != s[i].0@ implies map_of(t)[k]
        == map_of(s)[k] by {
        let j = name_index(t, k);
        assert(t[j].0@ == k);
        lemma_name_index(t, j);
        lemma_name_index(s, j);
    }
}

/// Replacing the entry at `i` by any entry with the same name replaces the values of that name in
/// the map.
proof fn lemma_map_of_update_any<V: View>(s: Seq<(String, V)>, i: int)
    requires
        names_unique(s),
        0 <= i < s.len(),
    ensures
        forall|e: (String, V)|
            e.0 == s[i].0 ==> names_unique(#[trigger] s.update(i, e)) && map_of(s.update(i, e))
                == map_of(s).insert(s[i].0@, e.1@),
{
    assert forall|e: (String, V)| e.0 == s[i].0 implies names_unique(
        #[trigger] s.update(i, e),
    ) && map_of(s.update(i, e)) == map_of(s).insert(s[i].0@, e.1@) by {
        assert(s.update(i, e) == s.update(i, (s[i].0, e.1)));
        lemma_map_of_update(s, i, e.1);
    }
}

/// Appending an entry with a new name adds that name to the map.
proof fn lemma_map_of_push<V: View>(s: Seq<(String, V)>, e: (String, V))
    requires
        names_unique(s),
        !has_name(s, e.0@),
    ensures
        names_unique(s.push(e)),
        map_of(s.push(e)) =~= map_of(s).insert(e.0@, e.1@),
{
    let t = s.push(e);
    assert(names_unique(t)) by {
        assert forall|a: int, b: int|
            0 <= a < t.len() && 0 <= b < t.len() && a != b implies #[trigger] t[a].0@
            != #[trigger] t[b].0@ by {
            if a < s.len() && b < s.len() {
                assert(t[a] == s[a] && t[b] == s[b]);
            } else if a < s.len() {
                assert(t[a] == s[a]);
            } else {
                assert(t[b] == s[b]);
            }
        }
    }
    lemma_name_index(t, s.len() as int);
    assert forall|k: Seq<char>| #[trigger] has_name(t, k) == (has_name(s, k) || k == e.0@) by {
        if has_name(s, k) {
            let j = name_index(s, k);
            assert(t[j] == s[j]);
        }
    }
    assert forall|k: Seq<char>| has_name(s, k) implies map_of(t)[k] == map_of(s)[k] by {
        let j = name_index(s, k);
        assert(t[j] == s[j]);
        lemma_name_index(s, j);
        lemma_name_index(t, j);
    }
}

/// Removing the entry at `i` removes its name from the map.
proof fn lemma_map_of_remove<V: View>(s: Seq<(String, V)>, i: int)
    requires
        names_unique(s),
        0 <= i < s.len(),
    ensures
        names_unique(s.remove(i)),
        map_of(s.remove(i)) =~= map_of(s).remove(s[i].0@),
{
    let t = s.remove(i);
    assert(forall|a: int| 0 <= a < t.len() ==> #[trigger] t[a] == s[if a < i { a } else { a + 1 }]);
    assert(names_unique(t)) by {
        assert forall|a: int, b: int|
            0 <= a < t.len() && 0 <= b < t.len() && a != b implies #[trigger] t[a].0@
            != #[trigger] t[b].0@ by {
            let sa = if a < i { a } else { a + 1 };
            let sb = if b < i { b } else { b + 1 };
            assert(t[a] == s[sa] && t[b] == s[sb]);
        }
    }
    lemma_name_index(s, i);
    assert forall|k: Seq<char>| #[trigger] has_name(t, k) == (has_name(s, k) && k != s[i].0@) by {
        if has_name(t, k) {
            let a = name_index(t, k);
            let sa = if a < i { a } else { a + 1 };
            assert(t[a] == s[sa]);
            assert(s[sa].0@ == k);
        }
        if has_name(s, k) && k != s[i].0@ {
            let j = name_index(s, k);
            assert(j != i);
            let a = if j < i { j } else { j - 1 };
            assert(t[a] == s[j]);
        }
    }
    assert forall|k: Seq<char>| has_name(t, k) implies map_of(t)[k] == map_of(s)[k] by {
        let a = name_index(t, k);
        let sa = if a < i { a } else { a + 1 };
        assert(t[a] == s[sa]);
        lemma_name_index(t, a);
        lemma_name_index(s, sa);
    }
}

/// The map of entries with distinct names has as many names as there are entries.
proof fn lemma_map_of_len<V: View>(s: Seq<(String, V)>)
    requires
        names_unique(s),
    ensures
        map_of(s).dom().finite(),
        map_of(s).len() == s.len(),
    decreases s.len(),
{
    if s.len() == 0 {
        assert(map_of(s).dom() =~= Set::<Seq<char>>::empty());
    } else {
        let t = s.drop_last();
        let e = s.last();
        assert(names_unique(t)) by {
            assert forall|a: int, b: int|
                0 <= a < t.len() && 0 <= b < t.len() && a != b implies #[trigger] t[a].0@
                != #[trigger] t[b].0@ by {
                assert(t[a] == s[a] && t[b] == s[b]);
            }
        }
        assert(!has_name(t, e.0@)) by {
            if has_name(t, e.0@) {
                let j = name_index(t, e.0@);
                assert(t[j] == s[j]);
                assert(s[(s.len() - 1) as int] == e);
            }
        }
        lemma_map_of_len(t);
        lemma_map_of_push(t, e);
        assert(t.push(e) =~= s);
    }
}

/// `FieldMap` is a collection of fields, each a name with a non-empty list of values, that
/// provides utility functions for accessing fields.
///
/// # Examples
///
/// ```
/// use http_box::field::FieldMap;
///
/// let mut map = FieldMap::new();
///
/// map.push("key".to_string(), "value1".to_string());
/// map.push("key".to_string(), "value2".to_string());
///
/// assert_eq!(1, map.len());
/// assert_eq!(2, map.field("key").unwrap().len());
/// assert_eq!("value1", map.field("key").unwrap().first().unwrap());
///
/// map.remove("key");
///
/// assert_eq!(false, map.has_field("key"));
/// ```
#[derive(Debug)]
pub struct FieldMap(Vec<(String, FieldValue)>);

impl View for FieldMap {
    type V = Map<Seq<char>, Seq<Seq<char>>>;

    /// The values of each field, by field name.
    closed spec fn view(&self) -> Map<Seq<char>, Seq<Seq<char>>> {
        map_of(self.0@)
    }
}

impl FieldMap {
    /// The entries of the internal collection.
    pub closed spec fn entries(&self) -> Seq<(String, FieldValue)> {
        self.0@
    }

    /// Well-formedness: no two entries have the same field name.
    pub closed spec fn wf(&self) -> bool {
        names_unique(self.0@)
    }

    /// The view is the map of the entries.
    pub proof fn lemma_view_is_map_of(&self)
        ensures
            self@ == map_of(self.entries()),
            self.wf() == names_unique(self.entries()),
    {
    }

    /// Create a new `FieldMap`.
    pub fn new() -> (r: FieldMap)
        ensures
            r.wf(),
            r@ == Map::<Seq<char>, Seq<Seq<char>>>::empty(),
    {
        let r = FieldMap(Vec::new());
        assert(r@ =~= Map::<Seq<char>, Seq<Seq<char>>>::empty());
        r
    }

    /// Create a new `FieldMap` with an initial capacity of `capacity`.
    pub fn with_capacity(capacity: usize) -> (r: FieldMap)
        ensures
            r.wf(),
            r@ == Map::<Seq<char>, Seq<Seq<char>>>::empty(),
    {
        let r = FieldMap(Vec::with_capacity(capacity));
        assert(r@ =~= Map::<Seq<char>, Seq<Seq<char>>>::empty());
        r
    }

    /// Retrieve the internal immutable collection.
    pub fn as_map(&self) -> (r: &Vec<(String, FieldValue)>)
        ensures
            r@ == self.entries(),
    {
        &self.0
    }

    /// Retrieve the internal mutable collection.
    ///
    /// The collection stays well-formed only if no two entries are given the same name.
    pub fn as_mut_map(&mut self) -> (r: &mut Vec<(String, FieldValue)>)
        ensures
            (*r)@ == old(self).entries(),
            final(self).entries() == (*final(r))@,
    {
        &mut self.0
    }

    /// Clear the collection.
    pub fn clear(&mut self)
        ensures
            final(self).wf(),
            final(self)@ == Map::<Seq<char>, Seq<Seq<char>>>::empty(),
    {
        self.0.clear();
        assert(self@ =~= Map::<Seq<char>, Seq<Seq<char>>>::empty());
    }

    /// Find the index of the entry named `name`.
    fn find(&self, name: &String) -> (r: Option<usize>)
        requires
            self.wf(),
        ensures
            match r {
                Some(i) => i < self.0@.len() && self.0@[i as int].0@ == name@,
                None => !has_name(self.0@, name@),
            },
    {
        let mut i: usize = 0;
        while i < self.0.len()
            invariant
                i <= self.0@.len(),
                forall|j: int| 0 <= j < i ==> #[trigger] self.0@[j].0@ != name@,
            decreases self.0@.len() - i,
        {
            if self.0[i].0 == *name {
                return Some(i);
            }
            i = i + 1;
        }
        None
    }

    /// Retrieve immutable `field` from the collection.
    pub fn field(&self, field: &str) -> (r: Option<&FieldValue>)
        requires
            self.wf(),
        ensures
            self@.contains_key(field@) ==> r is Some && r->0@ == self@[field@],
            !self@.contains_key(field@) ==> r is None,
    {
        let name = field.to_owned();
        match self.find(&name) {
            Some(i) => {
                proof {
                    lemma_name_index(self.0@, i as int);
                }
                Some(&self.0[i].1)
            },
            None => None,
        }
    }

    /// Retrieve mutable `field` from the collection.
    pub fn field_mut(&mut self, field: &str) -> (r: Option<&mut FieldValue>)
        requires
            old(self).wf(),
        ensures
            old(self)@.contains_key(field@) ==> r is Some && (*r->0)@ == old(self)@[field@]
                && final(self).wf() && final(self)@ == old(self)@.insert(field@, (*final(r->0))@),
            !old(self)@.contains_key(field@) ==> r is None && *final(self) == *old(self),
    {
        let name = field.to_owned();
        match self.find(&name) {
            Some(i) => {
                proof {
                    lemma_name_index(self.0@, i as int);
                }
                proof {
                    lemma_map_of_update_any(old(self).0@, i as int);
                }
                Some(&mut self.0[i].1)
            },
            None => None,
        }
    }

    /// Indicates that `field` exists within the collection.
    pub fn has_field(&self, field: &str) -> (r: bool)
        requires
            self.wf(),
        ensures
            r == self@.contains_key(field@),
    {
        let name = field.to_owned();
        match self.find(&name) {
            Some(i) => {
                proof {
                    lemma_name_index(self.0@, i as int);
                }
                true
            },
            None => false,
        }
    }

    /// Indicates that the collection is empty.
    pub fn is_empty(&self) -> (r: bool)
        requires
            self.wf(),
        ensures
            self@.dom().finite(),
            r == (self@.len() == 0),
    {
        proof {
            lemma_map_of_len(self.0@);
        }
        self.0.is_empty()
    }

    /// Retrieve the number of fields within the collection.
    pub fn len(&self) -> (r: usize)
        requires
            self.wf(),
        ensures
            self@.dom().finite(),
            r == self@.len(),
    {
        proof {
            lemma_map_of_len(self.0@);
        }
        self.0.len()
    }

    /// Append `field` with `value` onto the collection.
    ///
    /// If `field` does not yet exist, add it.
    pub fn push(&mut self, field: String, value: String) -> (r: &mut Self)
        requires
            old(self).wf(),
        ensures
            r.wf(),
            (*r)@ == old(self)@.insert(
                field@,
                if old(self)@.contains_key(field@) {
                    old(self)@[field@].push(value@)
                } else {
                    seq![value@]
                },
            ),
            *final(self) == *final(r),
    {
        match self.find(&field) {
            Some(i) => {
                proof {
                    lemma_name_index(self.0@, i as int);
                }
                let (name, mut values) = self.0.remove(i);
                values.push(value);
                self.0.insert(i, (name, values));
                proof {
                    assert(self.0@ =~= old(self).0@.update(i as int, (old(self).0@[i as int].0, values)));
                    lemma_map_of_update(old(self).0@, i as int, values);
                }
            },
            None => {
                let mut values = FieldValue::new();
                values.push(value);
                proof {
                    assert(values@ =~= seq![value@]);
                    lemma_map_of_push(self.0@, (field, values));
                }
                self.0.push((field, values));
            },
        }
        self
    }

    /// Append the text of `field` with the text of `value` onto the collection; bytes that are
    /// not valid UTF-8 are replaced.
    ///
    /// If `field` does not yet exist, add it.
    pub fn push_slice(&mut self, field: &[u8], value: &[u8]) -> (r: &mut Self)
        requires
            old(self).wf(),
        ensures
            r.wf(),
            (*r)@ == old(self)@.insert(
                utf8_lossy_text(field@),
                if old(self)@.contains_key(utf8_lossy_text(field@)) {
                    old(self)@[utf8_lossy_text(field@)].push(utf8_lossy_text(value@))
                } else {
                    seq![utf8_lossy_text(value@)]
                },
            ),
            *final(self) == *final(r),
    {
        self.push(string_from_bytes(field), string_from_bytes(value))
    }

    /// Remove `field` from the collection.
    pub fn remove(&mut self, field: &str) -> (r: Option<FieldValue>)
        requires
            old(self).wf(),
        ensures
            final(self).wf(),
            final(self)@ == old(self)@.remove(field@),
            old(self)@.contains_key(field@) ==> r is Some && r->0@ == old(self)@[field@],
            !old(self)@.contains_key(field@) ==> r is None,
    {
        let name = field.to_owned();
        match self.find(&name) {
            Some(i) => {
                proof {
                    lemma_name_index(self.0@, i as int);
                    lemma_map_of_remove(self.0@, i as int);
                }
                let (_, values) = self.0.remove(i);
                Some(values)
            },
            None => {
                assert(self@ =~= old(self)@.remove(field@));
                None
            },
        }
    }
}

/// Pushing `value` onto `field` appends it to the values of `field`: looking the field up then
/// gives back its values in the order in which they were pushed, and every other field keeps its
/// values.
pub proof fn law_push_then_field(
    before: FieldMap,
    after: FieldMap,
    field: String,
    value: String,
    other: Seq<char>,
)
    requires
        after@ == before@.insert(
            field@,
            if before@.contains_key(field@) {
                before@[field@].push(value@)
            } else {
                seq![value@]
            },
        ),
    ensures
        after@.contains_key(field@),
        after@[field@] == (if before@.contains_key(field@) {
            before@[field@]
        } else {
            Seq::<Seq<char>>::empty()
        }).push(value@),
        other != field@ ==> after@.contains_key(other) == before@.contains_key(other),
        other != field@ && before@.contains_key(other) ==> after@[other] == before@[other],
{
    if !before@.contains_key(field@) {
        assert(Seq::<Seq<char>>::empty().push(value@) =~= seq![value@]);
    }
}

/// A removed field is no longer found, and every other field keeps its values.
pub proof fn law_remove_then_has_field(
    before: FieldMap,
    after: FieldMap,
    field: Seq<char>,
    other: Seq<char>,
)
    requires
        after@ == before@.remove(field),
    ensures
        !after@.contains_key(field),
        other != field ==> after@.contains_key(other) == before@.contains_key(other),
        other != field && before@.contains_key(other) ==> after@[other] == before@[other],
{
}

} // verus!

verus! {

/// `NameMap` is a collection of names, each with one value; inserting a name that exists
/// replaces its value.
#[derive(Debug)]
pub struct NameMap<V: View>(Vec<(String, V)>);

/// A collection of names, each with one string value.
pub type StringMap = NameMap<String>;

impl<V: View> View for NameMap<V> {
    type V = Map<Seq<char>, V::V>;

    /// The value of each name.
    closed spec fn view(&self) -> Map<Seq<char>, V::V> {
        map_of(self.0@)
    }
}

impl<V: View> NameMap<V> {
    /// No two entries have the same name.
    #[verifier::type_invariant]
    spec fn names_are_unique(&self) -> bool {
        names_unique(self.0@)
    }

    /// Create a new, empty `NameMap`.
    pub fn new() -> (r: NameMap<V>)
        ensures
            r@ == Map::<Seq<char>, V::V>::empty(),
    {
        let r = NameMap(Vec::new());
        assert(r@ =~= Map::<Seq<char>, V::V>::empty());
        r
    }

    /// Remove every entry.
    pub fn clear(&mut self)
        ensures
            final(self)@ == Map::<Seq<char>, V::V>::empty(),
    {
        self.0 = Vec::new();
        assert(self@ =~= Map::<Seq<char>, V::V>::empty());
    }

    /// Find the index of the entry named `name`.
    fn find(&self, name: &String) -> (r: Option<usize>)
        ensures
            match r {
                Some(i) => i < self.0@.len() && self.0@[i as int].0@ == name@,
                None => !has_name(self.0@, name@),
            },
    {
        let mut i: usize = 0;
        while i < self.0.len()
            invariant
                i <= self.0@.len(),
                forall|j: int| 0 <= j < i ==> #[trigger] self.0@[j].0@ != name@,
            decreases self.0@.len() - i,
        {
            if self.0[i].0 == *name {
                return Some(i);
            }
            i = i + 1;
        }
        None
    }

    /// Indicates that `name` exists within the collection.
    pub fn contains_key(&self, name: &str) -> (r: bool)
        ensures
            r == self@.contains_key(name@),
    {
        proof {
            use_type_invariant(self);
        }
        let key = name.to_owned();
        match self.find(&key) {
            Some(i) => {
                proof {
                    lemma_name_index(self.0@, i as int);
                }
                true
            },
            None => false,
        }
    }

    /// Retrieve the value of `name`.
    pub fn get(&self, name: &str) -> (r: Option<&V>)
        ensures
            self@.contains_key(name@) ==> r is Some && r->0@ == self@[name@],
            !self@.contains_key(name@) ==> r is None,
    {
        proof {
            use_type_invariant(self);
        }
        let key = name.to_owned();
        match self.find(&key) {
            Some(i) => {
                proof {
                    lemma_name_index(self.0@, i as int);
                }
                Some(&self.0[i].1)
            },
            None => None,
        }
    }

    /// Set the value of `name`, replacing any value it had.
    pub fn insert(&mut self, name: String, value: V)
        ensures
            final(self)@ == old(self)@.insert(name@, value@),
    {
        proof {
            use_type_invariant(&*self);
        }
        let found = self.find(&name);
        let mut entries: Vec<(String, V)> = Vec::new();
        std::mem::swap(&mut entries, &mut self.0);
        assert(entries@ == old(self).0@);
        match found {
            Some(i) => {
                proof {
                    lemma_name_index(entries@, i as int);
                }
                let (key, _) = entries.remove(i);
                entries.insert(i, (key, value));
                proof {
                    assert(entries@ =~= old(self).0@.update(i as int, (old(self).0@[i as int].0, value)));
                    lemma_map_of_update(old(self).0@, i as int, value);
                }
            },
            None => {
                proof {
                    lemma_map_of_push(entries@, (name, value));
                }
                entries.push((name, value));
            },
        }
        self.0 = entries;
    }

    /// Indicates that the collection is empty.
    pub fn is_empty(&self) -> (r: bool)
        ensures
            self@.dom().finite(),
            r == (self@.len() == 0),
    {
        proof {
            use_type_invariant(self);
            lemma_map_of_len(self.0@);
        }
        self.0.is_empty()
    }

    /// Retrieve the number of entries within the collection.
    pub fn len(&self) -> (r: usize)
        ensures
            self@.dom().finite(),
            r == self@.len(),
    {
        proof {
            use_type_invariant(self);
            lemma_map_of_len(self.0@);
        }
        self.0.len()
    }
}

/// After `insert(name, value)`, looking `name` up gives back `value`, and every other name keeps
/// its value.
pub proof fn law_insert_then_get<V: View>(
    before: NameMap<V>,
    after: NameMap<V>,
    name: Seq<char>,
    value: V::V,
    other: Seq<char>,
)
    requires
        after@ == before@.insert(name, value),
    ensures
        after@.contains_key(name),
        after@[name] == value,
        other != name ==> after@.contains_key(other) == before@.contains_key(other),
        other != name && before@.contains_key(other) ==> after@[other] == before@[other],
{
}

impl Default for FieldValue {
    /// The same as `FieldValue::new()`.
    fn default() -> (r: FieldValue)
        ensures
            r@ == Seq::<Seq<char>>::empty(),
    {
        FieldValue::new()
    }
}

impl Default for FieldMap {
    /// The same as `FieldMap::new()`.
    fn default() -> (r: FieldMap)
        ensures
            r.wf(),
            r@ == Map::<Seq<char>, Seq<Seq<char>>>::empty(),
    {
        FieldMap::new()
    }
}

} // verus!
