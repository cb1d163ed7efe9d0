//! The values a property-graph store hands back, held as plain data: scalar
//! properties, nodes, relationships and the rows they arrive in.

use vstd::prelude::*;

verus! {

/// A scalar property of a node or relationship, or a statement parameter.
#[derive(Clone, Debug, PartialEq, Eq)]
pub enum PropertyValue {
    Boolean(bool),
    Integer(i64),
    /// A floating point number, held as its decimal text.
    Decimal(String),
    Text(String),
    /// A date or time value of any flavour, held as its written form.
    Temporal(String),
    Null,
    /// A list, map or graph structure: nothing a statement can inline.
    Composite,
}

/// What a scalar holds, with its texts as sequences of characters.
pub enum Scalar {
    Boolean(bool),
    Integer(i64),
    Decimal(Seq<char>),
    Text(Seq<char>),
    Temporal(Seq<char>),
    Null,
    Composite,
}

impl View for PropertyValue {
    type V = Scalar;

    open spec fn view(&self) -> Scalar {
        match self {
            PropertyValue::Boolean(b) => Scalar::Boolean(*b),
            PropertyValue::Integer(n) => Scalar::Integer(*n),
            PropertyValue::Decimal(s) => Scalar::Decimal(s@),
            PropertyValue::Text(s) => Scalar::Text(s@),
            PropertyValue::Temporal(s) => Scalar::Temporal(s@),
            PropertyValue::Null => Scalar::Null,
            PropertyValue::Composite => Scalar::Composite,
        }
    }
}

/// The keys and values of a list of entries, as characters and scalars.
pub open spec fn bindings_of(entries: Seq<(String, PropertyValue)>) -> Seq<(Seq<char>, Scalar)> {
    entries.map_values(|e: (String, PropertyValue)| (e.0@, e.1@))
}

/// True when one of the bindings is for `key`.
pub open spec fn holds_key(bindings: Seq<(Seq<char>, Scalar)>, key: Seq<char>) -> bool {
    exists|i: int| 0 <= i < bindings.len() && (#[trigger] bindings[i]).0 == key
}

/// True when no two entries carry the same key.
pub open spec fn distinct_keys(entries: Seq<(String, PropertyValue)>) -> bool {
    forall|i: int, j: int|
        0 <= i < j < entries.len() ==> (#[trigger] entries[i]).0@ != (#[trigger] entries[j]).0@
}

/// The position of the entry stored under `key`, if there is one.
pub open spec fn key_position(entries: Seq<(String, PropertyValue)>, key: Seq<char>) -> Option<int>
    decreases entries.len(),
{
    if entries.len() == 0 {
        None
    } else if entries.last().0@ == key {
        Some(entries.len() - 1)
    } else {
        key_position(entries.drop_last(), key)
    }
}

/// The value stored under `key`, if there is one.
pub open spec fn lookup(entries: Seq<(String, PropertyValue)>, key: Seq<char>) -> Option<
    PropertyValue,
> {
    match key_position(entries, key) {
        Some(i) => Some(entries[i].1),
        None => None,
    }
}

/// What `key_position` finds is an entry with that key; what it misses is
/// not there at all.
pub proof fn lemma_key_position(entries: Seq<(String, PropertyValue)>, key: Seq<char>)
    ensures
        match key_position(entries, key) {
            Some(i) => 0 <= i < entries.len() && entries[i].0@ == key,
            None => forall|j: int| 0 <= j < entries.len() ==> (#[trigger] entries[j]).0@ != key,
        },
    decreases entries.len(),
{
    if entries.len() > 0 && entries.last().0@ != key {
        lemma_key_position(entries.drop_last(), key);
        assert forall|j: int| 0 <= j < entries.len() && key_position(entries, key) is None implies (
        #[trigger] entries[j]).0@ != key by {
            if j < entries.len() - 1 {
                assert(entries.drop_last()[j] == entries[j]);
            }
        }
    }
}

/// The value bound last under a key is the value that `lookup` finds.
pub proof fn lemma_lookup_bound(entries: Seq<(String, PropertyValue)>, i: int)
    requires
        0 <= i < entries.len(),
        forall|j: int| i < j < entries.len() ==> (#[trigger] entries[j]).0@ != entries[i].0@,
    ensures
        lookup(entries, entries[i].0@) == Some(entries[i].1),
    decreases entries.len(),
{
    if i < entries.len() - 1 {
        let shorter = entries.drop_last();
        assert(entries.last().0@ != entries[i].0@);
        assert(shorter[i] == entries[i]);
        assert forall|j: int| i < j < shorter.len() implies (#[trigger] shorter[j]).0@
            != shorter[i].0@ by {
            assert(shorter[j] == entries[j]);
        }
        lemma_lookup_bound(shorter, i);
        lemma_key_position(shorter, entries[i].0@);
        let found = key_position(shorter, entries[i].0@).unwrap();
        assert(shorter[found] == entries[found]);
    }
}

/// A bag of named scalar values in which every key occurs once. The order of
/// the entries is the order in which their keys were first inserted.
#[derive(Debug)]
pub struct Properties {
    entries: Vec<(String, PropertyValue)>,
}

impl Properties {
    /// Holds of every bag: no key occurs twice.
    #[verifier::type_invariant]
    pub open spec fn keys_are_distinct(self) -> bool {
        distinct_keys(self.entries())
    }

    /// The entries, in insertion order.
    pub closed spec fn entries(&self) -> Seq<(String, PropertyValue)> {
        self.entries@
    }

    /// The keys and values, in insertion order.
    pub open spec fn bindings(&self) -> Seq<(Seq<char>, Scalar)> {
        bindings_of(self.entries())
    }

    /// An empty bag.
    pub fn new() -> (r: Properties)
        ensures
            r.entries().len() == 0,
            r.bindings() == Seq::<(Seq<char>, Scalar)>::empty(),
    {
        proof {
            assert(bindings_of(Seq::<(String, PropertyValue)>::empty()) =~= Seq::empty());
        }
        Properties { entries: Vec::new() }
    }

    /// The number of entries.
    pub fn len(&self) -> (n: usize)
        ensures
            n == self.entries().len(),
    {
        self.entries.len()
    }

    /// The entry at `index`, in insertion order.
    pub fn entry(&self, index: usize) -> (e: &(String, PropertyValue))
        requires
            index < self.entries().len(),
        ensures
            *e == self.entries()[index as int],
    {
        &self.entries[index]
    }

    /// Adds `value` under `key` as the new last entry. Where the key is
    /// there already, the bag stays as it is.
    pub fn bind(self, key: &str, value: PropertyValue) -> (r: Properties)
        ensures
            !holds_key(self.bindings(), key@) ==> r.bindings() == self.bindings().push(
                (key@, value@),
            ),
            holds_key(self.bindings(), key@) ==> r.entries() == self.entries(),
    {
        proof {
            use_type_invariant(&self);
            lemma_key_position(self.entries@, key@);
            match key_position(self.entries@, key@) {
                Some(i) => {
                    assert(bindings_of(self.entries@)[i].0 == key@);
                },
                None => {
                    assert forall|i: int| 0 <= i < self.bindings().len() implies (
                    #[trigger] self.bindings()[i]).0 != key@ by {
                        assert(self.entries@[i].0@ != key@);
                    }
                },
            }
        }
        if self.get(key).is_some() {
            return self;
        }
        let ghost before = self.entries@;
        let owned = String::from_str(key);
        proof {
            assert forall|a: int, b: int| 0 <= a < b < before.push((owned, value)).len() implies (
            #[trigger] before.push((owned, value))[a]).0@ != (#[trigger] before.push(
                (owned, value),
            )[b]).0@ by {
                if b == before.len() {
                    assert(before[a].0@ != key@);
                }
            }
            assert(bindings_of(before.push((owned, value))) =~= bindings_of(before).push(
                (key@, value@),
            ));
        }
        let mut entries = self.entries;
        entries.push((owned, value));
        Properties { entries }
    }

    /// Stores `value` under `key`: in place of the value the key had, or as
    /// a new last entry.
    pub fn insert(self, key: String, value: PropertyValue) -> (r: Properties)
        ensures
            match key_position(self.entries(), key@) {
                Some(i) => r.entries() == self.entries().update(i, (key, value)),
                None => r.entries() == self.entries().push((key, value)),
            },
    {
        proof {
            use_type_invariant(&self);
            lemma_key_position(self.entries@, key@);
        }
        let mut entries = self.entries;
        let ghost before = entries@;
        let mut i: usize = entries.len();
        proof {
            assert(before.take(i as int) =~= before);
        }
        while i > 0
            invariant
                i <= entries.len(),
                entries@ == before,
                before == self.entries(),
                distinct_keys(before),
                key_position(before, key@) == key_position(before.take(i as int), key@),
            decreases i,
        {
            proof {
                assert(before.take(i as int).drop_last() =~= before.take(i as int - 1));
                assert(before.take(i as int).last() == before[i as int - 1]);
            }
            if entries[i - 1].0 == key {
                entries.set(i - 1, (key, value));
                proof {
                    assert(key_position(before, key@) == Some(i as int - 1));
                    assert(entries@ =~= before.update(i as int - 1, (key, value)));
                    assert forall|a: int, b: int| 0 <= a < b < entries@.len() implies (
                    #[trigger] entries@[a]).0@ != (#[trigger] entries@[b]).0@ by {
                        assert(entries@[a].0@ == before[a].0@);
                        assert(entries@[b].0@ == before[b].0@);
                    }
                }
                return Properties { entries };
            }
            i = i - 1;
        }
        proof {
            assert(before.take(0).len() == 0);
            assert forall|a: int, b: int| 0 <= a < b < before.push((key, value)).len() implies (
            #[trigger] before.push((key, value))[a]).0@ != (#[trigger] before.push(
                (key, value),
            )[b]).0@ by {
                if b == before.len() {
                    assert(before[a].0@ != key@);
                }
            }
        }
        entries.push((key, value));
        Properties { entries }
    }

    /// The value stored under `key`.
    pub fn get(&self, key: &str) -> (r: Option<&PropertyValue>)
        ensures
            match r {
                Some(v) => lookup(self.entries(), key@) == Some(*v),
                None => lookup(self.entries(), key@) is None,
            },
    {
        let wanted = String::from_str(key);
        let mut i: usize = self.entries.len();
        proof {
            assert(self.entries@.take(i as int) =~= self.entries@);
        }
        while i > 0
            invariant
                i <= self.entries.len(),
                wanted@ == key@,
                key_position(self.entries@, key@) == key_position(
                    self.entries@.take(i as int),
                    key@,
                ),
            decreases i,
        {
            proof {
                assert(self.entries@.take(i as int).drop_last() =~= self.entries@.take(
                    i as int - 1,
                ));
                assert(self.entries@.take(i as int).last() == self.entries@[i as int - 1]);
            }
            if self.entries[i - 1].0 == wanted {
                return Some(&self.entries[i - 1].1);
            }
            i = i - 1;
        }
        proof {
            assert(self.entries@.take(0).len() == 0);
        }
        None
    }
}

/// A node as the store returns it.
#[derive(Debug)]
pub struct GraphNode {
    /// The identity the store gave the node.
    pub identity: i64,
    /// The node's labels; the first is its primary label.
    pub labels: Vec<String>,
    pub properties: Properties,
}

/// A relationship as the store returns it.
#[derive(Debug)]
pub struct GraphRelationship {
    pub identity: i64,
    pub start_node_identity: i64,
    pub end_node_identity: i64,
    pub rel_type: String,
    pub properties: Properties,
}

/// One field of a result row.
#[derive(Debug)]
pub enum GraphValue {
    Node(GraphNode),
    Relationship(GraphRelationship),
    /// Anything that is neither a node nor a relationship.
    Other,
}

} // verus!
