//! Parameter mappings for signatures: parameter name to type name.
//!
//! Entries are recorded in insertion order; at the level of the mathematical
//! view a later entry for the same name overwrites an earlier one
//! (last-write-wins), which is the documented policy for duplicate parameter
//! names.

use vstd::prelude::*;

verus! {

/// The mapping a sequence of `(name, type)` entries denotes: entries are
/// applied left to right, so a later entry for the same name wins.
pub open spec fn map_of_entries(entries: Seq<(Seq<char>, Seq<char>)>) -> Map<Seq<char>, Seq<char>>
    decreases entries.len(),
{
    if entries.len() == 0 {
        Map::empty()
    } else {
        map_of_entries(entries.drop_last()).insert(entries.last().0, entries.last().1)
    }
}

/// A parameter list: names mapped to types, keys unique in the view,
/// insertion order retained.
#[derive(Clone, Debug, PartialEq)]
pub struct ParamMap {
    entries: Vec<(String, String)>,
}

impl View for ParamMap {
    type V = Map<Seq<char>, Seq<char>>;

    closed spec fn view(&self) -> Map<Seq<char>, Seq<char>> {
        map_of_entries(self.entries.deep_view())
    }
}

/// A `ParamMap`'s view is exactly the mapping its entry sequence denotes.
pub proof fn lemma_view_is_entries(m: &ParamMap)
    ensures
        m@ == map_of_entries(m.entry_seq()),
{
}

/// In the view of a sequence of entries, a name is bound exactly when some
/// entry carries it.
pub proof fn lemma_map_of_entries_domain(entries: Seq<(Seq<char>, Seq<char>)>, k: Seq<char>)
    ensures
        map_of_entries(entries).contains_key(k) <==> exists|j: int|
            0 <= j < entries.len() && entries[j].0 == k,
    decreases entries.len(),
{
    if entries.len() > 0 {
        lemma_map_of_entries_domain(entries.drop_last(), k);
        let last = entries.last();
        if last.0 == k {
            assert(entries[entries.len() - 1].0 == k);
        } else {
            if map_of_entries(entries).contains_key(k) {
                let j = choose|j: int| 0 <= j < entries.drop_last().len()
                    && entries.drop_last()[j].0 == k;
                assert(entries[j].0 == k);
            }
            if exists|j: int| 0 <= j < entries.len() && entries[j].0 == k {
                let j = choose|j: int| 0 <= j < entries.len() && entries[j].0 == k;
                assert(entries.drop_last()[j] == entries[j]);
            }
        }
    }
}

/// The value bound to a name in the view is the one of the last entry that
/// carries the name.
pub proof fn lemma_map_of_entries_last(entries: Seq<(Seq<char>, Seq<char>)>, k: Seq<char>, j: int)
    requires
        0 <= j < entries.len(),
        entries[j].0 == k,
        forall|l: int| j < l < entries.len() ==> entries[l].0 != k,
    ensures
        map_of_entries(entries).contains_key(k),
        map_of_entries(entries)[k] == entries[j].1,
    decreases entries.len(),
{
    if j == entries.len() - 1 {
        assert(entries.last() == entries[j]);
    } else {
        assert(entries.last().0 != k);
        assert(entries.drop_last()[j] == entries[j]);
        lemma_map_of_entries_last(entries.drop_last(), k, j);
    }
}

impl ParamMap {
    /// The entries in insertion order, with duplicates still present.
    pub closed spec fn entry_seq(&self) -> Seq<(Seq<char>, Seq<char>)> {
        self.entries.deep_view()
    }

    /// An empty mapping.
    pub fn new() -> (r: ParamMap)
        ensures
            r@ == Map::<Seq<char>, Seq<char>>::empty(),
            r.entry_seq() == Seq::<(Seq<char>, Seq<char>)>::empty(),
    {
        let r = ParamMap { entries: Vec::new() };
        proof {
            assert(r.entry_seq() =~= Seq::<(Seq<char>, Seq<char>)>::empty());
        }
        r
    }

    /// Binds `name` to `ty`; an existing binding for `name` is overwritten.
    pub fn insert(&mut self, name: String, ty: String)
        ensures
            final(self)@ == old(self)@.insert(name@, ty@),
            final(self).entry_seq() == old(self).entry_seq().push((name@, ty@)),
    {
        let ghost pre = self.entries.deep_view();
        self.entries.push((name, ty));
        proof {
            assert(self.entries.deep_view() =~= pre.push((name@, ty@)));
            assert(self.entries.deep_view().drop_last() =~= pre);
        }
    }

    /// The type bound to `name`, if any; with duplicate entries the last one
    /// wins.
    pub fn get(&self, name: &str) -> (r: Option<&String>)
        ensures
            match r {
                Some(v) => self@.contains_key(name@) && self@[name@] == v@,
                None => !self@.contains_key(name@),
            },
    {
        let ghost entries = self.entries.deep_view();
        let mut j: usize = self.entries.len();
        while j > 0
            invariant
                j <= self.entries@.len(),
                entries == self.entries.deep_view(),
                forall|l: int| j <= l < entries.len() ==> entries[l].0 != name@,
            decreases j,
        {
            j = j - 1;
            if crate::tokenizer::str_eq(self.entries[j].0.as_str(), name) {
                proof {
                    lemma_map_of_entries_last(entries, name@, j as int);
                }
                return Some(&self.entries[j].1);
            }
        }
        proof {
            lemma_map_of_entries_domain(entries, name@);
        }
        None
    }
}

} // verus!
