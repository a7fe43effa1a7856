//! Document Store: the mapping from document identity to its current record,
//! the single owned mutable resource of the session. Keys are unique and no
//! ordering semantics are required; entries are created on open, replaced in
//! full on change, and removed on close.

use vstd::prelude::*;
use crate::document::DocumentRecord;
use crate::document::DocumentRecordView;

verus! {

pub open spec fn unique_keys(s: Seq<(String, DocumentRecord)>) -> bool {
    forall|i: int, j: int| 0 <= i < j < s.len() ==> s[i].0@ != s[j].0@
}

/// The mapping that a sequence of entries denotes, later entries winning.
pub open spec fn entries_map(s: Seq<(String, DocumentRecord)>) -> Map<Seq<char>, DocumentRecordView>
    decreases s.len(),
{
    if s.len() == 0 {
        Map::empty()
    } else {
        entries_map(s.drop_last()).insert(s.last().0@, s.last().1@)
    }
}

proof fn lemma_unique_drop_last(s: Seq<(String, DocumentRecord)>)
    requires
        unique_keys(s),
        s.len() > 0,
    ensures
        unique_keys(s.drop_last()),
{
    assert forall|i: int, j: int| 0 <= i < j < s.drop_last().len() implies s.drop_last()[i].0@
        != s.drop_last()[j].0@ by {
        assert(s[i].0@ != s[j].0@);
    }
}

proof fn lemma_entries_map_contains(s: Seq<(String, DocumentRecord)>, key: Seq<char>)
    ensures
        entries_map(s).contains_key(key) <==> exists|i: int| 0 <= i < s.len() && s[i].0@ == key,
    decreases s.len(),
{
    if s.len() > 0 {
        let pre = s.drop_last();
        lemma_entries_map_contains(pre, key);
        if s.last().0@ == key {
            assert(s[s.len() - 1].0@ == key);
        } else {
            if exists|i: int| 0 <= i < s.len() && s[i].0@ == key {
                let i = choose|i: int| 0 <= i < s.len() && s[i].0@ == key;
                assert(i < s.len() - 1);
                assert(pre[i].0@ == key);
            }
            if entries_map(pre).contains_key(key) {
                let i = choose|i: int| 0 <= i < pre.len() && pre[i].0@ == key;
                assert(s[i].0@ == key);
            }
        }
    }
}

proof fn lemma_entries_map_index(s: Seq<(String, DocumentRecord)>, i: int)
    requires
        unique_keys(s),
        0 <= i < s.len(),
    ensures
        entries_map(s).contains_key(s[i].0@),
        entries_map(s)[s[i].0@] == s[i].1@,
    decreases s.len(),
{
    if i < s.len() - 1 {
        lemma_unique_drop_last(s);
        lemma_entries_map_index(s.drop_last(), i);
        assert(s.drop_last()[i] == s[i]);
        assert(s[i].0@ != s.last().0@);
    }
}

proof fn lemma_entries_map_update(s: Seq<(String, DocumentRecord)>, i: int, p: (
    String,
    DocumentRecord,
))
    requires
        unique_keys(s),
        0 <= i < s.len(),
        p.0@ == s[i].0@,
    ensures
        entries_map(s.update(i, p)) == entries_map(s).insert(p.0@, p.1@),
    decreases s.len(),
{
    let t = s.update(i, p);
    lemma_unique_drop_last(s);
    if i == s.len() - 1 {
        assert(t.drop_last() =~= s.drop_last());
        assert(entries_map(s.drop_last()).insert(s.last().0@, s.last().1@).insert(p.0@, p.1@)
            =~= entries_map(s.drop_last()).insert(p.0@, p.1@));
    } else {
        lemma_entries_map_update(s.drop_last(), i, p);
        assert(t.drop_last() =~= s.drop_last().update(i, p));
        assert(t.last() == s.last());
        assert(p.0@ != s.last().0@);
        assert(entries_map(s.drop_last()).insert(p.0@, p.1@).insert(s.last().0@, s.last().1@)
            =~= entries_map(s.drop_last()).insert(s.last().0@, s.last().1@).insert(p.0@, p.1@));
    }
}

proof fn lemma_entries_map_remove(s: Seq<(String, DocumentRecord)>, i: int)
    requires
        unique_keys(s),
        0 <= i < s.len(),
    ensures
        entries_map(s.remove(i)) == entries_map(s).remove(s[i].0@),
    decreases s.len(),
{
    let t = s.remove(i);
    let k = s[i].0@;
    lemma_unique_drop_last(s);
    if i == s.len() - 1 {
        assert(t =~= s.drop_last());
        lemma_entries_map_contains(s.drop_last(), k);
        assert(!entries_map(s.drop_last()).contains_key(k));
        assert(entries_map(s.drop_last()).insert(k, s.last().1@).remove(k) =~= entries_map(
            s.drop_last(),
        ));
    } else {
        lemma_entries_map_remove(s.drop_last(), i);
        assert(t.drop_last() =~= s.drop_last().remove(i));
        assert(t.last() == s.last());
        assert(k == s.drop_last()[i].0@);
        assert(k != s.last().0@);
        assert(entries_map(s.drop_last()).remove(k).insert(s.last().0@, s.last().1@)
            =~= entries_map(s.drop_last()).insert(s.last().0@, s.last().1@).remove(k));
    }
}

/// Mapping from document identity to its current record.
pub struct DocumentStore {
    entries: Vec<(String, DocumentRecord)>,
}

impl View for DocumentStore {
    type V = Map<Seq<char>, DocumentRecordView>;

    closed spec fn view(&self) -> Map<Seq<char>, DocumentRecordView> {
        entries_map(self.entries@)
    }
}

impl DocumentStore {
    /// Keys are unique and every held record is well formed.
    pub closed spec fn wf(&self) -> bool {
        &&& unique_keys(self.entries@)
        &&& forall|i: int| 0 <= i < self.entries@.len() ==> (#[trigger] self.entries@[i]).1.wf()
    }

    /// An empty store: no document has been opened.
    pub fn new() -> (r: DocumentStore)
        ensures
            r.wf(),
            r@ == Map::<Seq<char>, DocumentRecordView>::empty(),
    {
        DocumentStore { entries: Vec::new() }
    }

    fn find(&self, uri: &String) -> (r: Option<usize>)
        ensures
            match r {
                Some(i) => i < self.entries@.len() && self.entries@[i as int].0@ == uri@,
                None => forall|k: int|
                    0 <= k < self.entries@.len() ==> (#[trigger] self.entries@[k]).0@ != uri@,
            },
    {
        let n: usize = self.entries.len();
        let mut i: usize = 0;
        while i < n
            invariant
                n == self.entries@.len(),
                i <= n,
                forall|k: int| 0 <= k < i ==> (#[trigger] self.entries@[k]).0@ != uri@,
            decreases n - i,
        {
            if self.entries[i].0 == *uri {
                return Some(i);
            }
            i = i + 1;
        }
        None
    }

    /// Reads the current record of `uri`, if the document is open.
    pub fn get<'a>(&'a self, uri: &String) -> (r: Option<&'a DocumentRecord>)
        requires
            self.wf(),
        ensures
            match r {
                Some(d) => self@.contains_key(uri@) && d@ == self@[uri@] && d.wf(),
                None => !self@.contains_key(uri@),
            },
    {
        proof {
            lemma_entries_map_contains(self.entries@, uri@);
        }
        match self.find(uri) {
            Some(i) => {
                proof {
                    lemma_entries_map_index(self.entries@, i as int);
                }
                Some(&self.entries[i].1)
            },
            None => None,
        }
    }

    /// Installs `rec` as the current record of `uri`, overwriting any record
    /// the store held for it.
    pub fn insert(&mut self, uri: String, rec: DocumentRecord)
        requires
            old(self).wf(),
            rec.wf(),
        ensures
            final(self).wf(),
            final(self)@ == old(self)@.insert(uri@, rec@),
    {
        match self.find(&uri) {
            Some(i) => {
                proof {
                    lemma_entries_map_update(self.entries@, i as int, (uri, rec));
                }
                self.entries.set(i, (uri, rec));
                proof {
                    assert forall|a: int, b: int| 0 <= a < b < self.entries@.len() implies self.entries@[a].0@
                        != self.entries@[b].0@ by {
                        assert(old(self).entries@[a].0@ != old(self).entries@[b].0@);
                    }
                }
            },
            None => {
                self.entries.push((uri, rec));
                proof {
                    assert(self.entries@.drop_last() =~= old(self).entries@);
                    assert forall|a: int, b: int| 0 <= a < b < self.entries@.len() implies self.entries@[a].0@
                        != self.entries@[b].0@ by {
                        if b < self.entries@.len() - 1 {
                            assert(old(self).entries@[a].0@ != old(self).entries@[b].0@);
                        } else {
                            assert(old(self).entries@[a].0@ != uri@);
                        }
                    }
                }
            },
        }
    }

    /// Removes the record of `uri`; reports whether one was held.
    pub fn remove(&mut self, uri: &String) -> (r: bool)
        requires
            old(self).wf(),
        ensures
            final(self).wf(),
            final(self)@ == old(self)@.remove(uri@),
            r == old(self)@.contains_key(uri@),
    {
        proof {
            lemma_entries_map_contains(self.entries@, uri@);
        }
        match self.find(uri) {
            Some(i) => {
                proof {
                    lemma_entries_map_remove(self.entries@, i as int);
                    lemma_entries_map_index(self.entries@, i as int);
                }
                self.entries.remove(i);
                proof {
                    assert forall|a: int, b: int| 0 <= a < b < self.entries@.len() implies self.entries@[a].0@
                        != self.entries@[b].0@ by {
                        let sa: int = if a < i as int {
                            a
                        } else {
                            a + 1
                        };
                        let sb: int = if b < i as int {
                            b
                        } else {
                            b + 1
                        };
                        assert(old(self).entries@[sa].0@ != old(self).entries@[sb].0@);
                    }
                }
                true
            },
            None => {
                proof {
                    assert(old(self)@.remove(uri@) =~= old(self)@);
                }
                false
            },
        }
    }
}

} // verus!
