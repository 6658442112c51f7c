use crate::text::{ascii_upper, to_ascii_upper};
use crate::value::{record_wf, ConstMessage, Record};
use vstd::prelude::*;

verus! {

/// Two keys name the same constant: they are equal once upper-cased, which is
/// how a key is written out.
pub open spec fn same_key(a: Seq<char>, b: Seq<char>) -> bool {
    ascii_upper(a) == ascii_upper(b)
}

pub fn keys_match(a: &str, b: &str) -> (r: bool)
    ensures
        r == same_key(a@, b@),
{
    let x = to_ascii_upper(a);
    let y = to_ascii_upper(b);
    x == y
}

/// Some record of the sequence has the key.
pub open spec fn contains_key(rs: Seq<Record>, key: Seq<char>) -> bool {
    exists|i: int| 0 <= i < rs.len() && same_key(#[trigger] rs[i].key, key)
}

/// No two records of the sequence have the same key.
pub open spec fn distinct_keys(rs: Seq<Record>) -> bool {
    forall|i: int, j: int|
        0 <= i < j < rs.len() ==> !same_key(#[trigger] rs[i].key, #[trigger] rs[j].key)
}

/// Every record can be written out, and no key occurs twice.
pub open spec fn set_wf(rs: Seq<Record>) -> bool {
    &&& forall|i: int| 0 <= i < rs.len() ==> record_wf(#[trigger] rs[i])
    &&& distinct_keys(rs)
}

/// Where the record with the key stands, if there is one.
pub open spec fn index_of(rs: Seq<Record>, key: Seq<char>) -> int {
    choose|i: int| 0 <= i < rs.len() && same_key(#[trigger] rs[i].key, key)
}

/// The record with the key, if there is one.
pub open spec fn lookup(rs: Seq<Record>, key: Seq<char>) -> Option<Record> {
    if contains_key(rs, key) {
        Some(rs[index_of(rs, key)])
    } else {
        None
    }
}

/// The sequence after one record is put in. A record whose key is already
/// there takes the older record's place; any other record goes to the end.
pub open spec fn insert_spec(rs: Seq<Record>, r: Record) -> Seq<Record> {
    if contains_key(rs, r.key) {
        rs.update(index_of(rs, r.key), r)
    } else {
        rs.push(r)
    }
}

/// The sequence after the records of `add` are put in one by one, first to last.
pub open spec fn merge_spec(rs: Seq<Record>, add: Seq<Record>) -> Seq<Record>
    decreases add.len(),
{
    if add.len() == 0 {
        rs
    } else {
        insert_spec(merge_spec(rs, add.drop_last()), add.last())
    }
}

/// The last record of the sequence that has the key, if there is one.
pub open spec fn last_with_key(rs: Seq<Record>, key: Seq<char>) -> Option<Record>
    decreases rs.len(),
{
    if rs.len() == 0 {
        None
    } else if same_key(rs.last().key, key) {
        Some(rs.last())
    } else {
        last_with_key(rs.drop_last(), key)
    }
}

/// What the records of a list say.
pub open spec fn views(v: Seq<ConstMessage>) -> Seq<Record> {
    Seq::new(v.len(), |i: int| v[i]@)
}

/// Every record of a list can be written out.
pub open spec fn all_wf(v: Seq<ConstMessage>) -> bool {
    forall|i: int| 0 <= i < v.len() ==> (#[trigger] v[i]).wf()
}

/// In a sequence without a repeated key, the place of a key is the place of
/// any record that has it.
pub proof fn lemma_index_of(rs: Seq<Record>, key: Seq<char>, i: int)
    requires
        distinct_keys(rs),
        0 <= i < rs.len(),
        same_key(rs[i].key, key),
    ensures
        contains_key(rs, key),
        index_of(rs, key) == i,
        lookup(rs, key) == Some(rs[i]),
{
    let j = index_of(rs, key);
    assert(same_key(rs[j].key, key));
    if i < j {
        assert(!same_key(rs[i].key, rs[j].key));
    } else if j < i {
        assert(!same_key(rs[j].key, rs[i].key));
    }
}

/// Putting a record in keeps the set well formed.
pub proof fn lemma_insert_wf(rs: Seq<Record>, r: Record)
    requires
        set_wf(rs),
        record_wf(r),
    ensures
        set_wf(insert_spec(rs, r)),
{
    let out = insert_spec(rs, r);
    if contains_key(rs, r.key) {
        let k = index_of(rs, r.key);
        assert forall|i: int, j: int| 0 <= i < j < out.len() implies !same_key(
            #[trigger] out[i].key,
            #[trigger] out[j].key,
        ) by {
            assert(!same_key(rs[i].key, rs[j].key));
        }
    } else {
        assert forall|i: int, j: int| 0 <= i < j < out.len() implies !same_key(
            #[trigger] out[i].key,
            #[trigger] out[j].key,
        ) by {
            if j < rs.len() {
                assert(!same_key(rs[i].key, rs[j].key));
            } else {
                assert(!same_key(rs[i].key, r.key));
            }
        }
    }
}

/// The last writer wins: after a record is put in, its key gives that record,
/// and every other key gives what it gave before.
pub proof fn lemma_insert_lookup(rs: Seq<Record>, r: Record, key: Seq<char>)
    requires
        distinct_keys(rs),
    ensures
        lookup(insert_spec(rs, r), key) == if same_key(r.key, key) {
            Some(r)
        } else {
            lookup(rs, key)
        },
{
    let out = insert_spec(rs, r);
    lemma_insert_distinct(rs, r);
    if contains_key(rs, r.key) {
        let k = index_of(rs, r.key);
        if same_key(r.key, key) {
            lemma_index_of(out, key, k);
        } else if contains_key(rs, key) {
            let i = index_of(rs, key);
            assert(i != k);
            lemma_index_of(out, key, i);
        } else {
            assert forall|i: int| 0 <= i < out.len() implies !same_key(
                #[trigger] out[i].key,
                key,
            ) by {
                assert(!same_key(rs[i].key, key));
            }
        }
    } else {
        if same_key(r.key, key) {
            lemma_index_of(out, key, rs.len() as int);
        } else if contains_key(rs, key) {
            let i = index_of(rs, key);
            lemma_index_of(out, key, i);
        } else {
            assert forall|i: int| 0 <= i < out.len() implies !same_key(
                #[trigger] out[i].key,
                key,
            ) by {
                if i < rs.len() {
                    assert(!same_key(rs[i].key, key));
                }
            }
        }
    }
}

/// Putting a record in never makes a key occur twice.
pub proof fn lemma_insert_distinct(rs: Seq<Record>, r: Record)
    requires
        distinct_keys(rs),
    ensures
        distinct_keys(insert_spec(rs, r)),
{
    let out = insert_spec(rs, r);
    assert forall|i: int, j: int| 0 <= i < j < out.len() implies !same_key(
        #[trigger] out[i].key,
        #[trigger] out[j].key,
    ) by {
        if contains_key(rs, r.key) {
            assert(!same_key(rs[i].key, rs[j].key));
        } else if j < rs.len() {
            assert(!same_key(rs[i].key, rs[j].key));
        } else {
            assert(!same_key(rs[i].key, r.key));
        }
    }
}

/// Putting a record in keeps every older record's place: the keys that were
/// there stay where they were, and at most one place is added at the end.
pub proof fn lemma_insert_keeps_order(rs: Seq<Record>, r: Record)
    ensures
        rs.len() <= insert_spec(rs, r).len() <= rs.len() + 1,
        insert_spec(rs, r).len() == rs.len() <==> contains_key(rs, r.key),
        forall|i: int|
            0 <= i < rs.len() ==> same_key(#[trigger] insert_spec(rs, r)[i].key, rs[i].key),
{
}

/// The override law of a merge: a key that occurs among the added records
/// gives the last of them that has it; any other key gives what it gave before.
pub proof fn lemma_merge_lookup(rs: Seq<Record>, add: Seq<Record>, key: Seq<char>)
    requires
        distinct_keys(rs),
    ensures
        distinct_keys(merge_spec(rs, add)),
        lookup(merge_spec(rs, add), key) == match last_with_key(add, key) {
            Some(r) => Some(r),
            None => lookup(rs, key),
        },
    decreases add.len(),
{
    if add.len() > 0 {
        let before = merge_spec(rs, add.drop_last());
        lemma_merge_lookup(rs, add.drop_last(), key);
        lemma_insert_distinct(before, add.last());
        lemma_insert_lookup(before, add.last(), key);
    }
}

/// Merging keeps every older record's place.
pub proof fn law_merge_keeps_order(rs: Seq<Record>, add: Seq<Record>)
    ensures
        rs.len() <= merge_spec(rs, add).len() <= rs.len() + add.len(),
        forall|i: int|
            0 <= i < rs.len() ==> same_key(#[trigger] merge_spec(rs, add)[i].key, rs[i].key),
    decreases add.len(),
{
    if add.len() > 0 {
        let before = merge_spec(rs, add.drop_last());
        law_merge_keeps_order(rs, add.drop_last());
        lemma_insert_keeps_order(before, add.last());
        assert forall|i: int| 0 <= i < rs.len() implies same_key(
            #[trigger] merge_spec(rs, add)[i].key,
            rs[i].key,
        ) by {
            assert(same_key(insert_spec(before, add.last())[i].key, before[i].key));
            assert(same_key(before[i].key, rs[i].key));
        }
    }
}

/// Where no key of the added records is in the set or occurs twice among
/// them, merging appends them as they are.
pub proof fn lemma_merge_fresh(rs: Seq<Record>, add: Seq<Record>)
    requires
        distinct_keys(rs + add),
    ensures
        merge_spec(rs, add) == rs + add,
    decreases add.len(),
{
    if add.len() == 0 {
        assert(rs + add =~= rs);
    } else {
        let all = rs + add;
        let front = rs + add.drop_last();
        assert(front =~= all.drop_last());
        assert forall|i: int, j: int| 0 <= i < j < front.len() implies !same_key(
            #[trigger] front[i].key,
            #[trigger] front[j].key,
        ) by {
            assert(!same_key(all[i].key, all[j].key));
        }
        lemma_merge_fresh(rs, add.drop_last());
        assert forall|i: int| 0 <= i < front.len() implies !same_key(
            #[trigger] front[i].key,
            add.last().key,
        ) by {
            assert(!same_key(all[i].key, all[all.len() - 1].key));
        }
        assert(front.push(add.last()) =~= all);
    }
}

/// The records of one generation run, in the order in which their keys first
/// came in, with no key twice.
#[derive(Debug)]
pub struct MetadataSet {
    records: Vec<ConstMessage>,
}

impl View for MetadataSet {
    type V = Seq<Record>;

    closed spec fn view(&self) -> Seq<Record> {
        views(self.records@)
    }
}

impl MetadataSet {
    /// Every record can be written out, and no key occurs twice.
    pub open spec fn wf(&self) -> bool {
        set_wf(self@)
    }

    /// The set without a record.
    pub fn new() -> (s: MetadataSet)
        ensures
            s@ == Seq::<Record>::empty(),
            s.wf(),
    {
        let s = MetadataSet { records: Vec::new() };
        assert(s@ =~= Seq::<Record>::empty());
        s
    }

    /// How many records the set holds.
    pub fn len(&self) -> (n: usize)
        ensures
            n == self@.len(),
    {
        self.records.len()
    }

    /// The record at a place.
    pub fn get(&self, i: usize) -> (m: &ConstMessage)
        requires
            i < self@.len(),
        ensures
            m@ == self@[i as int],
    {
        &self.records[i]
    }

    /// The first place whose record has the key.
    pub fn find(&self, key: &str) -> (r: Option<usize>)
        ensures
            match r {
                Some(i) => i < self@.len() && same_key(self@[i as int].key, key@) && forall|
                    j: int,
                | 0 <= j < i ==> !same_key(#[trigger] self@[j].key, key@),
                None => !contains_key(self@, key@),
            },
    {
        let mut i: usize = 0;
        while i < self.records.len()
            invariant
                i <= self.records.len(),
                forall|j: int| 0 <= j < i ==> !same_key(#[trigger] self@[j].key, key@),
            decreases self.records.len() - i,
        {
            if keys_match(self.records[i].key().as_str(), key) {
                return Some(i);
            }
            i += 1;
        }
        None
    }

    /// The record with the key, if the set has one.
    pub fn lookup(&self, key: &str) -> (r: Option<&ConstMessage>)
        requires
            self.wf(),
        ensures
            r is Some <==> contains_key(self@, key@),
            r matches Some(m) ==> Some(m@) == lookup(self@, key@),
    {
        match self.find(key) {
            Some(i) => {
                proof {
                    lemma_index_of(self@, key@, i as int);
                }
                Some(&self.records[i])
            },
            None => None,
        }
    }

    /// Puts a record in: in the place of the record that has its key, or at
    /// the end where no record has it.
    pub fn insert(&mut self, m: ConstMessage)
        requires
            old(self).wf(),
            m.wf(),
        ensures
            final(self).wf(),
            final(self)@ == insert_spec(old(self)@, m@),
    {
        proof {
            lemma_insert_wf(self@, m@);
        }
        match self.find(m.key().as_str()) {
            Some(i) => {
                proof {
                    lemma_index_of(self@, m@.key, i as int);
                }
                self.records.set(i, m);
                assert(self@ =~= insert_spec(old(self)@, m@));
            },
            None => {
                self.records.push(m);
                assert(self@ =~= insert_spec(old(self)@, m@));
            },
        }
    }

    /// Puts the records of a list in, first to last.
    pub fn merge(&mut self, add: &Vec<ConstMessage>)
        requires
            old(self).wf(),
            all_wf(add@),
        ensures
            final(self).wf(),
            final(self)@ == merge_spec(old(self)@, views(add@)),
    {
        let mut i: usize = 0;
        while i < add.len()
            invariant
                i <= add.len(),
                all_wf(add@),
                self.wf(),
                self@ == merge_spec(old(self)@, views(add@).take(i as int)),
            decreases add.len() - i,
        {
            proof {
                let next = views(add@).take(i + 1);
                assert(next.drop_last() =~= views(add@).take(i as int));
                assert(next.last() == add@[i as int]@);
                assert(add@[i as int].wf());
            }
            self.insert(add[i].clone());
            i += 1;
        }
        assert(views(add@).take(add.len() as int) =~= views(add@));
    }
}

} // verus!
