//! The persistence models: per-profile memory blobs keyed by profile id, and
//! the whole-document stores for settings and history. Every mutation is a
//! whole-value overwrite — there is no append log and no partial update —
//! and a load returns exactly what the last save stored. The on-disk format
//! is the caller's concern; these stores are the semantics it must give.
use vstd::prelude::*;

verus! {

broadcast use vstd::seq::Seq::lemma_push_map_commute;

/// One profile's memory blob.
pub struct MemoryRecord {
    pub profile_id: String,
    pub blob: String,
}

/// The mathematical value of a `MemoryRecord`.
pub ghost struct MemoryRecordV {
    pub profile_id: Seq<char>,
    pub blob: Seq<char>,
}

impl View for MemoryRecord {
    type V = MemoryRecordV;

    open spec fn view(&self) -> MemoryRecordV {
        MemoryRecordV { profile_id: self.profile_id@, blob: self.blob@ }
    }
}

/// The values of a record list.
pub open spec fn records_view(v: Seq<MemoryRecord>) -> Seq<MemoryRecordV> {
    v.map_values(|r: MemoryRecord| r@)
}

/// The map a record list stands for.
pub open spec fn mem_map(rs: Seq<MemoryRecordV>) -> Map<Seq<char>, Seq<char>>
    decreases rs.len(),
{
    if rs.len() == 0 {
        Map::empty()
    } else {
        mem_map(rs.drop_last()).insert(rs.last().profile_id, rs.last().blob)
    }
}

/// No two records share a profile id.
pub open spec fn unique_ids(rs: Seq<MemoryRecordV>) -> bool {
    forall|i: int, j: int|
        0 <= i < j < rs.len() ==> (#[trigger] rs[i].profile_id) != (#[trigger] rs[j].profile_id)
}

proof fn lemma_mem_map_absent(rs: Seq<MemoryRecordV>, id: Seq<char>)
    requires
        forall|k: int| 0 <= k < rs.len() ==> (#[trigger] rs[k].profile_id) != id,
    ensures
        !mem_map(rs).contains_key(id),
    decreases rs.len(),
{
    if rs.len() > 0 {
        lemma_mem_map_absent(rs.drop_last(), id);
    }
}

proof fn lemma_mem_map_at(rs: Seq<MemoryRecordV>, k: int)
    requires
        unique_ids(rs),
        0 <= k < rs.len(),
    ensures
        mem_map(rs).contains_key(rs[k].profile_id),
        mem_map(rs)[rs[k].profile_id] == rs[k].blob,
    decreases rs.len(),
{
    if k < rs.len() - 1 {
        lemma_mem_map_at(rs.drop_last(), k);
    }
}

proof fn lemma_mem_map_update(rs: Seq<MemoryRecordV>, k: int, blob: Seq<char>)
    requires
        unique_ids(rs),
        0 <= k < rs.len(),
    ensures
        mem_map(rs.update(k, MemoryRecordV { profile_id: rs[k].profile_id, blob: blob }))
            == mem_map(rs).insert(rs[k].profile_id, blob),
    decreases rs.len(),
{
    let rec = MemoryRecordV { profile_id: rs[k].profile_id, blob: blob };
    let rs2 = rs.update(k, rec);
    if k == rs.len() - 1 {
        assert(rs2.drop_last() =~= rs.drop_last());
        assert(mem_map(rs2) == mem_map(rs.drop_last()).insert(rs[k].profile_id, blob));
        assert(mem_map(rs.drop_last()).insert(rs[k].profile_id, blob) =~= mem_map(
            rs.drop_last(),
        ).insert(rs[k].profile_id, rs[k].blob).insert(rs[k].profile_id, blob));
    } else {
        lemma_mem_map_update(rs.drop_last(), k, blob);
        assert(rs2.drop_last() =~= rs.drop_last().update(k, rec));
        assert(rs2.last() == rs.last());
        assert(rs[k].profile_id != rs.last().profile_id);
        assert(mem_map(rs.drop_last()).insert(rs[k].profile_id, blob).insert(
            rs.last().profile_id,
            rs.last().blob,
        ) =~= mem_map(rs.drop_last()).insert(rs.last().profile_id, rs.last().blob).insert(
            rs[k].profile_id,
            blob,
        ));
    }
}

proof fn lemma_mem_map_remove(rs: Seq<MemoryRecordV>, k: int)
    requires
        unique_ids(rs),
        0 <= k < rs.len(),
    ensures
        mem_map(rs.remove(k)) == mem_map(rs).remove(rs[k].profile_id),
    decreases rs.len(),
{
    let rs2 = rs.remove(k);
    if k == rs.len() - 1 {
        assert(rs2 =~= rs.drop_last());
        lemma_mem_map_absent(rs.drop_last(), rs[k].profile_id);
        assert(mem_map(rs.drop_last()) =~= mem_map(rs.drop_last()).insert(
            rs[k].profile_id,
            rs[k].blob,
        ).remove(rs[k].profile_id));
    } else {
        lemma_mem_map_remove(rs.drop_last(), k);
        assert(rs2.drop_last() =~= rs.drop_last().remove(k));
        assert(rs2.last() == rs.last());
        assert(rs[k].profile_id != rs.last().profile_id);
        assert(mem_map(rs.drop_last()).remove(rs[k].profile_id).insert(
            rs.last().profile_id,
            rs.last().blob,
        ) =~= mem_map(rs.drop_last()).insert(rs.last().profile_id, rs.last().blob).remove(
            rs[k].profile_id,
        ));
    }
}

/// The per-profile memory store: one blob per profile id, replaced wholesale
/// on every write, never merged.
pub struct MemoryStore {
    records: Vec<MemoryRecord>,
}

impl View for MemoryStore {
    type V = Map<Seq<char>, Seq<char>>;

    closed spec fn view(&self) -> Map<Seq<char>, Seq<char>> {
        mem_map(records_view(self.records@))
    }
}

impl MemoryStore {
    /// The store keeps one record per profile id.
    pub closed spec fn wf(&self) -> bool {
        unique_ids(records_view(self.records@))
    }

    /// An empty store.
    pub fn new() -> (r: MemoryStore)
        ensures
            r.wf(),
            r@ == Map::<Seq<char>, Seq<char>>::empty(),
    {
        let r = MemoryStore { records: Vec::new() };
        proof {
            assert(records_view(r.records@) =~= Seq::<MemoryRecordV>::empty());
        }
        r
    }

    /// The blob stored for a profile, if any.
    pub fn read(&self, id: &String) -> (r: Option<String>)
        requires
            self.wf(),
        ensures
            match r {
                Some(b) => self@.contains_key(id@) && self@[id@] == b@,
                None => !self@.contains_key(id@),
            },
    {
        let ghost rv = records_view(self.records@);
        let mut i: usize = 0;
        while i < self.records.len()
            invariant
                0 <= i <= self.records@.len(),
                rv == records_view(self.records@),
                rv.len() == self.records@.len(),
                unique_ids(rv),
                forall|k: int| 0 <= k < i ==> (#[trigger] rv[k].profile_id) != id@,
            decreases self.records@.len() - i,
        {
            if self.records[i].profile_id == *id {
                proof {
                    lemma_mem_map_at(rv, i as int);
                }
                return Some(self.records[i].blob.clone());
            }
            i = i + 1;
        }
        proof {
            lemma_mem_map_absent(rv, id@);
        }
        None
    }

    /// Replaces the profile's blob wholesale, creating the record when none
    /// exists yet.
    pub fn write(&mut self, id: String, blob: String)
        requires
            old(self).wf(),
        ensures
            final(self).wf(),
            final(self)@ == old(self)@.insert(id@, blob@),
    {
        let ghost rv = records_view(self.records@);
        let mut i: usize = 0;
        while i < self.records.len()
            invariant
                0 <= i <= self.records@.len(),
                self.records@ == old(self).records@,
                rv == records_view(self.records@),
                rv.len() == self.records@.len(),
                unique_ids(rv),
                forall|k: int| 0 <= k < i ==> (#[trigger] rv[k].profile_id) != id@,
            decreases self.records@.len() - i,
        {
            if self.records[i].profile_id == id {
                let ghost before = self.records@;
                let old_rec = self.records.remove(i);
                let new_rec = MemoryRecord { profile_id: old_rec.profile_id, blob };
                self.records.insert(i, new_rec);
                proof {
                    assert(self.records@ =~= before.update(i as int, self.records@[i as int]));
                    assert(records_view(self.records@) =~= rv.update(
                        i as int,
                        MemoryRecordV { profile_id: rv[i as int].profile_id, blob: blob@ },
                    ));
                    lemma_mem_map_update(rv, i as int, blob@);
                    assert(rv[i as int].profile_id == id@);
                    assert forall|a: int, b: int|
                        0 <= a < b < records_view(self.records@).len() implies (
                    #[trigger] records_view(self.records@)[a].profile_id) != (
                    #[trigger] records_view(self.records@)[b].profile_id) by {
                        assert(records_view(self.records@)[a].profile_id == rv[a].profile_id);
                        assert(records_view(self.records@)[b].profile_id == rv[b].profile_id);
                    }
                }
                return ;
            }
            i = i + 1;
        }
        proof {
            lemma_mem_map_absent(rv, id@);
        }
        let ghost before = self.records@;
        self.records.push(MemoryRecord { profile_id: id, blob });
        proof {
            let rv2 = records_view(self.records@);
            assert(rv2.drop_last() =~= rv);
            assert forall|a: int, b: int|
                0 <= a < b < rv2.len() implies (#[trigger] rv2[a].profile_id) != (
            #[trigger] rv2[b].profile_id) by {
                if b < rv2.len() - 1 {
                    assert(rv2[a] == rv[a] && rv2[b] == rv[b]);
                } else {
                    assert(rv2[a] == rv[a]);
                    assert(rv2[b].profile_id == id@);
                }
            }
        }
    }

    /// Forgets the profile's blob.
    pub fn clear(&mut self, id: &String)
        requires
            old(self).wf(),
        ensures
            final(self).wf(),
            final(self)@ == old(self)@.remove(id@),
    {
        let ghost rv = records_view(self.records@);
        let mut i: usize = 0;
        while i < self.records.len()
            invariant
                0 <= i <= self.records@.len(),
                self.records@ == old(self).records@,
                rv == records_view(self.records@),
                rv.len() == self.records@.len(),
                unique_ids(rv),
                forall|k: int| 0 <= k < i ==> (#[trigger] rv[k].profile_id) != id@,
            decreases self.records@.len() - i,
        {
            if self.records[i].profile_id == *id {
                let ghost before = self.records@;
                let _removed = self.records.remove(i);
                proof {
                    assert(records_view(self.records@) =~= rv.remove(i as int));
                    lemma_mem_map_remove(rv, i as int);
                    assert(rv[i as int].profile_id == id@);
                    let rv2 = records_view(self.records@);
                    assert forall|a: int, b: int|
                        0 <= a < b < rv2.len() implies (#[trigger] rv2[a].profile_id) != (
                    #[trigger] rv2[b].profile_id) by {
                        assert(rv2[a] == rv.remove(i as int)[a]);
                        assert(rv2[b] == rv.remove(i as int)[b]);
                    }
                }
                return ;
            }
            i = i + 1;
        }
        proof {
            lemma_mem_map_absent(rv, id@);
            assert(old(self)@ =~= old(self)@.remove(id@));
        }
    }
}

/// Writing the same blob twice is the same write once: the store holds
/// exactly that blob afterwards, however often the write is repeated.
pub proof fn lemma_write_idempotent(m: Map<Seq<char>, Seq<char>>, id: Seq<char>, blob: Seq<char>)
    ensures
        m.insert(id, blob).insert(id, blob) == m.insert(id, blob),
        m.insert(id, blob)[id] == blob,
{
    assert(m.insert(id, blob).insert(id, blob) =~= m.insert(id, blob));
}

/// A whole-document store: each save overwrites the document, each load
/// yields exactly what the last save stored — the semantics the settings and
/// history files are written with.
pub struct DocStore<T> {
    doc: Option<T>,
}

impl<T> DocStore<T> {
    /// What the store holds.
    pub closed spec fn stored(&self) -> Option<T> {
        self.doc
    }

    /// A store with nothing saved yet: a missing or malformed file loads as
    /// nothing, never as an error.
    pub fn new() -> (r: DocStore<T>)
        ensures
            r.stored() is None,
    {
        DocStore { doc: None }
    }

    /// Overwrites the whole document. Saving the same value again stores the
    /// same document: persistence is idempotent.
    pub fn save(&mut self, v: T)
        ensures
            final(self).stored() == Some(v),
    {
        self.doc = Some(v);
    }

    /// The document exactly as the last save stored it.
    pub fn load(&self) -> (r: Option<&T>)
        ensures
            match r {
                Some(v) => self.stored() == Some(*v),
                None => self.stored() is None,
            },
    {
        self.doc.as_ref()
    }
}

} // verus!
