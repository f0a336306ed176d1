//! The process table: every managed process under its name, each name once.
//! Records keep the order in which their names first came.

use vstd::prelude::*;
use crate::process::{ManagedProcess, ManagedProcessView};
use crate::protocol::{ProcessInfo, ProcessInfoView, ProcessStatus};

verus! {

/// The position of the first record named `name`, or the number of
/// records if there is none.
pub open spec fn position_of(entries: Seq<ManagedProcessView>, name: Seq<char>) -> int
    decreases entries.len(),
{
    if entries.len() == 0 || entries[0].name == name {
        0
    } else {
        1 + position_of(entries.drop_first(), name)
    }
}

/// Whether some record is named `name`.
pub open spec fn has_name(entries: Seq<ManagedProcessView>, name: Seq<char>) -> bool {
    position_of(entries, name) < entries.len()
}

/// No two records share a name.
pub open spec fn distinct_names(entries: Seq<ManagedProcessView>) -> bool {
    forall|i: int, j: int| 0 <= i < j < entries.len() ==> entries[i].name != entries[j].name
}

/// The records with `record` in the place of the one that has its name, or
/// at the end if none has.
pub open spec fn upsert(
    entries: Seq<ManagedProcessView>,
    record: ManagedProcessView,
) -> Seq<ManagedProcessView> {
    if has_name(entries, record.name) {
        entries.update(position_of(entries, record.name), record)
    } else {
        entries.push(record)
    }
}

/// The names of the records, in order.
pub open spec fn names_of(entries: Seq<ManagedProcessView>) -> Seq<Seq<char>> {
    Seq::new(entries.len(), |i: int| entries[i].name)
}

/// What a client is told about each record at time `now`, in order.
pub open spec fn infos_of(entries: Seq<ManagedProcessView>, now: u64) -> Seq<ProcessInfoView> {
    Seq::new(entries.len(), |i: int| entries[i].info(now))
}

/// `position_of` is the first position that holds the name.
pub proof fn lemma_position_of(entries: Seq<ManagedProcessView>, name: Seq<char>, at: int)
    requires
        0 <= at <= entries.len(),
        forall|j: int| 0 <= j < at ==> entries[j].name != name,
        at < entries.len() ==> entries[at].name == name,
    ensures
        position_of(entries, name) == at,
    decreases at,
{
    if at > 0 {
        lemma_position_of(entries.drop_first(), name, at - 1);
    }
}

/// Where `position_of` points there is the name, and nowhere before.
pub proof fn lemma_position_of_is_first(entries: Seq<ManagedProcessView>, name: Seq<char>)
    ensures
        0 <= position_of(entries, name) <= entries.len(),
        has_name(entries, name) ==> entries[position_of(entries, name)].name == name,
        forall|j: int| 0 <= j < position_of(entries, name) ==> entries[j].name != name,
    decreases entries.len(),
{
    if entries.len() == 0 || entries[0].name == name {
    } else {
        let rest = entries.drop_first();
        lemma_position_of_is_first(rest, name);
        assert forall|j: int| 0 <= j < position_of(entries, name) implies entries[j].name
            != name by {
            if j > 0 {
                assert(entries[j] == rest[j - 1]);
            }
        }
    }
}

/// Putting a record into a table without repeated names leaves it so, with
/// the record found under its name and every other name as before.
pub proof fn lemma_upsert(entries: Seq<ManagedProcessView>, record: ManagedProcessView)
    requires
        distinct_names(entries),
    ensures
        distinct_names(upsert(entries, record)),
        has_name(upsert(entries, record), record.name),
        upsert(entries, record)[position_of(upsert(entries, record), record.name)] == record,
        forall|other: Seq<char>|
            other != record.name ==> {
                &&& #[trigger] has_name(upsert(entries, record), other) == has_name(entries, other)
                &&& has_name(entries, other) ==> {
                    &&& position_of(upsert(entries, record), other) == position_of(entries, other)
                    &&& upsert(entries, record)[position_of(entries, other)]
                        == entries[position_of(entries, other)]
                }
            },
{
    let after = upsert(entries, record);
    let at = position_of(entries, record.name);
    lemma_position_of_is_first(entries, record.name);
    assert(after.len() > at);
    assert(after[at] == record);
    lemma_position_of(after, record.name, at);
    assert forall|other: Seq<char>| other != record.name implies {
        &&& #[trigger] has_name(after, other) == has_name(entries, other)
        &&& has_name(entries, other) ==> {
            &&& position_of(after, other) == position_of(entries, other)
            &&& after[position_of(entries, other)] == entries[position_of(entries, other)]
        }
    } by {
        lemma_position_of_is_first(entries, other);
        let p = position_of(entries, other);
        if p < entries.len() {
            lemma_position_of(after, other, p);
        } else {
            lemma_position_of(after, other, after.len() as int);
        }
    }
}

/// The table of managed processes.
#[derive(Debug, PartialEq, Eq)]
pub struct ProcessTable {
    entries: Vec<ManagedProcess>,
}

impl View for ProcessTable {
    type V = Seq<ManagedProcessView>;

    closed spec fn view(&self) -> Seq<ManagedProcessView> {
        self.entries.deep_view()
    }
}

impl ProcessTable {
    /// The table's invariant: each name stands once.
    pub open spec fn wf(&self) -> bool {
        distinct_names(self@)
    }

    /// The empty table.
    pub fn new() -> (table: ProcessTable)
        ensures
            table@ == Seq::<ManagedProcessView>::empty(),
            table.wf(),
    {
        let table = ProcessTable { entries: Vec::new() };
        assert(table@ == Seq::<ManagedProcessView>::empty());
        table
    }

    /// The number of records.
    pub fn len(&self) -> (n: usize)
        ensures
            n == self@.len(),
    {
        self.entries.len()
    }

    pub fn is_empty(&self) -> (empty: bool)
        ensures
            empty == (self@.len() == 0),
    {
        self.entries.len() == 0
    }

    /// Where the record named `name` stands.
    pub fn position(&self, name: &String) -> (found: Option<usize>)
        ensures
            found is Some == has_name(self@, name@),
            found matches Some(at) ==> at == position_of(self@, name@),
    {
        let mut i: usize = 0;
        while i < self.entries.len()
            invariant
                i <= self.entries.len(),
                forall|j: int| 0 <= j < i ==> self@[j].name != name@,
            decreases self.entries.len() - i,
        {
            if self.entries[i].name == *name {
                proof {
                    lemma_position_of(self@, name@, i as int);
                }
                return Some(i);
            }
            i += 1;
        }
        proof {
            lemma_position_of(self@, name@, self@.len() as int);
        }
        None
    }

    /// Whether a record is named `name`.
    pub fn contains_key(&self, name: &String) -> (found: bool)
        ensures
            found == has_name(self@, name@),
    {
        self.position(name).is_some()
    }

    /// The record at position `at`.
    pub fn entry(&self, at: usize) -> (record: &ManagedProcess)
        requires
            at < self@.len(),
        ensures
            record@ == self@[at as int],
    {
        &self.entries[at]
    }

    /// The record named `name`.
    pub fn get(&self, name: &String) -> (record: Option<&ManagedProcess>)
        ensures
            record is Some == has_name(self@, name@),
            record matches Some(r) ==> r@ == self@[position_of(self@, name@)],
    {
        match self.position(name) {
            Some(at) => Some(&self.entries[at]),
            None => None,
        }
    }

    /// Puts `record` under its name: in the place of the record that had
    /// the name, or behind all others.
    pub fn insert(&mut self, record: ManagedProcess)
        requires
            old(self).wf(),
        ensures
            final(self)@ == upsert(old(self)@, record@),
            final(self).wf(),
    {
        proof {
            lemma_upsert(self@, record@);
        }
        let ghost before = self@;
        match self.position(&record.name) {
            Some(at) => {
                self.entries.set(at, record);
                assert(self@ == before.update(at as int, record@));
            },
            None => {
                self.entries.push(record);
                assert(self@ == before.push(record@));
            },
        }
    }

    /// Notes that the child of the record at position `at` has been stopped
    /// and reaped.
    pub fn mark_stopped(&mut self, at: usize)
        requires
            at < old(self)@.len(),
            old(self).wf(),
        ensures
            final(self)@ == old(self)@.update(at as int, old(self)@[at as int].stopped()),
            final(self).wf(),
    {
        let ghost before = self@;
        let mut record = self.entries.remove(at);
        record.pid = None;
        record.status = ProcessStatus::Stopped;
        let ghost stopped = record@;
        self.entries.insert(at, record);
        assert(self@ == before.update(at as int, stopped));
    }

    /// The names of all records, in order.
    pub fn names(&self) -> (names: Vec<String>)
        ensures
            names.deep_view() == names_of(self@),
    {
        let mut names: Vec<String> = Vec::new();
        let mut i: usize = 0;
        while i < self.entries.len()
            invariant
                i <= self.entries.len(),
                names.deep_view() == names_of(self@).take(i as int),
            decreases self.entries.len() - i,
        {
            let ghost before = names.deep_view();
            names.push(self.entries[i].name.clone());
            assert(names.deep_view() == before.push(self@[i as int].name));
            i += 1;
        }
        names
    }

    /// What a client is told about every record when the supervisor's clock
    /// shows `now` milliseconds. The table stays as it is.
    pub fn list(&self, now: u64) -> (infos: Vec<ProcessInfo>)
        ensures
            infos.deep_view() == infos_of(self@, now),
    {
        let mut infos: Vec<ProcessInfo> = Vec::new();
        let mut i: usize = 0;
        while i < self.entries.len()
            invariant
                i <= self.entries.len(),
                infos.deep_view() == infos_of(self@, now).take(i as int),
            decreases self.entries.len() - i,
        {
            let ghost before = infos.deep_view();
            infos.push(self.entries[i].to_process_info(now));
            assert(infos.deep_view() == before.push(self@[i as int].info(now)));
            i += 1;
        }
        infos
    }
}

} // verus!
