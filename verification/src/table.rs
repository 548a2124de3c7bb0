//! The entries that stand for live sessions, and the table that a sequence
//! of entries with distinct identifiers stands for.

use std::sync::mpsc::Sender;
use vstd::prelude::*;
use crate::buffer::OutputBuffer;
use crate::model::{OutputLineView, SessionState};

verus! {

/// One live session: its identity, status, history and the queue that
/// carries input to its child process.
pub struct ManagedProcess {
    pub id: String,
    pub project_id: String,
    pub state: SessionState,
    pub created_at: String,
    pub output_buffer: OutputBuffer,
    pub stdin_sender: Option<Sender<String>>,
}

/// What the table records of one session, as mathematical values.
pub struct SessionRecord {
    pub project_id: Seq<char>,
    pub state: SessionState,
    pub created_at: Seq<char>,
    pub output: Seq<OutputLineView>,
    pub has_input: bool,
}

impl View for ManagedProcess {
    type V = SessionRecord;

    open spec fn view(&self) -> SessionRecord {
        SessionRecord {
            project_id: self.project_id@,
            state: self.state,
            created_at: self.created_at@,
            output: self.output_buffer@,
            has_input: self.stdin_sender is Some,
        }
    }
}

/// No two entries carry the same identifier.
pub open spec fn distinct_ids(entries: Seq<ManagedProcess>) -> bool {
    forall|i: int, j: int|
        0 <= i < entries.len() && 0 <= j < entries.len() && i != j ==> (#[trigger] entries[i]).id@
            != (#[trigger] entries[j]).id@
}

/// Some entry carries `session_id`.
pub open spec fn holds_id(entries: Seq<ManagedProcess>, session_id: Seq<char>) -> bool {
    exists|i: int| 0 <= i < entries.len() && (#[trigger] entries[i]).id@ == session_id
}

/// The place of an entry that carries `session_id`.
pub open spec fn slot_of(entries: Seq<ManagedProcess>, session_id: Seq<char>) -> int {
    choose|i: int| 0 <= i < entries.len() && (#[trigger] entries[i]).id@ == session_id
}

/// The table that a sequence of entries stands for: each identifier mapped
/// to the record of the entry that carries it.
pub open spec fn table_of(entries: Seq<ManagedProcess>) -> Map<Seq<char>, SessionRecord> {
    Map::new(
        |session_id: Seq<char>| holds_id(entries, session_id),
        |session_id: Seq<char>| entries[slot_of(entries, session_id)]@,
    )
}

/// Among entries with distinct identifiers, the entry at `i` is the one
/// that the table records under its identifier.
pub proof fn lemma_slot(entries: Seq<ManagedProcess>, i: int)
    requires
        distinct_ids(entries),
        0 <= i < entries.len(),
    ensures
        holds_id(entries, entries[i].id@),
        slot_of(entries, entries[i].id@) == i,
        table_of(entries).dom().contains(entries[i].id@),
        table_of(entries)[entries[i].id@] == entries[i]@,
{
    assert(holds_id(entries, entries[i].id@));
    let j = slot_of(entries, entries[i].id@);
    assert(0 <= j < entries.len() && entries[j].id@ == entries[i].id@);
}

/// A table has as many sessions as there are entries with distinct
/// identifiers.
pub proof fn lemma_table_size(entries: Seq<ManagedProcess>)
    requires
        distinct_ids(entries),
    ensures
        table_of(entries).dom().finite(),
        table_of(entries).dom().len() == entries.len(),
    decreases entries.len(),
{
    if entries.len() == 0 {
        assert(table_of(entries).dom() =~= Set::<Seq<char>>::empty());
    } else {
        let init = entries.drop_last();
        let last = entries.last();
        assert(distinct_ids(init)) by {
            assert forall|i: int, j: int|
                0 <= i < init.len() && 0 <= j < init.len() && i != j implies (#[trigger] init[i]).id@
                != (#[trigger] init[j]).id@ by {
                assert(init[i] == entries[i] && init[j] == entries[j]);
            }
        }
        lemma_table_size(init);
        assert(!holds_id(init, last.id@)) by {
            if holds_id(init, last.id@) {
                let k = slot_of(init, last.id@);
                assert(init[k] == entries[k]);
                assert(entries[entries.len() - 1] == last);
            }
        }
        assert(table_of(entries).dom() =~= table_of(init).dom().insert(last.id@)) by {
            assert forall|id: Seq<char>| holds_id(entries, id) <==> (holds_id(init, id) || id
                == last.id@) by {
                if holds_id(entries, id) {
                    let k = slot_of(entries, id);
                    if k < init.len() {
                        assert(init[k] == entries[k]);
                    }
                }
                if holds_id(init, id) {
                    let k = slot_of(init, id);
                    assert(init[k] == entries[k]);
                }
                if id == last.id@ {
                    assert(entries[entries.len() - 1] == last);
                }
            }
        }
    }
}

/// Every entry is recorded under its identifier, and every identifier in
/// the table is carried by the entry at its slot.
pub proof fn lemma_table_entries(entries: Seq<ManagedProcess>)
    requires
        distinct_ids(entries),
    ensures
        forall|k: int|
            0 <= k < entries.len() ==> {
                &&& table_of(entries).dom().contains((#[trigger] entries[k]).id@)
                &&& table_of(entries)[entries[k].id@] == entries[k]@
            },
        forall|id: Seq<char>| #[trigger]
            table_of(entries).dom().contains(id) ==> {
                &&& 0 <= slot_of(entries, id) < entries.len()
                &&& entries[slot_of(entries, id)].id@ == id
            },
{
    assert forall|k: int| 0 <= k < entries.len() implies {
        &&& table_of(entries).dom().contains((#[trigger] entries[k]).id@)
        &&& table_of(entries)[entries[k].id@] == entries[k]@
    } by {
        lemma_slot(entries, k);
    }
}

/// Adding an entry under an identifier that the table does not hold
/// inserts its record.
pub proof fn lemma_table_push(entries: Seq<ManagedProcess>, entry: ManagedProcess)
    requires
        distinct_ids(entries),
        !table_of(entries).dom().contains(entry.id@),
    ensures
        distinct_ids(entries.push(entry)),
        table_of(entries.push(entry)) == table_of(entries).insert(entry.id@, entry@),
{
    let grown = entries.push(entry);
    lemma_table_entries(entries);
    assert(distinct_ids(grown)) by {
        assert forall|i: int, j: int|
            0 <= i < grown.len() && 0 <= j < grown.len() && i != j implies (#[trigger] grown[i]).id@
            != (#[trigger] grown[j]).id@ by {
            if i < entries.len() {
                assert(grown[i] == entries[i]);
            }
            if j < entries.len() {
                assert(grown[j] == entries[j]);
            }
        }
    }
    lemma_table_entries(grown);
    let target = table_of(entries).insert(entry.id@, entry@);
    assert forall|id: Seq<char>| table_of(grown).dom().contains(id) <==> target.dom().contains(
        id,
    ) by {
        if table_of(grown).dom().contains(id) {
            let k = slot_of(grown, id);
            if k < entries.len() {
                assert(grown[k] == entries[k]);
            }
        }
        if table_of(entries).dom().contains(id) {
            let k = slot_of(entries, id);
            assert(grown[k] == entries[k]);
        }
        if id == entry.id@ {
            assert(grown[entries.len() as int] == entry);
        }
    }
    assert forall|id: Seq<char>| table_of(grown).dom().contains(id) implies table_of(grown)[id]
        == target[id] by {
        let k = slot_of(grown, id);
        if k < entries.len() {
            assert(grown[k] == entries[k]);
        }
    }
    assert(table_of(grown) =~= target);
}

/// Replacing an entry by one with the same identifier replaces its record.
pub proof fn lemma_table_update(entries: Seq<ManagedProcess>, i: int, entry: ManagedProcess)
    requires
        distinct_ids(entries),
        0 <= i < entries.len(),
        entry.id@ == entries[i].id@,
    ensures
        distinct_ids(entries.update(i, entry)),
        table_of(entries.update(i, entry)) == table_of(entries).insert(entry.id@, entry@),
{
    let changed = entries.update(i, entry);
    lemma_table_entries(entries);
    assert(distinct_ids(changed)) by {
        assert forall|a: int, b: int|
            0 <= a < changed.len() && 0 <= b < changed.len() && a != b implies (
            #[trigger] changed[a]).id@ != (#[trigger] changed[b]).id@ by {
            assert(changed[a].id@ == entries[a].id@);
            assert(changed[b].id@ == entries[b].id@);
        }
    }
    lemma_table_entries(changed);
    let target = table_of(entries).insert(entry.id@, entry@);
    assert forall|id: Seq<char>| table_of(changed).dom().contains(id) <==> target.dom().contains(
        id,
    ) by {
        if table_of(changed).dom().contains(id) {
            let k = slot_of(changed, id);
            assert(changed[k].id@ == entries[k].id@);
        }
        if table_of(entries).dom().contains(id) {
            let k = slot_of(entries, id);
            assert(changed[k].id@ == entries[k].id@);
        }
        if id == entry.id@ {
            assert(changed[i] == entry);
        }
    }
    assert forall|id: Seq<char>| table_of(changed).dom().contains(id) implies table_of(changed)[id]
        == target[id] by {
        let k = slot_of(changed, id);
        if k != i {
            assert(changed[k] == entries[k]);
        }
    }
    assert(table_of(changed) =~= target);
}

/// Taking an entry out removes its record.
pub proof fn lemma_table_remove(entries: Seq<ManagedProcess>, i: int)
    requires
        distinct_ids(entries),
        0 <= i < entries.len(),
    ensures
        distinct_ids(entries.remove(i)),
        table_of(entries.remove(i)) == table_of(entries).remove(entries[i].id@),
{
    let rest = entries.remove(i);
    lemma_table_entries(entries);
    assert forall|k: int| 0 <= k < rest.len() implies #[trigger] rest[k] == entries[if k < i {
        k
    } else {
        k + 1
    }] by {}
    assert(distinct_ids(rest)) by {
        assert forall|a: int, b: int|
            0 <= a < rest.len() && 0 <= b < rest.len() && a != b implies (#[trigger] rest[a]).id@
            != (#[trigger] rest[b]).id@ by {
            let a0 = if a < i { a } else { a + 1 };
            let b0 = if b < i { b } else { b + 1 };
            assert(rest[a] == entries[a0]);
            assert(rest[b] == entries[b0]);
        }
    }
    lemma_table_entries(rest);
    let target = table_of(entries).remove(entries[i].id@);
    assert forall|id: Seq<char>| table_of(rest).dom().contains(id) <==> target.dom().contains(
        id,
    ) by {
        if table_of(rest).dom().contains(id) {
            let k = slot_of(rest, id);
            let k0 = if k < i { k } else { k + 1 };
            assert(rest[k] == entries[k0]);
        }
        if target.dom().contains(id) {
            let k = slot_of(entries, id);
            let k1 = if k < i { k } else { k - 1 };
            assert(rest[k1] == entries[k]);
        }
    }
    assert forall|id: Seq<char>| table_of(rest).dom().contains(id) implies table_of(rest)[id]
        == target[id] by {
        let k = slot_of(rest, id);
        let k0 = if k < i { k } else { k + 1 };
        assert(rest[k] == entries[k0]);
    }
    assert(table_of(rest) =~= target);
}

} // verus!
