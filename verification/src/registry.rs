//! The transfer registry: the process-wide mapping from transfer id to
//! transfer entry, the only shared mutable state of the relay. Every
//! mutation goes through an atomic take-and-insert; a caller that holds the
//! outcome of `take` is the sole owner of that entry.
//!
//! The link a waiting entry carries (the sender-held rendezvous producer) is
//! opaque to the registry and stands as the type parameter `L`.

use vstd::prelude::*;
use crate::meta::FileMetadata;

verus! {

/// Seconds between the cleaner's sweeps of terminal entries.
pub const SWEEP_INTERVAL_SECS: u64 = 60;

/// One entry of the registry: the state a transfer id is in.
pub enum TransferEntry<L> {
    /// The sender is connected and registered; no recipient yet.
    WaitingForRecipient { metadata: FileMetadata, link: L },
    /// The recipient dropped mid-transfer; the sender awaits a new one.
    Reconnecting { metadata: FileMetadata, link: L },
    /// A recipient is attached and the relay is in progress.
    Active,
    /// Terminal; eligible for the cleaner's sweep.
    Done,
}

impl<L> TransferEntry<L> {
    /// A recipient may attach exactly to these states.
    pub open spec fn is_claimable(self) -> bool {
        self is WaitingForRecipient || self is Reconnecting
    }

    /// The metadata a claimable entry carries.
    pub open spec fn spec_metadata(self) -> FileMetadata
        recommends
            self.is_claimable(),
    {
        if self is WaitingForRecipient {
            self->WaitingForRecipient_metadata
        } else {
            self->Reconnecting_metadata
        }
    }

    /// The rendezvous link a claimable entry carries.
    pub open spec fn spec_link(self) -> L
        recommends
            self.is_claimable(),
    {
        if self is WaitingForRecipient {
            self->WaitingForRecipient_link
        } else {
            self->Reconnecting_link
        }
    }
}

/// What the info route learns about an id without claiming it.
#[derive(PartialEq, Eq, Debug)]
pub enum TransferInfo {
    /// A sender is waiting: here is what it declared.
    Available(FileMetadata),
    /// The id exists but is no longer claimable through the info route.
    Gone,
    /// No such id.
    NotFound,
}

/// Pairwise-distinct ids.
pub open spec fn keys_unique<L>(s: Seq<(String, TransferEntry<L>)>) -> bool {
    forall|i: int, j: int| 0 <= i < j < s.len() ==> s[i].0@ != s[j].0@
}

/// The mapping an association list stands for (later pairs win).
pub open spec fn map_of<L>(s: Seq<(String, TransferEntry<L>)>) -> Map<
    Seq<char>,
    TransferEntry<L>,
>
    decreases s.len(),
{
    if s.len() == 0 {
        Map::empty()
    } else {
        map_of(s.drop_last()).insert(s.last().0@, s.last().1)
    }
}

pub proof fn lemma_map_of_contains<L>(s: Seq<(String, TransferEntry<L>)>, k: Seq<char>)
    ensures
        map_of(s).contains_key(k) <==> exists|i: int| 0 <= i < s.len() && s[i].0@ == k,
    decreases s.len(),
{
    if s.len() > 0 {
        lemma_map_of_contains(s.drop_last(), k);
        if s.last().0@ == k {
            assert(s[s.len() - 1].0@ == k);
        } else if map_of(s).contains_key(k) {
            let i = choose|i: int| 0 <= i < s.drop_last().len() && s.drop_last()[i].0@ == k;
            assert(s[i].0@ == k);
        } else if exists|i: int| 0 <= i < s.len() && s[i].0@ == k {
            let i = choose|i: int| 0 <= i < s.len() && s[i].0@ == k;
            assert(s.drop_last()[i].0@ == k);
        }
    }
}

pub proof fn lemma_map_of_index<L>(s: Seq<(String, TransferEntry<L>)>, i: int)
    requires
        keys_unique(s),
        0 <= i < s.len(),
    ensures
        map_of(s).contains_key(s[i].0@),
        map_of(s)[s[i].0@] == s[i].1,
    decreases s.len(),
{
    lemma_map_of_contains(s, s[i].0@);
    if i < s.len() - 1 {
        assert(s[i].0@ != s.last().0@);
        assert(s.drop_last()[i] == s[i]);
        lemma_map_of_index(s.drop_last(), i);
    }
}

pub proof fn lemma_map_of_remove<L>(s: Seq<(String, TransferEntry<L>)>, i: int)
    requires
        keys_unique(s),
        0 <= i < s.len(),
    ensures
        keys_unique(s.remove(i)),
        map_of(s.remove(i)) == map_of(s).remove(s[i].0@),
    decreases s.len(),
{
    s.remove_ensures(i);
    assert(keys_unique(s.remove(i)));
    lemma_map_of_contains(s.drop_last(), s[i].0@);
    if i == s.len() - 1 {
        assert(s.remove(i) =~= s.drop_last());
        assert(!map_of(s.drop_last()).contains_key(s[i].0@));
        assert(map_of(s.drop_last()) =~= map_of(s).remove(s[i].0@));
    } else {
        assert(s.remove(i).drop_last() =~= s.drop_last().remove(i));
        assert(s.remove(i).last() == s.last());
        lemma_map_of_remove(s.drop_last(), i);
        assert(s.drop_last()[i] == s[i]);
        assert(s[i].0@ != s.last().0@);
        assert(map_of(s.remove(i)) =~= map_of(s).remove(s[i].0@));
    }
}

/// The registry itself: an association list with pairwise-distinct ids,
/// seen abstractly as a map from id to entry.
pub struct TransferRegistry<L> {
    entries: Vec<(String, TransferEntry<L>)>,
}

impl<L> View for TransferRegistry<L> {
    type V = Map<Seq<char>, TransferEntry<L>>;

    closed spec fn view(&self) -> Map<Seq<char>, TransferEntry<L>> {
        map_of(self.entries@)
    }
}

impl<L> TransferRegistry<L> {
    /// The registry's internal invariant: no id occurs twice.
    pub closed spec fn wf(self) -> bool {
        keys_unique(self.entries@)
    }

    /// An empty registry.
    pub fn new() -> (r: TransferRegistry<L>)
        ensures
            r.wf(),
            r@ == Map::<Seq<char>, TransferEntry<L>>::empty(),
    {
        TransferRegistry { entries: Vec::new() }
    }

    fn find_index(&self, id: &String) -> (r: Option<usize>)
        ensures
            match r {
                Some(i) => i < self.entries@.len() && self.entries@[i as int].0@ == id@,
                None => forall|i: int|
                    0 <= i < self.entries@.len() ==> self.entries@[i].0@ != id@,
            },
    {
        let n = self.entries.len();
        let mut i: usize = 0;
        while i < n
            invariant
                i <= n,
                n == self.entries@.len(),
                forall|j: int| 0 <= j < i ==> self.entries@[j].0@ != id@,
            decreases n - i,
        {
            if self.entries[i].0 == *id {
                return Some(i);
            }
            i = i + 1;
        }
        None
    }

    /// Whether an id is present, in any state. Read-only: not a basis for
    /// mutation (mutation goes through `take` and `put`).
    pub fn contains(&self, id: &String) -> (r: bool)
        ensures
            r == self@.contains_key(id@),
    {
        proof {
            lemma_map_of_contains(self.entries@, id@);
        }
        self.find_index(id).is_some()
    }

    /// Atomic remove-and-return: the basis for every claim or mutate-in-place.
    /// `None` means "not present or already claimed".
    pub fn take(&mut self, id: &String) -> (r: Option<TransferEntry<L>>)
        requires
            old(self).wf(),
        ensures
            final(self).wf(),
            match r {
                Some(e) => old(self)@.contains_key(id@) && e == old(self)@[id@] && final(self)@
                    == old(self)@.remove(id@),
                None => !old(self)@.contains_key(id@) && final(self)@ == old(self)@,
            },
    {
        proof {
            lemma_map_of_contains(self.entries@, id@);
        }
        match self.find_index(id) {
            Some(i) => {
                proof {
                    lemma_map_of_index(self.entries@, i as int);
                    lemma_map_of_remove(self.entries@, i as int);
                }
                let (_, e) = self.entries.remove(i);
                Some(e)
            },
            None => None,
        }
    }

    /// Unconditional insert, replacing whatever was there: used to put a
    /// taken entry back after mutation.
    pub fn put(&mut self, id: String, entry: TransferEntry<L>)
        requires
            old(self).wf(),
        ensures
            final(self).wf(),
            final(self)@ == old(self)@.insert(id@, entry),
    {
        let _ = self.take(&id);
        proof {
            lemma_map_of_contains(self.entries@, id@);
        }
        let ghost pre = self.entries@;
        self.entries.push((id, entry));
        proof {
            assert(self.entries@.drop_last() =~= pre);
            assert(map_of(self.entries@) =~= old(self)@.insert(id@, entry));
        }
    }

    /// Insert that fails when the id is in use; the rejected pair comes back
    /// to the caller. Used only after fresh id generation.
    pub fn insert_unique(&mut self, id: String, entry: TransferEntry<L>) -> (r: Result<
        (),
        (String, TransferEntry<L>),
    >)
        requires
            old(self).wf(),
        ensures
            final(self).wf(),
            match r {
                Ok(_) => !old(self)@.contains_key(id@) && final(self)@ == old(self)@.insert(
                    id@,
                    entry,
                ),
                Err(back) => old(self)@.contains_key(id@) && back.0 == id && back.1 == entry
                    && final(self)@ == old(self)@,
            },
    {
        proof {
            lemma_map_of_contains(self.entries@, id@);
        }
        if self.contains(&id) {
            Err((id, entry))
        } else {
            let ghost pre = self.entries@;
            self.entries.push((id, entry));
            proof {
                assert(self.entries@.drop_last() =~= pre);
            }
            Ok(())
        }
    }

    /// Drop an entry without returning it; a no-op when the id is absent.
    pub fn remove(&mut self, id: &String)
        requires
            old(self).wf(),
        ensures
            final(self).wf(),
            final(self)@ == old(self)@.remove(id@),
    {
        let taken = self.take(id);
        proof {
            if taken is None {
                assert(old(self)@ =~= old(self)@.remove(id@));
            }
        }
    }

    /// What the info route reports for an id: the metadata while a sender
    /// is waiting, "gone" for an entry in any other state, "not found" for
    /// a missing id.
    pub fn info(&self, id: &String) -> (r: TransferInfo)
        requires
            self.wf(),
        ensures
            r is NotFound <==> !self@.contains_key(id@),
            r is Available <==> self@.contains_key(id@) && self@[id@] is WaitingForRecipient,
            r matches TransferInfo::Available(m) ==> m == self@[id@]->WaitingForRecipient_metadata,
            r is Gone <==> self@.contains_key(id@) && !(self@[id@] is WaitingForRecipient),
    {
        proof {
            lemma_map_of_contains(self.entries@, id@);
        }
        match self.find_index(id) {
            Some(i) => {
                proof {
                    lemma_map_of_index(self.entries@, i as int);
                }
                match &self.entries[i].1 {
                    TransferEntry::WaitingForRecipient { metadata, .. } => TransferInfo::Available(
                        metadata.clone(),
                    ),
                    _ => TransferInfo::Gone,
                }
            },
            None => TransferInfo::NotFound,
        }
    }

    /// The cleaner's sweep: removes every entry in the terminal state and
    /// nothing else; surviving entries keep their values.
    pub fn sweep_done(&mut self)
        requires
            old(self).wf(),
        ensures
            final(self).wf(),
            forall|k: Seq<char>| #[trigger]
                final(self)@.contains_key(k) <==> (old(self)@.contains_key(k) && !(old(
                    self,
                )@[k] is Done)),
            forall|k: Seq<char>| #[trigger]
                final(self)@.contains_key(k) ==> final(self)@[k] == old(self)@[k],
    {
        let mut i: usize = 0;
        while i < self.entries.len()
            invariant
                old(self).wf(),
                keys_unique(self.entries@),
                i <= self.entries@.len(),
                forall|j: int| 0 <= j < i ==> !(self.entries@[j].1 is Done),
                forall|k: Seq<char>| #[trigger]
                    map_of(self.entries@).contains_key(k) ==> old(self)@.contains_key(k)
                        && map_of(self.entries@)[k] == old(self)@[k],
                forall|k: Seq<char>|
                    old(self)@.contains_key(k) && !(#[trigger] old(self)@[k] is Done) ==> map_of(
                        self.entries@,
                    ).contains_key(k),
            decreases self.entries@.len() - i,
        {
            let is_done = match &self.entries[i].1 {
                TransferEntry::Done => true,
                _ => false,
            };
            if is_done {
                proof {
                    lemma_map_of_index(self.entries@, i as int);
                    lemma_map_of_remove(self.entries@, i as int);
                }
                let _ = self.entries.remove(i);
            } else {
                i = i + 1;
            }
        }
        proof {
            assert forall|k: Seq<char>| #[trigger]
                map_of(self.entries@).contains_key(k) implies !(old(self)@[k] is Done) by {
                lemma_map_of_contains(self.entries@, k);
                let j = choose|j: int|
                    0 <= j < self.entries@.len() && self.entries@[j].0@ == k;
                lemma_map_of_index(self.entries@, j);
            }
        }
    }
}

} // verus!
