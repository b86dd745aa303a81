//! The contract instance: its concrete state, and the command and query entry
//! points, proved against the model in [`crate::types`].

use vstd::prelude::*;

use crate::types::Command;
use crate::types::ContractId;
use crate::types::Error;
use crate::types::Identity;
use crate::types::Request;
use crate::types::Response;
use crate::types::StateV;
use crate::types::TransactionStatus;
use crate::types::TxRef;
use crate::types::HELLO_WORLD;
use crate::types::initial_state;
use crate::types::spec_answer;
use crate::types::spec_apply;
use crate::types::stored_files;
use crate::types::view_option;
use crate::types::wrap_add32;
use vstd::arithmetic::div_mod::lemma_mod_sub_multiples_vanish;
use vstd::arithmetic::div_mod::lemma_small_mod;

verus! {

/// One identity's record: the owning identity and the addresses added for it,
/// oldest first.
struct FileEntry {
    owner: Identity,
    addresses: Vec<String>,
}

/// The contract's durable state: a counter, and for each identity that ever
/// added a file, the addresses it added, in submission order.
///
/// The records are held as a vector of per-owner entries; the abstraction to
/// a map from identity to addresses is the view, [`StateV`].
pub struct HelloWorld {
    counter: u32,
    files: Vec<FileEntry>,
}

/// The map from owner to recorded addresses that a sequence of entries holds.
spec fn map_of(entries: Seq<FileEntry>) -> Map<Identity, Seq<Seq<char>>>
    decreases entries.len(),
{
    if entries.len() == 0 {
        Map::empty()
    } else {
        map_of(entries.drop_last()).insert(
            entries.last().owner,
            entries.last().addresses.deep_view(),
        )
    }
}

/// No two entries belong to the same owner.
spec fn owners_unique(entries: Seq<FileEntry>) -> bool {
    forall|i: int, j: int|
        0 <= i < j < entries.len() ==> entries[i].owner != entries[j].owner
}

/// Every entry holds at least one address.
spec fn entries_nonempty(entries: Seq<FileEntry>) -> bool {
    forall|i: int| 0 <= i < entries.len() ==> entries[i].addresses@.len() > 0
}

/// An identity is in the map of a sequence of entries exactly when some entry
/// belongs to it.
proof fn lemma_map_of_contains(entries: Seq<FileEntry>, k: Identity)
    ensures
        map_of(entries).contains_key(k) <==> exists|i: int|
            0 <= i < entries.len() && entries[i].owner == k,
    decreases entries.len(),
{
    if entries.len() > 0 {
        lemma_map_of_contains(entries.drop_last(), k);
        if entries.last().owner == k {
            assert(entries[entries.len() - 1].owner == k);
        } else {
            if map_of(entries).contains_key(k) {
                let i = choose|i: int|
                    0 <= i < entries.drop_last().len() && entries.drop_last()[i].owner == k;
                assert(entries[i].owner == k);
            }
            if exists|i: int| 0 <= i < entries.len() && entries[i].owner == k {
                let i = choose|i: int| 0 <= i < entries.len() && entries[i].owner == k;
                assert(entries.drop_last()[i].owner == k);
            }
        }
    }
}

/// Dropping the last entry keeps the owners pairwise distinct.
proof fn lemma_unique_drop_last(entries: Seq<FileEntry>)
    requires
        owners_unique(entries),
        entries.len() > 0,
    ensures
        owners_unique(entries.drop_last()),
{
    assert forall|i: int, j: int|
        0 <= i < j < entries.drop_last().len() implies entries.drop_last()[i].owner
        != entries.drop_last()[j].owner by {
        assert(entries.drop_last()[i] == entries[i]);
        assert(entries.drop_last()[j] == entries[j]);
    }
}

/// With pairwise distinct owners, the map of the entries sends each entry's
/// owner to that entry's addresses.
proof fn lemma_map_of_index(entries: Seq<FileEntry>, i: int)
    requires
        owners_unique(entries),
        0 <= i < entries.len(),
    ensures
        map_of(entries).contains_key(entries[i].owner),
        map_of(entries)[entries[i].owner] == entries[i].addresses.deep_view(),
    decreases entries.len(),
{
    if i < entries.len() - 1 {
        lemma_unique_drop_last(entries);
        lemma_map_of_index(entries.drop_last(), i);
        assert(entries.drop_last()[i] == entries[i]);
        assert(entries.last().owner != entries[i].owner);
    }
}

/// Replacing the entry at `i` by one with the same owner replaces exactly that
/// owner's addresses in the map of the entries.
proof fn lemma_map_of_update(entries: Seq<FileEntry>, i: int, e: FileEntry)
    requires
        owners_unique(entries),
        0 <= i < entries.len(),
        e.owner == entries[i].owner,
    ensures
        map_of(entries.update(i, e)) == map_of(entries).insert(e.owner, e.addresses.deep_view()),
    decreases entries.len(),
{
    let u = entries.update(i, e);
    let v = e.addresses.deep_view();
    if i == entries.len() - 1 {
        assert(u.drop_last() =~= entries.drop_last());
        assert(u.last() == e);
        assert(map_of(entries).insert(e.owner, v) =~= map_of(entries.drop_last()).insert(
            e.owner,
            v,
        ));
    } else {
        lemma_unique_drop_last(entries);
        assert(u.drop_last() =~= entries.drop_last().update(i, e));
        assert(u.last() == entries.last());
        lemma_map_of_update(entries.drop_last(), i, e);
        let lo = entries.last().owner;
        let lv = entries.last().addresses.deep_view();
        assert(lo != e.owner);
        assert(map_of(entries.drop_last()).insert(e.owner, v).insert(lo, lv) =~= map_of(
            entries.drop_last(),
        ).insert(lo, lv).insert(e.owner, v));
    }
}

/// Appending an entry inserts its owner's addresses into the map of the
/// entries.
proof fn lemma_map_of_push(entries: Seq<FileEntry>, e: FileEntry)
    ensures
        map_of(entries.push(e)) == map_of(entries).insert(e.owner, e.addresses.deep_view()),
{
    assert(entries.push(e).drop_last() =~= entries);
    assert(entries.push(e).last() == e);
}

impl View for HelloWorld {
    type V = StateV;

    closed spec fn view(&self) -> StateV {
        StateV { counter: self.counter, files: map_of(self.files@) }
    }
}

impl HelloWorld {
    /// Well-formedness: one entry per identity, and an identity is only on
    /// record once it has at least one file.  `new` establishes it and both
    /// entry points preserve it.
    pub closed spec fn wf(&self) -> bool {
        owners_unique(self.files@) && entries_nonempty(self.files@)
    }

    /// Initializes the contract: counter at zero, no files on record.
    pub fn new() -> (contract: Self)
        ensures
            contract.wf(),
            contract@ == initial_state(),
    {
        let contract = HelloWorld { counter: 0, files: Vec::new() };
        proof {
            assert(contract@.files =~= initial_state().files);
        }
        contract
    }

    /// The identifier under which the host dispatches to this contract.
    pub fn id(&self) -> (r: ContractId)
        ensures
            r == HELLO_WORLD,
    {
        HELLO_WORLD
    }

    /// Position of `who`'s entry among the records, if any.
    fn find_owner(entries: &Vec<FileEntry>, who: &Identity) -> (r: Option<usize>)
        ensures
            match r {
                Some(i) => i < entries@.len() && entries@[i as int].owner == *who,
                None => forall|j: int| 0 <= j < entries@.len() ==> entries@[j].owner != *who,
            },
    {
        let mut i: usize = 0;
        while i < entries.len()
            invariant
                i <= entries@.len(),
                forall|j: int| 0 <= j < i ==> entries@[j].owner != *who,
            decreases entries@.len() - i,
        {
            if entries[i].owner == *who {
                return Some(i);
            }
            i = i + 1;
        }
        None
    }

    /// Applies one ledger command for `origin` and reports the terminal
    /// status.  The new state is exactly [`spec_apply`] of the old one:
    /// `Increment` adds to the counter modulo 2^32, `AddFile` appends the
    /// address to `origin`'s record (creating it on first addition), and every
    /// command in this core is accepted.
    pub fn handle_command(
        &mut self,
        origin: &Identity,
        _txref: &TxRef,
        cmd: Command,
    ) -> (status: TransactionStatus)
        requires
            old(self).wf(),
        ensures
            final(self).wf(),
            final(self)@ == spec_apply(old(self)@, *origin, cmd@),
            status == TransactionStatus::Accepted,
    {
        match cmd {
            Command::Increment { value } => {
                self.counter = self.counter.wrapping_add(value);
                proof {
                    let total = old(self).counter + value;
                    if total <= u32::MAX {
                        lemma_small_mod(total as nat, 0x1_0000_0000nat);
                    } else {
                        lemma_mod_sub_multiples_vanish(total, 0x1_0000_0000int);
                        lemma_small_mod((total - 0x1_0000_0000) as nat, 0x1_0000_0000nat);
                    }
                    assert(self.counter == wrap_add32(old(self).counter, value));
                }
                TransactionStatus::Accepted
            },
            Command::AddFile { address } => {
                let ghost addr: Seq<char> = address@;
                let ghost before: Seq<FileEntry> = self.files@;
                match Self::find_owner(&self.files, origin) {
                    Some(i) => {
                        proof {
                            lemma_map_of_index(before, i as int);
                        }
                        let entry = &mut self.files[i];
                        entry.addresses.push(address);
                        proof {
                            let e2 = self.files@[i as int];
                            assert(self.files@ == before.update(i as int, e2));
                            assert(e2.addresses.deep_view() =~= before[i as int].addresses.deep_view().push(addr));
                            lemma_map_of_update(before, i as int, e2);
                            assert(self@.files == old(self)@.files.insert(
                                *origin,
                                stored_files(old(self)@, *origin).push(addr),
                            ));
                            assert forall|x: int, y: int|
                                0 <= x < y < self.files@.len() implies self.files@[x].owner
                                != self.files@[y].owner by {
                                assert(self.files@[x].owner == before[x].owner);
                                assert(self.files@[y].owner == before[y].owner);
                            }
                        }
                        TransactionStatus::Accepted
                    },
                    None => {
                        proof {
                            lemma_map_of_contains(before, *origin);
                        }
                        let mut addresses: Vec<String> = Vec::new();
                        addresses.push(address);
                        self.files.push(FileEntry { owner: *origin, addresses });
                        proof {
                            let e = self.files@.last();
                            assert(e.addresses.deep_view() =~= Seq::empty().push(addr));
                            lemma_map_of_push(before, e);
                            assert(!old(self)@.files.contains_key(*origin));
                            assert(self@.files == old(self)@.files.insert(
                                *origin,
                                stored_files(old(self)@, *origin).push(addr),
                            ));
                        }
                        TransactionStatus::Accepted
                    },
                }
            },
        }
    }

    /// Answers one read-only query.  The state is taken by shared reference,
    /// so no query can change it, and the response is exactly
    /// [`spec_answer`] of the state: `GetCount` reports the counter whatever
    /// the origin is, and `GetFiles` returns the origin's files in submission
    /// order, or a structured error when no origin was supplied or nothing is
    /// on record.  No query path is fatal to the caller.
    pub fn handle_query(&self, origin: Option<&Identity>, req: Request) -> (resp: Response)
        requires
            self.wf(),
        ensures
            resp@ == spec_answer(self@, view_option(origin), req),
    {
        match req {
            Request::GetCount => Response::GetCount { count: self.counter },
            Request::GetFiles => match origin {
                None => Response::Error(Error::MissingOrigin),
                Some(who) => match Self::find_owner(&self.files, who) {
                    Some(i) => {
                        proof {
                            lemma_map_of_index(self.files@, i as int);
                        }
                        let file = self.files[i].addresses.clone();
                        proof {
                            assert(file@ =~= self.files@[i as int].addresses@);
                            assert(file.deep_view() =~= self.files@[i as int].addresses.deep_view());
                        }
                        Response::GetFiles { file }
                    },
                    None => {
                        proof {
                            lemma_map_of_contains(self.files@, *who);
                        }
                        Response::Error(Error::NotAuthorized)
                    },
                },
            },
        }
    }
}

} // verus!
