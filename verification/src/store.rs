//! The snapshot store and the refresh decision: atomic whole-snapshot
//! replacement, point lookup, and failure isolation.

use vstd::prelude::*;

use crate::data::Account;
use crate::data::AccountId;
use crate::data::AccountStats;
use crate::data::AccountV;
use crate::data::Data;
use crate::data::FollowEdge;
use crate::data::RawAccount;
use crate::data::lookup_spec;
use crate::join::JoinError;
use crate::join::build_ok;
use crate::join::snapshot_of;

verus! {

/// A failure of one source fetch, as classified by the transport layer.
#[derive(Debug, PartialEq, Eq)]
pub enum FetchError {
    /// The transport failed before a body was obtained.
    Transport,
    /// The body was obtained but did not decode as the expected records.
    Decode,
}

/// Why one refresh cycle produced no new snapshot.
#[derive(Debug, PartialEq, Eq)]
pub enum RefreshError {
    /// A source fetch failed in transport.
    Fetch,
    /// A source fetch failed to decode.
    Decode,
    /// The fetched feeds violated a join integrity rule.
    Join(JoinError),
}

/// Holds the currently authoritative snapshot. Replacement is
/// whole-snapshot only: a reader is answered from exactly one fully
/// built generation, never from a mixture of two.
pub struct Store {
    pub current: Data,
}

impl View for Store {
    type V = Map<Seq<char>, AccountV>;

    open spec fn view(&self) -> Map<Seq<char>, AccountV> {
        self.current@
    }
}

impl Store {
    /// The held snapshot is well formed.
    pub open spec fn wf(&self) -> bool {
        self.current.wf()
    }

    /// Starts serving from an initial snapshot.
    pub fn new(initial: Data) -> (s: Store)
        ensures
            s.current == initial,
    {
        Store { current: initial }
    }

    /// Point lookup into the currently installed generation. The answer
    /// is a function of that one generation alone.
    pub fn lookup(&self, account_id: &AccountId) -> (r: Option<Account>)
        requires
            self.wf(),
        ensures
            r.deep_view() == lookup_spec(self@, account_id@),
    {
        self.current.get_account(account_id)
    }

    /// Atomic whole-snapshot replacement: afterwards the store holds
    /// exactly the new snapshot; nothing of the previous generation
    /// survives, and nothing of the new one was visible before.
    pub fn install(&mut self, snapshot: Data)
        ensures
            final(self).current == snapshot,
    {
        self.current = snapshot;
    }

    /// One refresh cycle, fed with the outcome of fetching the three
    /// source feeds. On success the built snapshot is installed whole;
    /// on any failure — transport, decode, or join integrity — the
    /// previously installed snapshot is left untouched and the error is
    /// reported.
    pub fn refresh(
        &mut self,
        fetched: Result<(Vec<RawAccount>, Vec<AccountStats>, Vec<FollowEdge>), FetchError>,
    ) -> (r: Result<(), RefreshError>)
        ensures
            r is Err ==> *final(self) == *old(self),
            r is Ok <==> (fetched is Ok && build_ok(
                (fetched->Ok_0).0.deep_view(),
                (fetched->Ok_0).2.deep_view(),
            )),
            r is Ok ==> final(self).wf() && final(self)@ == snapshot_of(
                (fetched->Ok_0).0.deep_view(),
                (fetched->Ok_0).1.deep_view(),
                (fetched->Ok_0).2.deep_view(),
            ),
            fetched == Err::<(Vec<RawAccount>, Vec<AccountStats>, Vec<FollowEdge>), FetchError>(
                FetchError::Transport,
            ) ==> r == Err::<(), RefreshError>(RefreshError::Fetch),
            fetched == Err::<(Vec<RawAccount>, Vec<AccountStats>, Vec<FollowEdge>), FetchError>(
                FetchError::Decode,
            ) ==> r == Err::<(), RefreshError>(RefreshError::Decode),
            (fetched is Ok && r is Err) ==> r == Err::<(), RefreshError>(
                RefreshError::Join(
                    crate::join::build_error(
                        (fetched->Ok_0).0.deep_view(),
                        (fetched->Ok_0).2.deep_view(),
                    ),
                ),
            ),
    {
        match fetched {
            Ok((accounts, stats, edges)) => match Data::build(accounts, stats, edges) {
                Ok(snapshot) => {
                    self.install(snapshot);
                    Ok(())
                },
                Err(e) => Err(RefreshError::Join(e)),
            },
            Err(FetchError::Transport) => Err(RefreshError::Fetch),
            Err(FetchError::Decode) => Err(RefreshError::Decode),
        }
    }
}

/// A lookup is answered from exactly one generation: two stores holding
/// equal snapshots answer every lookup identically, so no observable
/// field mixes values of two generations.
pub proof fn lemma_lookup_single_generation(s1: Store, s2: Store, account_id: Seq<char>)
    requires
        s1@ == s2@,
    ensures
        lookup_spec(s1@, account_id) == lookup_spec(s2@, account_id),
{
}

} // verus!
