//! Session resumption across process restarts: the tokens, the persisted
//! record of them, and its reconciliation with the shard count of a new run.

use vstd::prelude::*;

verus! {

/// The session of a connection: what the event source needs to continue it.
#[derive(Debug)]
pub struct Session {
    /// The session's identifier.
    pub id: String,
    /// The sequence number of the last event received in the session.
    pub sequence: u64,
}

/// The mathematical value of a [`Session`].
pub struct SessionView {
    pub id: Seq<char>,
    pub sequence: u64,
}

impl View for Session {
    type V = SessionView;

    open spec fn view(&self) -> SessionView {
        SessionView { id: self.id@, sequence: self.sequence }
    }
}

/// The resumption token of one shard.
#[derive(Debug)]
pub struct Info {
    /// Where to reconnect to.
    pub resume_url: Option<String>,
    /// The session to continue.
    pub session: Option<Session>,
}

/// The mathematical value of an [`Info`].
pub struct InfoView {
    pub resume_url: Option<Seq<char>>,
    pub session: Option<SessionView>,
}

impl InfoView {
    /// The token that resumes nothing.
    pub open spec fn empty() -> InfoView {
        InfoView { resume_url: None, session: None }
    }

    /// Whether the token resumes nothing.
    pub open spec fn is_none(self) -> bool {
        self.resume_url is None && self.session is None
    }
}

impl View for Info {
    type V = InfoView;

    open spec fn view(&self) -> InfoView {
        InfoView {
            resume_url: match self.resume_url {
                Some(url) => Some(url@),
                None => None,
            },
            session: match self.session {
                Some(session) => Some(session@),
                None => None,
            },
        }
    }
}

impl Info {
    /// The token that resumes nothing.
    pub fn empty() -> (token: Info)
        ensures
            token@ == InfoView::empty(),
    {
        Info { resume_url: None, session: None }
    }

    /// Whether the token resumes nothing.
    pub fn is_none(&self) -> (none: bool)
        ensures
            none == self@.is_none(),
    {
        self.resume_url.is_none() && self.session.is_none()
    }
}

/// The values of a sequence of tokens.
pub open spec fn views(tokens: Seq<Info>) -> Seq<InfoView> {
    tokens.map_values(|token: Info| token@)
}

/// Whether every token of `tokens` resumes nothing.
pub open spec fn all_none(tokens: Seq<InfoView>) -> bool {
    forall|i: int| 0 <= i < tokens.len() ==> (#[trigger] tokens[i]).is_none()
}

/// Which shard of how many a connection is.
#[derive(Clone, Copy, Debug, PartialEq, Eq, Structural)]
pub struct ShardIdentity {
    /// The shard's index, below `total`.
    pub index: u32,
    /// The shard count of the run.
    pub total: u32,
}

/// What a new connection starts from.
#[derive(Debug)]
pub struct ShardSeed {
    /// Which shard it is.
    pub identity: ShardIdentity,
    /// The token that it resumes from; an empty one for a fresh session.
    pub token: Info,
}

/// The mathematical value of a [`ShardSeed`].
pub struct SeedView {
    pub identity: ShardIdentity,
    pub token: InfoView,
}

impl View for ShardSeed {
    type V = SeedView;

    open spec fn view(&self) -> SeedView {
        SeedView { identity: self.identity, token: self.token@ }
    }
}

/// The values of a sequence of seeds.
pub open spec fn seed_views(seeds: Seq<ShardSeed>) -> Seq<SeedView> {
    seeds.map_values(|seed: ShardSeed| seed@)
}

/// One seed per token: token `i` of `n` goes to shard `i` of `n`.
pub open spec fn seeds_of(tokens: Seq<InfoView>) -> Seq<SeedView> {
    Seq::new(
        tokens.len(),
        |i: int|
            SeedView {
                identity: ShardIdentity { index: i as u32, total: tokens.len() as u32 },
                token: tokens[i],
            },
    )
}

/// `shards` seeds for fresh sessions.
pub open spec fn fresh_seeds(shards: u32) -> Seq<SeedView> {
    seeds_of(Seq::new(shards as nat, |i: int| InfoView::empty()))
}

/// When a stored record may seed a run of another shard count.
#[derive(Clone, Copy, Debug, PartialEq, Eq, Structural)]
pub enum Reconciliation {
    /// Only a record of exactly the requested length is used.
    Exact,
    /// A record is used if twice its length is no less than the requested
    /// length, and the run then has as many shards as the record has tokens.
    /// A record of 2 tokens is used for 4 requested shards and not for 5.
    AtLeastHalf,
}

impl Reconciliation {
    /// Whether a record of `stored` tokens may seed a run for which `shards`
    /// shards were requested. A record too long for shard indices never may.
    pub open spec fn accepts(self, stored: nat, shards: u32) -> bool {
        &&& stored <= u32::MAX
        &&& match self {
            Reconciliation::Exact => stored == shards,
            Reconciliation::AtLeastHalf => shards <= 2 * stored,
        }
    }

    /// Whether a record of `stored` tokens may seed a run for which `shards`
    /// shards were requested.
    pub fn admits(&self, stored: usize, shards: u32) -> (admitted: bool)
        ensures
            admitted == self.accepts(stored as nat, shards),
    {
        if stored > u32::MAX as usize {
            false
        } else {
            match self {
                Reconciliation::Exact => stored == shards as usize,
                Reconciliation::AtLeastHalf => shards as u64 <= 2 * (stored as u64),
            }
        }
    }
}

/// The mathematical value of a [`ResumeStore`].
pub struct StoreView {
    /// The reconciliation policy.
    pub policy: Reconciliation,
    /// The persisted record, if there is a usable one.
    pub record: Option<Seq<InfoView>>,
}

impl StoreView {
    /// The store after `tokens` were saved: unchanged if none of them
    /// resumes anything, and holding exactly `tokens` otherwise.
    pub open spec fn save(self, tokens: Seq<InfoView>) -> StoreView {
        if all_none(tokens) {
            self
        } else {
            StoreView { record: Some(tokens), ..self }
        }
    }

    /// The seeds that a run of `shards` requested shards starts from: the
    /// stored tokens, each for the shard of its index, if there is a record
    /// that the policy accepts, and fresh sessions otherwise.
    pub open spec fn seeds(self, shards: u32) -> Seq<SeedView> {
        match self.record {
            Some(tokens) => if self.policy.accepts(tokens.len(), shards) {
                seeds_of(tokens)
            } else {
                fresh_seeds(shards)
            },
            None => fresh_seeds(shards),
        }
    }

    /// The store after a restore: the record is gone, used or not.
    pub open spec fn restore(self) -> StoreView {
        StoreView { record: None, ..self }
    }
}

/// The persisted resume record as the running process sees it. Whoever owns
/// the store carries its record to and from the file system.
#[derive(Debug)]
pub struct ResumeStore {
    policy: Reconciliation,
    record: Option<Vec<Info>>,
}

impl View for ResumeStore {
    type V = StoreView;

    closed spec fn view(&self) -> StoreView {
        StoreView {
            policy: self.policy,
            record: match self.record {
                Some(tokens) => Some(views(tokens@)),
                None => None,
            },
        }
    }
}

impl ResumeStore {
    /// The store over what was found persisted: `None` where there was
    /// nothing, or nothing readable.
    pub fn new(policy: Reconciliation, record: Option<Vec<Info>>) -> (store: ResumeStore)
        ensures
            store@.policy == policy,
            store@.record == match record {
                Some(tokens) => Some(views(tokens@)),
                None => None,
            },
    {
        ResumeStore { policy, record }
    }

    /// The policy that the store reconciles by.
    pub fn policy(&self) -> (policy: Reconciliation)
        ensures
            policy == self@.policy,
    {
        self.policy
    }

    /// The record that is to be found persisted.
    pub fn record(&self) -> (record: Option<&Vec<Info>>)
        ensures
            self@.record == match record {
                Some(tokens) => Some(views(tokens@)),
                None => None,
            },
    {
        self.record.as_ref()
    }
}

/// Whether every token of `tokens` resumes nothing.
fn every_token_is_none(tokens: &Vec<Info>) -> (none: bool)
    ensures
        none == all_none(views(tokens@)),
{
    let mut i: usize = 0;
    while i < tokens.len()
        invariant
            i <= tokens.len(),
            forall|j: int| 0 <= j < i ==> (#[trigger] views(tokens@)[j]).is_none(),
        decreases tokens.len() - i,
    {
        if !tokens[i].is_none() {
            assert(!views(tokens@)[i as int].is_none());
            return false;
        }
        i += 1;
    }
    true
}

/// Saves the tokens of a run that ended gracefully, one per shard in the
/// order of the shards' indices. Nothing is saved if no token resumes
/// anything; else the record becomes exactly `tokens`. Returns whether the
/// record was replaced.
pub fn save(store: &mut ResumeStore, tokens: Vec<Info>) -> (written: bool)
    ensures
        final(store)@ == old(store)@.save(views(tokens@)),
        written == !all_none(views(tokens@)),
{
    if every_token_is_none(&tokens) {
        false
    } else {
        store.record = Some(tokens);
        true
    }
}

/// Seeds for `shards` fresh sessions.
fn fresh(shards: u32) -> (seeds: Vec<ShardSeed>)
    ensures
        seed_views(seeds@) == fresh_seeds(shards),
{
    let mut seeds: Vec<ShardSeed> = Vec::new();
    let mut index: u32 = 0;
    while index < shards
        invariant
            index <= shards,
            seeds@.len() == index,
            forall|j: int| 0 <= j < index ==> (#[trigger] seeds@[j])@ == fresh_seeds(shards)[j],
        decreases shards - index,
    {
        seeds.push(ShardSeed { identity: ShardIdentity { index, total: shards }, token: Info::empty() });
        index += 1;
    }
    assert(seed_views(seeds@) =~= fresh_seeds(shards));
    seeds
}

/// One seed per token, token `i` of `n` for shard `i` of `n`.
fn zip(tokens: Vec<Info>) -> (seeds: Vec<ShardSeed>)
    requires
        tokens@.len() <= u32::MAX,
    ensures
        seed_views(seeds@) == seeds_of(views(tokens@)),
{
    let total: u32 = tokens.len() as u32;
    let ghost all = tokens@;
    let mut seeds: Vec<ShardSeed> = Vec::new();
    let mut index: u32 = 0;
    for token in iter: tokens
        invariant
            iter.seq() == all,
            all.len() == total,
            index == iter.index(),
            seeds@.len() == index,
            forall|j: int| 0 <= j < index ==> (#[trigger] seeds@[j])@ == seeds_of(views(all))[j],
    {
        seeds.push(ShardSeed { identity: ShardIdentity { index, total }, token });
        index += 1;
    }
    assert(seed_views(seeds@) =~= seeds_of(views(all)));
    seeds
}

/// Gives the seeds that the connections of a run start from, for which
/// `shards` shards were requested, and uses up the record: stale tokens are
/// never used twice.
///
/// The record is used if the store's policy accepts its length for `shards`;
/// the run then has one shard per stored token. Otherwise, and where there is
/// no record, the run has `shards` shards with fresh sessions.
pub fn restore(store: &mut ResumeStore, shards: u32) -> (seeds: Vec<ShardSeed>)
    ensures
        seed_views(seeds@) == old(store)@.seeds(shards),
        seeds@.len() == old(store)@.seeds(shards).len(),
        final(store)@ == old(store)@.restore(),
{
    match store.record.take() {
        Some(tokens) => {
            if store.policy.admits(tokens.len(), shards) {
                zip(tokens)
            } else {
                fresh(shards)
            }
        },
        None => fresh(shards),
    }
}

/// Round trip: tokens that were saved, not all of them empty, are what a
/// restore for as many shards gives back, each for the shard of its index,
/// under either policy and whatever the store held before; and after that
/// restore the record is gone.
pub proof fn lemma_round_trip(store: StoreView, tokens: Seq<InfoView>)
    requires
        tokens.len() <= u32::MAX,
        !all_none(tokens),
    ensures
        ({
            let saved = store.save(tokens);
            let seeds = saved.seeds(tokens.len() as u32);
            &&& saved.record == Some(tokens)
            &&& seeds.len() == tokens.len()
            &&& forall|i: int|
                0 <= i < tokens.len() ==> (#[trigger] seeds[i]).token == tokens[i] && seeds[i].identity
                    == ShardIdentity { index: i as u32, total: tokens.len() as u32 }
            &&& saved.restore().record is None
            &&& saved.restore().seeds(tokens.len() as u32) == fresh_seeds(tokens.len() as u32)
        }),
{
}

/// Reconciliation: against a record of `stored` tokens, a restore for
/// `shards` shards gives `shards` fresh sessions if the policy does not
/// accept the record's length (under the lenient policy: if the record has
/// less than half of `shards` tokens), and the stored tokens, each for the
/// shard of its index, if it does.
pub proof fn lemma_reconciliation(store: StoreView, stored: Seq<InfoView>, shards: u32)
    requires
        store.record == Some(stored),
    ensures
        !store.policy.accepts(stored.len(), shards) ==> store.seeds(shards).len() == shards
            && forall|i: int|
            0 <= i < shards ==> (#[trigger] store.seeds(shards)[i]).token.is_none() && store.seeds(
                shards,
            )[i].identity == (ShardIdentity { index: i as u32, total: shards }),
        store.policy.accepts(stored.len(), shards) ==> store.seeds(shards).len() == stored.len()
            && forall|i: int|
            0 <= i < stored.len() ==> (#[trigger] store.seeds(shards)[i]).token == stored[i]
                && store.seeds(shards)[i].identity == (ShardIdentity {
                index: i as u32,
                total: stored.len() as u32,
            }),
        store.policy == Reconciliation::AtLeastHalf && 2 * stored.len() < shards
            ==> !store.policy.accepts(stored.len(), shards),
        store.policy == Reconciliation::AtLeastHalf && shards <= 2 * stored.len() && stored.len()
            <= u32::MAX ==> store.policy.accepts(stored.len(), shards),
        store.policy == Reconciliation::Exact ==> (store.policy.accepts(stored.len(), shards)
            <==> stored.len() == shards),
{
}

} // verus!
