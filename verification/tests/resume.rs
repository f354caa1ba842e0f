use shard_core::dispatch::{step, Command, ShardHandle, ShardRestartType, Signal, State};
use shard_core::resume::{
    restore, save, Info, Reconciliation, ResumeStore, Session, ShardIdentity, ShardSeed,
};

fn token(url: &str, id: &str, sequence: u64) -> Info {
    Info {
        resume_url: Some(url.to_owned()),
        session: Some(Session { id: id.to_owned(), sequence }),
    }
}

fn same(a: &Info, b: &Info) -> bool {
    a.resume_url == b.resume_url
        && match (&a.session, &b.session) {
            (Some(x), Some(y)) => x.id == y.id && x.sequence == y.sequence,
            (None, None) => true,
            _ => false,
        }
}

fn identities(seeds: &[ShardSeed]) -> Vec<ShardIdentity> {
    seeds.iter().map(|seed| seed.identity).collect()
}

#[test]
fn an_empty_token_is_none() {
    assert!(Info::empty().is_none());
    assert!(!token("wss://a", "s", 1).is_none());
    assert!(!Info { resume_url: Some("wss://a".to_owned()), session: None }.is_none());
    assert!(!Info { resume_url: None, session: Some(Session { id: "s".to_owned(), sequence: 0 }) }
        .is_none());
}

#[test]
fn saved_tokens_come_back_once() {
    let mut store = ResumeStore::new(Reconciliation::Exact, None);
    assert!(save(&mut store, vec![token("wss://a", "one", 7), token("wss://b", "two", 9)]));
    assert_eq!(store.record().map(Vec::len), Some(2));
    let seeds = restore(&mut store, 2);
    assert_eq!(
        identities(&seeds),
        vec![ShardIdentity { index: 0, total: 2 }, ShardIdentity { index: 1, total: 2 }]
    );
    assert!(same(&seeds[0].token, &token("wss://a", "one", 7)));
    assert!(same(&seeds[1].token, &token("wss://b", "two", 9)));
    assert!(store.record().is_none());
    let again = restore(&mut store, 2);
    assert_eq!(again.len(), 2);
    assert!(again.iter().all(|seed| seed.token.is_none()));
}

#[test]
fn tokens_that_resume_nothing_are_not_saved() {
    let mut store = ResumeStore::new(Reconciliation::AtLeastHalf, None);
    assert!(!save(&mut store, vec![Info::empty(), Info::empty()]));
    assert!(store.record().is_none());
    assert!(!save(&mut store, Vec::new()));
    assert!(store.record().is_none());
}

#[test]
fn one_token_that_resumes_is_enough_to_save_all() {
    let mut store = ResumeStore::new(Reconciliation::Exact, None);
    assert!(save(&mut store, vec![Info::empty(), token("wss://b", "two", 1), Info::empty()]));
    let seeds = restore(&mut store, 3);
    assert!(seeds[0].token.is_none());
    assert!(same(&seeds[1].token, &token("wss://b", "two", 1)));
    assert!(seeds[2].token.is_none());
}

#[test]
fn no_record_gives_fresh_sessions() {
    let mut store = ResumeStore::new(Reconciliation::AtLeastHalf, None);
    let seeds = restore(&mut store, 3);
    assert_eq!(
        identities(&seeds),
        vec![
            ShardIdentity { index: 0, total: 3 },
            ShardIdentity { index: 1, total: 3 },
            ShardIdentity { index: 2, total: 3 },
        ]
    );
    assert!(seeds.iter().all(|seed| seed.token.is_none()));
    assert!(restore(&mut store, 0).is_empty());
}

#[test]
fn a_record_of_half_the_shards_is_used_under_the_lenient_policy() {
    let record = vec![token("wss://a", "one", 1), token("wss://b", "two", 2)];
    let mut store = ResumeStore::new(Reconciliation::AtLeastHalf, Some(record));
    let seeds = restore(&mut store, 4);
    assert_eq!(
        identities(&seeds),
        vec![ShardIdentity { index: 0, total: 2 }, ShardIdentity { index: 1, total: 2 }]
    );
    assert!(same(&seeds[0].token, &token("wss://a", "one", 1)));
    assert!(same(&seeds[1].token, &token("wss://b", "two", 2)));
    assert!(store.record().is_none());
}

#[test]
fn a_record_of_less_than_half_the_shards_is_dropped() {
    for shards in [5, 6] {
        let record = vec![token("wss://a", "one", 1), token("wss://b", "two", 2)];
        let mut store = ResumeStore::new(Reconciliation::AtLeastHalf, Some(record));
        let seeds = restore(&mut store, shards);
        assert_eq!(seeds.len(), shards as usize);
        assert!(seeds.iter().all(|seed| seed.token.is_none() && seed.identity.total == shards));
        assert_eq!(seeds[4].identity.index, 4);
        assert!(store.record().is_none());
    }
}

#[test]
fn an_empty_record_seeds_no_run_with_a_shard() {
    let mut store = ResumeStore::new(Reconciliation::AtLeastHalf, Some(Vec::new()));
    let seeds = restore(&mut store, 1);
    assert_eq!(identities(&seeds), vec![ShardIdentity { index: 0, total: 1 }]);
    assert!(seeds[0].token.is_none());
    assert!(store.record().is_none());
}

#[test]
fn a_longer_record_is_used_under_the_lenient_policy() {
    let record = vec![token("a", "1", 1), token("b", "2", 2), token("c", "3", 3)];
    let mut store = ResumeStore::new(Reconciliation::AtLeastHalf, Some(record));
    let seeds = restore(&mut store, 1);
    assert_eq!(seeds.len(), 3);
    assert_eq!(seeds[2].identity, ShardIdentity { index: 2, total: 3 });
}

#[test]
fn only_a_record_of_the_same_length_is_used_under_the_exact_policy() {
    let record = vec![token("wss://a", "one", 1), token("wss://b", "two", 2)];
    let mut store = ResumeStore::new(Reconciliation::Exact, Some(record));
    let seeds = restore(&mut store, 3);
    assert_eq!(seeds.len(), 3);
    assert!(seeds.iter().all(|seed| seed.token.is_none()));
    assert!(store.record().is_none());

    let record = vec![token("wss://a", "one", 1), token("wss://b", "two", 2)];
    let mut store = ResumeStore::new(Reconciliation::Exact, Some(record));
    assert_eq!(store.policy(), Reconciliation::Exact);
    let seeds = restore(&mut store, 2);
    assert!(same(&seeds[0].token, &token("wss://a", "one", 1)));
}

#[test]
fn the_policies_admit_by_length() {
    assert!(Reconciliation::Exact.admits(4, 4));
    assert!(!Reconciliation::Exact.admits(3, 4));
    assert!(Reconciliation::AtLeastHalf.admits(2, 4));
    assert!(Reconciliation::AtLeastHalf.admits(3, 5));
    assert!(!Reconciliation::AtLeastHalf.admits(2, 5));
    assert!(!Reconciliation::AtLeastHalf.admits(2, 6));
    assert!(!Reconciliation::AtLeastHalf.admits(0, 1));
    assert!(Reconciliation::AtLeastHalf.admits(1, 1));
    assert!(Reconciliation::AtLeastHalf.admits(1, 2));
    assert!(!Reconciliation::AtLeastHalf.admits(1, 3));
    assert!(Reconciliation::AtLeastHalf.admits(7, 2));
    assert!(!Reconciliation::AtLeastHalf.admits(2_147_483_647, u32::MAX));
    assert!(Reconciliation::AtLeastHalf.admits(2_147_483_648, u32::MAX));
}

#[test]
fn a_single_shard_run_that_shut_down_persists_its_one_token() {
    let mut store = ResumeStore::new(Reconciliation::Exact, None);
    let seeds = restore(&mut store, 1);
    assert!(seeds[0].token.is_none());

    let mut handle = ShardHandle::new();
    let mut close_frames = Vec::new();
    let mut state = State::Active;
    let mut finished = false;
    for signal in [Signal::Event, Signal::Shutdown, Signal::Event, Signal::CloseConfirmed] {
        let (next, command) = step(state, signal, &mut handle);
        state = next;
        match command {
            Command::Close(policy) => close_frames.push(policy),
            Command::Finish => finished = true,
            _ => {}
        }
    }
    assert!(finished);
    assert_eq!(close_frames, vec![ShardRestartType::Resume]);

    let captured = token("wss://resume", "session", 42);
    assert!(!captured.is_none());
    assert!(save(&mut store, vec![captured]));
    let record = store.record().unwrap();
    assert_eq!(record.len(), 1);
    assert!(same(&record[0], &token("wss://resume", "session", 42)));
}
