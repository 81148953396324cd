use monthly_spotify::buckets::{Assignment, BucketTable, ItemKind, PlaylistEntry};
use monthly_spotify::callback::{callback_target, contains_text, CallbackTarget};
use monthly_spotify::month::{cutoff, sub_months, MonthlyPlaylist, Timestamp};
use monthly_spotify::moving::{MoveAction, MoveEngine, MovePhase, MoveStage, BATCH_LIMIT};
use monthly_spotify::pipeline::{check_owner, first_failure, ArchiveError};
use monthly_spotify::retry::{
    classify_status, FailureClass, RetryExecutor, RetryPolicy, RetryStep, RATE_LIMIT_DELAY_MS,
    RETRY_DELAY_MS,
};

fn at(year: i32, month: u32, day: u32) -> Timestamp {
    Timestamp { year, month, day, second: 3600, nanosecond: 0 }
}

fn entry(id: Option<&str>, added_at: Timestamp) -> PlaylistEntry {
    PlaylistEntry { id: id.map(|s| s.to_string()), added_at, kind: ItemKind::Track }
}

/// Runs the retry decisions over scripted outcomes, as a caller would:
/// returns the attempt whose result is kept, the retries spent and the
/// total wait.
fn drive_retries(policy: RetryPolicy, outcomes: &[Option<FailureClass>]) -> (usize, u32, u64) {
    let mut exec = RetryExecutor::new(policy);
    let mut waited: u64 = 0;
    let mut attempt = 0;
    loop {
        match exec.step(outcomes[attempt]) {
            RetryStep::Finish => return (attempt, exec.retries, waited),
            RetryStep::RetryAfter(ms) => {
                waited += ms;
                attempt += 1;
            }
        }
    }
}

/// Plays the requests of a move against two in-memory playlists; `fail`
/// says which request (by number) fails for good.
fn drive_move(
    engine: &mut MoveEngine,
    source: &mut Vec<String>,
    dest: &mut Vec<String>,
    fail: Option<usize>,
) -> (MoveAction, Vec<MoveAction>) {
    let mut made = Vec::new();
    let mut n = 0;
    loop {
        let action = engine.next_action();
        match action {
            MoveAction::Add(s, e) => {
                made.push(action);
                let ok = fail != Some(n);
                if ok {
                    dest.extend(engine.batch(s, e));
                }
                engine.record(ok);
            }
            MoveAction::Remove(s, e) => {
                made.push(action);
                let ok = fail != Some(n);
                if ok {
                    let batch = engine.batch(s, e);
                    source.retain(|x| !batch.contains(x));
                }
                engine.record(ok);
            }
            _ => return (action, made),
        }
        n += 1;
    }
}

#[test]
fn classifies_statuses() {
    assert_eq!(classify_status(Some(429)), FailureClass::RateLimited);
    assert_eq!(classify_status(Some(404)), FailureClass::Transient);
    assert_eq!(classify_status(Some(500)), FailureClass::Transient);
    assert_eq!(classify_status(Some(502)), FailureClass::Transient);
    assert_eq!(classify_status(Some(503)), FailureClass::Transient);
    assert_eq!(classify_status(Some(401)), FailureClass::Terminal);
    assert_eq!(classify_status(Some(403)), FailureClass::Terminal);
    assert_eq!(classify_status(None), FailureClass::Terminal);
}

#[test]
fn rate_limited_twice_then_success() {
    let outcomes = [Some(FailureClass::RateLimited), Some(FailureClass::RateLimited), None];
    let (attempt, retries, waited) = drive_retries(RetryPolicy::standard(), &outcomes);
    assert_eq!(attempt, 2);
    assert_eq!(retries, 2);
    assert_eq!(waited, 2 * RATE_LIMIT_DELAY_MS);
    assert_eq!(waited, 8000);
}

#[test]
fn terminal_failure_returns_at_once() {
    let outcomes = [Some(FailureClass::Terminal)];
    let (attempt, retries, waited) = drive_retries(RetryPolicy::standard(), &outcomes);
    assert_eq!((attempt, retries, waited), (0, 0, 0));
}

#[test]
fn transient_failure_waits_briefly() {
    let outcomes = [Some(FailureClass::Transient), None];
    let (attempt, retries, waited) = drive_retries(RetryPolicy::standard(), &outcomes);
    assert_eq!((attempt, retries, waited), (1, 1, RETRY_DELAY_MS));
}

#[test]
fn retries_stop_at_the_cap() {
    let outcomes = vec![Some(FailureClass::Transient); 20];
    let (attempt, retries, waited) = drive_retries(RetryPolicy::standard(), &outcomes);
    assert_eq!(attempt, 10);
    assert_eq!(retries, 10);
    assert_eq!(waited, 10 * 200);
    let mut exec = RetryExecutor::new(RetryPolicy::standard());
    exec.retries = 10;
    assert_eq!(exec.step(None), RetryStep::Finish);
    assert_eq!(exec.step(Some(FailureClass::RateLimited)), RetryStep::Finish);
}

#[test]
fn sub_months_crosses_years() {
    assert_eq!(sub_months(2024, 3, 1), (2024, 2));
    assert_eq!(sub_months(2024, 1, 1), (2023, 12));
    assert_eq!(sub_months(2024, 1, 12), (2023, 1));
    assert_eq!(sub_months(2024, 5, 29), (2021, 12));
    assert_eq!(sub_months(2024, 5, 0), (2024, 5));
}

#[test]
fn cutoff_is_start_of_an_earlier_month() {
    let now = Timestamp { year: 2024, month: 1, day: 15, second: 500, nanosecond: 7 };
    assert_eq!(cutoff(&now, 1), Timestamp { year: 2023, month: 12, day: 1, second: 0, nanosecond: 0 });
    assert_eq!(cutoff(&now, 0), Timestamp { year: 2024, month: 1, day: 1, second: 0, nanosecond: 0 });
    assert_eq!(cutoff(&now, 13), Timestamp { year: 2022, month: 12, day: 1, second: 0, nanosecond: 0 });
}

#[test]
fn timestamps_order() {
    let c = Timestamp { year: 2024, month: 2, day: 1, second: 0, nanosecond: 0 };
    assert!(at(2024, 1, 31).is_before(&c));
    assert!(!c.is_before(&c));
    assert!(!at(2024, 2, 1).is_before(&c));
    let just_before = Timestamp { year: 2024, month: 2, day: 1, second: 0, nanosecond: 0 };
    let later = Timestamp { nanosecond: 1, ..just_before };
    assert!(just_before.is_before(&later));
}

#[test]
fn month_names_follow_pattern_and_locale() {
    let m = MonthlyPlaylist::new(2023, 3);
    assert_eq!(m.name("%B %y", "es_CR"), Some("marzo 23".to_string()));
    assert_eq!(m.name("%B %Y", "en_US"), Some("March 2023".to_string()));
    assert_eq!(m.name("%B %y", "no_such_locale"), None);
}

#[test]
fn skips_late_and_local_entries() {
    let cut = Timestamp { year: 2024, month: 2, day: 1, second: 0, nanosecond: 0 };
    let mut table = BucketTable::new();
    assert_eq!(table.assign(&entry(Some("late"), at(2024, 2, 1)), &cut), Assignment::Skipped);
    assert_eq!(table.assign(&entry(Some("later"), at(2024, 3, 9)), &cut), Assignment::Skipped);
    assert_eq!(table.assign(&entry(None, at(2023, 5, 2)), &cut), Assignment::Skipped);
    assert!(!table.open_bucket(&entry(None, at(2023, 5, 2)), &cut, "p".to_string()));
    assert!(!table.open_bucket(&entry(Some("late"), at(2024, 2, 1)), &cut, "p".to_string()));
    assert!(table.buckets().is_empty());
}

#[test]
fn same_month_shares_one_bucket() {
    let cut = Timestamp { year: 2024, month: 2, day: 1, second: 0, nanosecond: 0 };
    let mut table = BucketTable::new();
    let a = entry(Some("a"), at(2023, 5, 2));
    let b = entry(Some("b"), at(2023, 5, 20));
    let c = entry(Some("c"), at(2023, 6, 1));
    let may = MonthlyPlaylist::new(2023, 5);
    assert_eq!(table.assign(&a, &cut), Assignment::NeedsPlaylist(may));
    assert!(table.open_bucket(&a, &cut, "dest-may".to_string()));
    assert!(!table.open_bucket(&b, &cut, "dest-other".to_string()));
    assert_eq!(table.assign(&b, &cut), Assignment::Appended);
    assert_eq!(table.assign(&c, &cut), Assignment::NeedsPlaylist(MonthlyPlaylist::new(2023, 6)));
    assert!(table.open_bucket(&c, &cut, "dest-june".to_string()));
    assert!(table.contains(&may));
    let buckets = table.buckets();
    assert_eq!(buckets.len(), 2);
    assert_eq!(buckets[0].month, may);
    assert_eq!(buckets[0].destination, "dest-may");
    assert_eq!(buckets[0].items, vec!["a".to_string(), "b".to_string()]);
    assert_eq!(buckets[1].items, vec!["c".to_string()]);
}

#[test]
fn concurrent_entries_create_one_playlist() {
    // Each entry is handled while its task holds the table's lock: the
    // first creates the month's playlist, the second finds it.
    let cut = Timestamp { year: 2024, month: 2, day: 1, second: 0, nanosecond: 0 };
    let table = std::sync::Mutex::new(BucketTable::new());
    let mut creates = 0;
    let e1 = entry(Some("x"), at(2023, 8, 3));
    let e2 = entry(Some("y"), at(2023, 8, 4));
    for e in [&e1, &e2] {
        let mut t = table.lock().unwrap();
        if let Assignment::NeedsPlaylist(_) = t.assign(e, &cut) {
            creates += 1;
            assert!(t.open_bucket(e, &cut, "dest-aug".to_string()));
        }
    }
    assert_eq!(creates, 1);
    let t = table.lock().unwrap();
    let buckets = t.buckets();
    assert_eq!(buckets.len(), 1);
    assert_eq!(buckets[0].items, vec!["x".to_string(), "y".to_string()]);
}

#[test]
fn moves_in_batches() {
    let ids: Vec<String> = (0..250).map(|i| format!("id{}", i)).collect();
    let mut source = ids.clone();
    source.push("kept".to_string());
    let mut dest = Vec::new();
    let mut engine = MoveEngine::new(ids.clone(), BATCH_LIMIT);
    let (end, made) = drive_move(&mut engine, &mut source, &mut dest, None);
    assert_eq!(end, MoveAction::Finished);
    assert_eq!(
        made,
        vec![
            MoveAction::Add(0, 100),
            MoveAction::Add(100, 200),
            MoveAction::Add(200, 250),
            MoveAction::Remove(0, 100),
            MoveAction::Remove(100, 200),
            MoveAction::Remove(200, 250),
        ]
    );
    assert_eq!(dest, ids);
    assert_eq!(source, vec!["kept".to_string()]);
    assert_eq!(engine.stage_now(), MoveStage::Done);
}

#[test]
fn empty_move_does_nothing() {
    let engine = MoveEngine::new(Vec::new(), BATCH_LIMIT);
    assert_eq!(engine.next_action(), MoveAction::Finished);
}

#[test]
fn failed_add_never_removes() {
    let ids: Vec<String> = vec!["a".to_string(), "b".to_string(), "c".to_string()];
    let mut source = ids.clone();
    let mut dest = Vec::new();
    let mut engine = MoveEngine::new(ids.clone(), 2);
    let (end, made) = drive_move(&mut engine, &mut source, &mut dest, Some(1));
    assert_eq!(end, MoveAction::Failed(MovePhase::Add));
    assert_eq!(made, vec![MoveAction::Add(0, 2), MoveAction::Add(2, 3)]);
    assert_eq!(source, ids);
    engine.record(true);
    assert_eq!(engine.next_action(), MoveAction::Failed(MovePhase::Add));
}

#[test]
fn failed_remove_keeps_additions() {
    let ids: Vec<String> = vec!["a".to_string(), "b".to_string(), "c".to_string()];
    let mut source = ids.clone();
    let mut dest = Vec::new();
    let mut engine = MoveEngine::new(ids.clone(), 2);
    let (end, _) = drive_move(&mut engine, &mut source, &mut dest, Some(3));
    assert_eq!(end, MoveAction::Failed(MovePhase::Remove));
    assert_eq!(dest, ids);
    assert_eq!(source, vec!["c".to_string()]);
}

#[test]
fn archives_old_month_and_keeps_current() {
    let now = Timestamp { year: 2024, month: 6, day: 10, second: 0, nanosecond: 0 };
    let cut = cutoff(&now, 1);
    let entries = vec![
        entry(Some("t1"), at(2024, 3, 2)),
        entry(Some("t2"), at(2024, 3, 15)),
        entry(Some("t3"), at(2024, 3, 28)),
        entry(Some("now"), at(2024, 5, 3)),
    ];
    let mut source: Vec<String> = entries.iter().map(|e| e.id.clone().unwrap()).collect();
    let mut table = BucketTable::new();
    let mut created = Vec::new();
    for e in &entries {
        if let Assignment::NeedsPlaylist(month) = table.assign(e, &cut) {
            let name = month.name("%B %y", "es_CR").unwrap();
            created.push(name.clone());
            assert!(table.open_bucket(e, &cut, name));
        }
    }
    assert_eq!(created, vec!["marzo 24".to_string()]);
    let buckets = table.buckets();
    assert_eq!(buckets.len(), 1);
    assert_eq!(buckets[0].items.len(), 3);
    let mut dest = Vec::new();
    let mut engine = MoveEngine::new(buckets[0].items.clone(), BATCH_LIMIT);
    let (end, _) = drive_move(&mut engine, &mut source, &mut dest, None);
    assert_eq!(end, MoveAction::Finished);
    assert_eq!(dest, vec!["t1".to_string(), "t2".to_string(), "t3".to_string()]);
    assert_eq!(source, vec!["now".to_string()]);
}

#[test]
fn owner_is_checked() {
    assert_eq!(check_owner(&"me".to_string(), &"me".to_string()), Ok(()));
    assert_eq!(check_owner(&"me".to_string(), &"you".to_string()), Err(ArchiveError::NotOwner));
}

#[test]
fn first_failure_is_reported() {
    assert_eq!(first_failure(&vec![Ok(()), Ok(())]), Ok(()));
    assert_eq!(first_failure(&vec![]), Ok(()));
    let add = ArchiveError::Move(MovePhase::Add, FailureClass::Terminal);
    let remove = ArchiveError::Move(MovePhase::Remove, FailureClass::RateLimited);
    assert_eq!(first_failure(&vec![Ok(()), Err(add), Err(remove)]), Err(add));
}

#[test]
fn finds_text_inside_words() {
    assert!(contains_text("/callback?error=access_denied", "error"));
    assert!(contains_text("error", "error"));
    assert!(!contains_text("/callback?code=abc", "error"));
    assert!(!contains_text("err", "error"));
    assert!(contains_text("abc", ""));
}

#[test]
fn reads_the_sign_in_redirect() {
    let words: Vec<String> = "GET /callback?code=abc&state=xyz HTTP/1.1 Host: localhost:8888 Accept: */*"
        .split_whitespace()
        .map(|w| w.to_string())
        .collect();
    assert_eq!(
        callback_target(&words),
        Some(CallbackTarget {
            head: "Host:".to_string(),
            path: "/callback?code=abc&state=xyz".to_string(),
        })
    );
    let refused: Vec<String> = vec!["GET", "/callback?error=access_denied", "HTTP/1.1", "Host:", "localhost:8888"]
        .into_iter()
        .map(|w| w.to_string())
        .collect();
    assert_eq!(callback_target(&refused), None);
    let short: Vec<String> = vec!["GET".to_string(), "/".to_string(), "HTTP/1.1".to_string()];
    assert_eq!(callback_target(&short), None);
}
