use taurus_bridge::cache::{Poll, PollStep, ResponseCache, MAX_ATTEMPTS, RETRY_INTERVAL_MS};

#[test]
fn pushed_line_is_returned_and_removed() {
    let mut cache = ResponseCache::new();
    assert!(cache.is_empty());
    cache.push("LIST_SESSIONS abc".to_string());
    assert_eq!(cache.len(), 1);
    assert_eq!(cache.take_latest("LIST_SESSIONS"), Some("LIST_SESSIONS abc".to_string()));
    assert!(cache.is_empty());
    assert_eq!(cache.take_latest("LIST_SESSIONS"), None);
}

#[test]
fn only_the_tail_is_matched() {
    let mut cache = ResponseCache::new();
    cache.push("LIST_SESSIONS abc".to_string());
    cache.push("BACKUP done".to_string());
    assert_eq!(cache.take_latest("LIST_SESSIONS"), None);
    assert_eq!(cache.len(), 2);
    assert_eq!(cache.get(0), Some("LIST_SESSIONS abc"));
    assert_eq!(cache.get(1), Some("BACKUP done"));
    assert_eq!(cache.get(2), None);
    assert_eq!(cache.take_latest("BACKUP"), Some("BACKUP done".to_string()));
    assert_eq!(cache.take_latest("LIST_SESSIONS"), Some("LIST_SESSIONS abc".to_string()));
    assert!(cache.is_empty());
}

#[test]
fn tag_matches_loosely_by_prefix() {
    let mut cache = ResponseCache::new();
    cache.push("LIST_SESSIONS []".to_string());
    assert_eq!(cache.take_latest("LIST"), Some("LIST_SESSIONS []".to_string()));
    cache.push("LIST a:b".to_string());
    assert_eq!(cache.take_latest("LIST_SESSIONS"), None);
    assert_eq!(cache.take_latest(""), Some("LIST a:b".to_string()));
    assert_eq!(cache.take_latest(""), None);
}

#[test]
fn poll_finds_the_answer_at_once() {
    let mut cache = ResponseCache::new();
    cache.push("LIST_SESSIONS abc".to_string());
    let mut poll = Poll::new();
    assert_eq!(
        poll.attempt(&mut cache, "LIST_SESSIONS"),
        PollStep::Found("LIST_SESSIONS abc".to_string())
    );
    assert_eq!(poll.attempts(), 0);
    assert!(cache.is_empty());
}

#[test]
fn poll_times_out_after_five_looks() {
    let mut cache = ResponseCache::new();
    cache.push("BACKUP done".to_string());
    let mut poll = Poll::new();
    let mut waited: u64 = 0;
    let mut looks = 0;
    loop {
        match poll.attempt(&mut cache, "LIST") {
            PollStep::Wait(ms) => {
                assert_eq!(ms, 500);
                looks += 1;
                waited += ms;
            }
            PollStep::TimedOut => break,
            PollStep::Found(line) => panic!("found {line}"),
        }
        assert!(looks < 100);
    }
    assert_eq!(looks, 5);
    assert_eq!(waited, 2500);
    assert!((2000..=3000).contains(&waited));
    assert_eq!(poll.attempts(), MAX_ATTEMPTS);
    assert_eq!(MAX_ATTEMPTS as u64 * RETRY_INTERVAL_MS, 2500);
    assert_eq!(cache.len(), 1);
    assert_eq!(poll.attempt(&mut cache, "LIST"), PollStep::TimedOut);
}

#[test]
fn poll_makes_no_sixth_look() {
    let mut cache = ResponseCache::new();
    let mut poll = Poll::new();
    for _ in 0..4 {
        assert_eq!(poll.attempt(&mut cache, "LIST"), PollStep::Wait(500));
    }
    let mut late = poll;
    cache.push("LIST a".to_string());
    assert_eq!(poll.attempt(&mut cache, "LIST"), PollStep::Found("LIST a".to_string()));
    assert!(cache.is_empty());
    assert_eq!(late.attempt(&mut cache, "LIST"), PollStep::Wait(500));
    cache.push("LIST b".to_string());
    assert_eq!(late.attempt(&mut cache, "LIST"), PollStep::TimedOut);
    assert_eq!(late.attempt(&mut cache, "LIST"), PollStep::TimedOut);
    assert_eq!(cache.len(), 1);
    assert_eq!(cache.get(0), Some("LIST b"));
}

#[test]
fn poll_succeeds_once_the_answer_is_the_tail() {
    let mut cache = ResponseCache::new();
    let mut poll = Poll::new();
    assert_eq!(poll.attempt(&mut cache, "LIST"), PollStep::Wait(500));
    cache.push("LIST a".to_string());
    cache.push("BACKUP done".to_string());
    assert_eq!(poll.attempt(&mut cache, "LIST"), PollStep::Wait(500));
    assert_eq!(cache.take_latest("BACKUP"), Some("BACKUP done".to_string()));
    assert_eq!(poll.attempt(&mut cache, "LIST"), PollStep::Found("LIST a".to_string()));
    assert_eq!(poll.attempts(), 2);
}
