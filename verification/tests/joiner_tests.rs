use otcbot::joiner::{FailureStep, InviteAutoJoiner, JoinAttempt, JoinStep};

fn own_id() -> String {
    "@otcbot:example.org".to_string()
}

#[test]
fn backoff_starts_at_two_and_doubles() {
    let a = JoinAttempt::new("!room:example.org".to_string());
    assert_eq!(a.delay, 2);
    assert_eq!(a.attempt_count, 0);
    let a = match a.on_failure() {
        JoinStep::Retry(next) => next,
        JoinStep::Abandoned => panic!("abandoned on the first failure"),
    };
    assert_eq!(a.delay, 4);
    assert_eq!(a.attempt_count, 1);
    let a = match a.on_failure() {
        JoinStep::Retry(next) => next,
        JoinStep::Abandoned => panic!("abandoned on the second failure"),
    };
    assert_eq!(a.delay, 8);
    assert_eq!(a.attempt_count, 2);
}

#[test]
fn backoff_abandons_once_next_delay_would_pass_the_ceiling() {
    let mut a = JoinAttempt::new("!room:example.org".to_string());
    let mut delays: Vec<u64> = Vec::new();
    loop {
        delays.push(a.delay);
        match a.on_failure() {
            JoinStep::Retry(next) => {
                assert_eq!(next.delay, 2 * a.delay);
                a = next;
            }
            JoinStep::Abandoned => break,
        }
    }
    // Delays double from 2 up to 2048; doubling 2048 would exceed 3600, so
    // the sequence abandons there with no further attempt.
    assert_eq!(delays, vec![2, 4, 8, 16, 32, 64, 128, 256, 512, 1024, 2048]);
}

#[test]
fn only_invitations_for_the_own_identity_start_state() {
    let mut joiner = InviteAutoJoiner::new(own_id());
    let room = "!a:example.org".to_string();
    assert!(!joiner.on_invitation(&"@someone:example.org".to_string(), &room));
    assert_eq!(joiner.delay_of(&room), None);
    assert!(joiner.on_invitation(&own_id(), &room));
    assert_eq!(joiner.delay_of(&room), Some(2));
    // A room already tracked keeps its state.
    assert!(!joiner.on_invitation(&own_id(), &room));
    assert_eq!(joiner.delay_of(&room), Some(2));
}

#[test]
fn successful_join_drops_the_room() {
    let mut joiner = InviteAutoJoiner::new(own_id());
    let room = "!a:example.org".to_string();
    assert!(joiner.on_invitation(&own_id(), &room));
    assert!(joiner.on_join_success(&room));
    assert_eq!(joiner.delay_of(&room), None);
    assert!(!joiner.on_join_success(&room));
}

#[test]
fn failure_steps_the_tracked_delay() {
    let mut joiner = InviteAutoJoiner::new(own_id());
    let room = "!a:example.org".to_string();
    assert!(joiner.on_invitation(&own_id(), &room));
    assert_eq!(joiner.on_join_failure(&room), Some(FailureStep::Retry { wait: 2 }));
    assert_eq!(joiner.delay_of(&room), Some(4));
    assert_eq!(joiner.on_join_failure(&room), Some(FailureStep::Retry { wait: 4 }));
    assert_eq!(joiner.delay_of(&room), Some(8));
    let untracked = "!b:example.org".to_string();
    assert_eq!(joiner.on_join_failure(&untracked), None);
}

#[test]
fn rooms_back_off_independently() {
    let mut joiner = InviteAutoJoiner::new(own_id());
    let room_a = "!a:example.org".to_string();
    let room_b = "!b:example.org".to_string();
    assert!(joiner.on_invitation(&own_id(), &room_a));
    assert!(joiner.on_invitation(&own_id(), &room_b));
    // Drive room A all the way to abandonment; room B must not move.
    loop {
        assert_eq!(joiner.delay_of(&room_b), Some(2));
        match joiner.on_join_failure(&room_a) {
            Some(FailureStep::Retry { .. }) => {}
            Some(FailureStep::Abandoned) => break,
            None => panic!("room A lost before abandonment"),
        }
    }
    assert_eq!(joiner.delay_of(&room_a), None);
    assert_eq!(joiner.delay_of(&room_b), Some(2));
    assert_eq!(joiner.on_join_failure(&room_b), Some(FailureStep::Retry { wait: 2 }));
    assert_eq!(joiner.delay_of(&room_b), Some(4));
}
