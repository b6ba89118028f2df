use searcher_cli::leader::{
    next_leader_line, poll_leader, poll_line, scheduled_leader_line, shown_leader_line,
    slots_until_leader, LeaderWait, LEADER_SLOT_DISTANCE, POLL_INTERVAL_MILLIS,
};
use searcher_cli::stake::{
    connected_leaders_stake, leader_stake_line, total_stake, total_stake_line, VoteAccount,
};
use searcher_cli::stream::{
    closed_line, failure_line, on_stream_event, report_transactions, transaction_line,
    StreamAction, StreamEvent, STREAM_TIMEOUT_SECS,
};
use searcher_cli::text::{append_decimal, clone_texts};
use solana_sdk::signature::Signature;

fn account(node_pubkey: &str, activated_stake: u64) -> VoteAccount {
    VoteAccount { node_pubkey: node_pubkey.to_string(), activated_stake }
}

#[test]
fn decimals_have_no_leading_zeros() {
    for n in [0, 7, 10, 99, 100, 1234567890, u64::MAX] {
        let mut text = String::from("n=");
        append_decimal(&mut text, n);
        assert_eq!(text, format!("n={n}"));
    }
}

#[test]
fn leader_is_near_at_two_slots() {
    assert_eq!(LEADER_SLOT_DISTANCE, 2);
    assert_eq!(POLL_INTERVAL_MILLIS, 500);
    for (next, current, near) in [(10, 10, true), (11, 10, true), (12, 10, true), (13, 10, false)] {
        let poll = poll_leader(next, current);
        assert_eq!(poll.num_slots, next - current);
        assert_eq!(poll.wait == LeaderWait::Near, near);
    }
    assert_eq!(poll_leader(u64::MAX, 0).wait, LeaderWait::Waiting);
    assert_eq!(slots_until_leader(u64::MAX, 1), u64::MAX - 1);
}

#[test]
fn leader_lines() {
    assert_eq!(
        next_leader_line(25, 12, "abc"),
        "next jito-solana slot in 13 slots for leader \"abc\""
    );
    assert_eq!(
        next_leader_line(12, 12, "a\"\\\n"),
        "next jito-solana slot in 0 slots for leader \"a\\\"\\\\\\n\""
    );
    assert_eq!(shown_leader_line(14, 12, "<x>"), "next jito-solana slot in 2 slots for leader <x>");
    assert_eq!(scheduled_leader_line(5, 5, "ny", "Reply { }"), "Next leader in 0 slots in ny.Reply { }");
    assert_eq!(poll_line(2, "tokyo"), "next jito leader slot in 2 slots in tokyo");
}

#[test]
fn wait_ends_at_the_first_near_answer() {
    let mut asked = 0;
    for distance in [9, 3, 2, 1, 0] {
        asked += 1;
        if poll_leader(100 + distance, 100).wait == LeaderWait::Near {
            break;
        }
    }
    assert_eq!(asked, 3);
}

#[test]
fn stake_of_connected_leaders() {
    let current = vec![account("a", 50), account("b", 30), account("c", 15)];
    let delinquent = vec![account("a", 5)];
    let connected = vec!["c".to_string(), "a".to_string(), "z".to_string()];
    let report = connected_leaders_stake(&current, &delinquent, &connected).unwrap();
    assert_eq!(report.total_activated_stake, 100);
    assert_eq!(report.connected_stake_times_100, Some(6500));
    assert_eq!(report.leaders.len(), 2);
    assert_eq!(report.leaders[0].node_pubkey, "a");
    assert_eq!(report.leaders[0].stake_times_100, 5000);
    assert_eq!(report.leaders[1].node_pubkey, "c");
    assert_eq!(report.leaders[1].stake_times_100, 1500);
    let sum: u64 = report.leaders.iter().map(|leader| leader.stake_times_100).sum();
    assert_eq!(Some(sum), report.connected_stake_times_100);
    assert!(sum <= 100 * report.total_activated_stake);
}

#[test]
fn stake_without_connected_leaders() {
    let current = vec![account("a", u64::MAX - 1)];
    let delinquent = vec![account("d", 1)];
    let report = connected_leaders_stake(&current, &delinquent, &vec!["d".to_string()]).unwrap();
    assert_eq!(report.total_activated_stake, u64::MAX);
    assert!(report.leaders.is_empty());
    assert_eq!(report.connected_stake_times_100, Some(0));
    assert_eq!(total_stake(&vec![]), Some(0));
}

#[test]
fn validator_with_two_accounts_is_reported_twice() {
    let current = vec![account("a", 1), account("a", 2)];
    let report = connected_leaders_stake(&current, &vec![], &vec!["a".to_string()]).unwrap();
    assert_eq!(report.leaders.len(), 2);
    assert_eq!(report.connected_stake_times_100, Some(300));
}

#[test]
fn total_stake_has_to_fit() {
    let half = u64::MAX / 2 + 1;
    assert_eq!(total_stake(&vec![account("a", half), account("b", half - 1)]), Some(u64::MAX));
    assert_eq!(total_stake(&vec![account("a", half), account("b", half)]), None);
    let none = connected_leaders_stake(&vec![account("a", half)], &vec![account("b", half)], &vec![]);
    assert_eq!(none, None);
}

#[test]
fn leaders_are_reported_up_to_the_first_that_does_not_fit() {
    let most = u64::MAX / 100;
    let connected = vec!["a".to_string(), "b".to_string(), "c".to_string()];
    let current = vec![account("a", 7), account("b", most + 1), account("c", 8)];
    let report = connected_leaders_stake(&current, &vec![], &connected).unwrap();
    assert_eq!(report.leaders.len(), 1);
    assert_eq!(report.leaders[0].stake_times_100, 700);
    assert_eq!(report.connected_stake_times_100, None);
    // Each fits, but not all together.
    let current = vec![account("a", most), account("b", 1)];
    let report = connected_leaders_stake(&current, &vec![], &connected).unwrap();
    assert_eq!(report.leaders.len(), 2);
    assert_eq!(report.leaders[0].stake_times_100, most * 100);
    assert_eq!(report.connected_stake_times_100, None);
}

#[test]
fn stake_lines() {
    assert_eq!(leader_stake_line("abc", "12.50"), "connected_leader: abc, stake: 12.50%");
    assert_eq!(total_stake_line("99.99"), "total stake for block engine: 99.99%");
}

fn regions() -> Vec<String> {
    vec!["ny".to_string(), "tokyo".to_string()]
}

fn line(signature: [u8; 64]) -> String {
    format!("tx sig: {:?}", Signature::from(signature))
}

#[test]
fn stream_lines() {
    assert_eq!(transaction_line("abc"), "tx sig: abc");
    assert_eq!(failure_line("Status { }"), "error from pending transaction stream: Status { }");
    assert_eq!(closed_line(), "pending transaction stream closed");
    let ones = "1".repeat(64);
    assert_eq!(line([0; 64]), format!("tx sig: {ones}"));
}

/// Bytes in base 58, by long division.
fn base58(bytes: &[u8]) -> String {
    let alphabet = b"123456789ABCDEFGHJKLMNPQRSTUVWXYZabcdefghijkmnopqrstuvwxyz";
    let mut number = bytes.to_vec();
    let mut digits: Vec<u8> = vec![];
    while number.iter().any(|b| *b != 0) {
        let mut rest: u32 = 0;
        for byte in number.iter_mut() {
            let value = rest * 256 + *byte as u32;
            *byte = (value / 58) as u8;
            rest = value % 58;
        }
        digits.push(alphabet[rest as usize]);
    }
    digits.extend(bytes.iter().take_while(|b| **b == 0).map(|_| b'1'));
    digits.reverse();
    String::from_utf8(digits).unwrap()
}

#[test]
fn signatures_read_in_base_58() {
    let mut counting = [0u8; 64];
    for (i, byte) in counting.iter_mut().enumerate() {
        *byte = (7 * i) as u8;
    }
    let mut low = [0u8; 64];
    low[63] = 58;
    let mut inner = [9u8; 64];
    inner[5] = 0;
    for signature in [[0; 64], [255; 64], counting, low, inner] {
        let (lines, complete) = report_transactions(&vec![Some(vec![signature])]);
        assert!(complete);
        assert_eq!(lines, vec![format!("tx sig: {}", base58(&signature))]);
    }
    let expected = format!("{}21", "1".repeat(63));
    assert_eq!(base58(&low), expected);
    assert_ne!(base58(&low), base58(&inner));
}

#[test]
fn texts_are_cloned_in_order() {
    assert_eq!(clone_texts(&regions()), regions());
    assert!(clone_texts(&vec![]).is_empty());
}

#[test]
fn notification_reports_first_signatures() {
    let packets = vec![
        Some(vec![[1u8; 64], [2u8; 64]]),
        None,
        Some(vec![[3u8; 64]]),
        None,
    ];
    let lines = vec![line([1; 64]), line([3; 64])];
    assert_eq!(report_transactions(&packets), (lines.clone(), true));
    let action = on_stream_event(&StreamEvent::Notification(packets), &regions());
    assert_eq!(action, StreamAction::Log(lines));
    assert!(!action.stops());
    let nothing = on_stream_event(&StreamEvent::Notification(vec![None]), &regions());
    assert_eq!(nothing, StreamAction::Log(vec![]));
}

#[test]
fn transaction_without_signature_fails_behind_the_earlier_lines() {
    let packets = vec![Some(vec![[1u8; 64]]), None, Some(vec![]), Some(vec![[3u8; 64]])];
    assert_eq!(report_transactions(&packets), (vec![line([1; 64])], false));
    let action = on_stream_event(&StreamEvent::Notification(packets), &regions());
    assert_eq!(action, StreamAction::LogAndFail(vec![line([1; 64])]));
    assert!(action.stops());
}

#[test]
fn stream_stops_when_it_fails_or_ends() {
    assert_eq!(STREAM_TIMEOUT_SECS, 5);
    let failed = on_stream_event(&StreamEvent::Failed("e".to_string()), &regions());
    assert_eq!(
        failed,
        StreamAction::LogAndStop("error from pending transaction stream: e".to_string())
    );
    assert!(failed.stops());
    let closed = on_stream_event(&StreamEvent::Closed, &regions());
    assert_eq!(closed, StreamAction::LogAndStop("pending transaction stream closed".to_string()));
    assert!(closed.stops());
    let silent = on_stream_event(&StreamEvent::Silent, &regions());
    assert_eq!(silent, StreamAction::ReportLeader(regions()));
    assert!(!silent.stops());
}

#[test]
fn run_reports_in_order_and_asks_once_per_silence() {
    let events = vec![
        StreamEvent::Silent,
        StreamEvent::Notification(vec![Some(vec![[1; 64]]), Some(vec![[2; 64]])]),
        StreamEvent::Silent,
        StreamEvent::Notification(vec![None, Some(vec![[3; 64]])]),
        StreamEvent::Closed,
        StreamEvent::Notification(vec![Some(vec![[4; 64]])]),
        StreamEvent::Silent,
    ];
    let mut waits = 0;
    let mut log: Vec<String> = vec![];
    let mut questions: Vec<Vec<String>> = vec![];
    for event in &events {
        waits += 1;
        let action = on_stream_event(event, &regions());
        let stops = action.stops();
        match action {
            StreamAction::Log(lines) => log.extend(lines),
            StreamAction::LogAndFail(_) => panic!("all transactions are signed"),
            StreamAction::LogAndStop(line) => log.push(line),
            StreamAction::ReportLeader(asked) => questions.push(asked),
        }
        if stops {
            break;
        }
    }
    assert_eq!(waits, 5);
    assert_eq!(
        log,
        vec![line([1; 64]), line([2; 64]), line([3; 64]), "pending transaction stream closed".to_string()]
    );
    assert_eq!(questions, vec![regions(), regions()]);
}
