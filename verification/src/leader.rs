//! Waiting for the next leader that runs the block engine, and reporting when it comes.
use crate::text::{append_decimal, decimal, law_decimal_spells, spells};
use vstd::prelude::*;
use vstd::string::StringExecFns;

verus! {

/// A bundle is sent once the next leader is at most this many slots away.
pub const LEADER_SLOT_DISTANCE: u64 = 2;

/// How long to wait after each question for the schedule, in milliseconds.
pub const POLL_INTERVAL_MILLIS: u64 = 500;

/// How many slots are left until the next leader's slot, which is not in the past.
pub fn slots_until_leader(next_leader_slot: u64, current_slot: u64) -> (num_slots: u64)
    requires
        current_slot <= next_leader_slot,
    ensures
        num_slots == next_leader_slot - current_slot,
{
    next_leader_slot - current_slot
}

/// Whether to go on waiting for a leader.
#[derive(Clone, Copy, Debug, PartialEq, Eq)]
pub enum LeaderWait {
    /// Ask for the schedule once more.
    Waiting,
    /// The leader is near enough for the bundle to be built and sent.
    Near,
}

/// What one answer to the question for the schedule means.
#[derive(Clone, Copy, Debug, PartialEq, Eq)]
pub struct LeaderPoll {
    /// How many slots are left.
    pub num_slots: u64,
    /// Whether to go on waiting.
    pub wait: LeaderWait,
}

/// Whether a wait is over, `num_slots` slots before the leader.
pub open spec fn wait_at(num_slots: int) -> LeaderWait {
    if num_slots <= LEADER_SLOT_DISTANCE {
        LeaderWait::Near
    } else {
        LeaderWait::Waiting
    }
}

/// Decides on an answer to the question for the schedule. Whatever it decides, the next step
/// comes [`POLL_INTERVAL_MILLIS`] later.
pub fn poll_leader(next_leader_slot: u64, current_slot: u64) -> (poll: LeaderPoll)
    requires
        current_slot <= next_leader_slot,
    ensures
        poll.num_slots == next_leader_slot - current_slot,
        poll.wait == wait_at(next_leader_slot - current_slot),
{
    let num_slots = slots_until_leader(next_leader_slot, current_slot);
    let wait = if num_slots <= LEADER_SLOT_DISTANCE {
        LeaderWait::Near
    } else {
        LeaderWait::Waiting
    };
    LeaderPoll { num_slots, wait }
}

/// A wait for the leader: how many slots were left at each answer, and what was decided on it.
/// Nothing is asked behind the decision that the leader is near.
pub open spec fn is_wait(distances: Seq<int>, waits: Seq<LeaderWait>) -> bool {
    &&& waits.len() == distances.len()
    &&& forall|i: int| 0 <= i < waits.len() ==> #[trigger] waits[i] == wait_at(distances[i])
    &&& forall|i: int| 0 <= i < waits.len() - 1 ==> #[trigger] waits[i] is Waiting
}

/// A wait ends at the first answer with the leader near enough, and no earlier.
pub proof fn law_wait_ends_when_near(distances: Seq<int>, waits: Seq<LeaderWait>, k: int)
    requires
        is_wait(distances, waits),
        0 <= k < distances.len(),
    ensures
        waits[k] is Near <==> distances[k] <= LEADER_SLOT_DISTANCE,
        waits[k] is Near ==> distances.len() == k + 1,
        k < distances.len() - 1 ==> distances[k] > LEADER_SLOT_DISTANCE,
{
    assert(waits[k] == wait_at(distances[k]));
    if k < distances.len() - 1 {
        assert(waits[k] is Waiting);
    }
}

/// The text that std's `Debug` makes of a text: the text between quotation marks, with some
/// characters escaped.
pub uninterp spec fn debug_text(text: Seq<char>) -> Seq<char>;

/// The `Debug` of `str`: a text as programmers read it, which depends on nothing but the text.
/// Which characters are escaped is left unsaid.
#[verifier::external_body]
fn show_text(text: &str) -> (shown: String)
    ensures
        shown@ == debug_text(text@),
{
    format!("{:?}", text)
}

/// The report on the next leader, whose identity is shown like this.
pub open spec fn shown_leader_text(
    next_leader_slot: u64,
    current_slot: u64,
    shown_identity: Seq<char>,
) -> Seq<char> {
    "next jito-solana slot in "@ + decimal((next_leader_slot - current_slot) as nat)
        + " slots for leader "@ + shown_identity
}

/// The report on the next leader, whose identity is shown like this.
pub fn shown_leader_line(
    next_leader_slot: u64,
    current_slot: u64,
    shown_identity: &str,
) -> (line: String)
    requires
        current_slot <= next_leader_slot,
    ensures
        line@ == shown_leader_text(next_leader_slot, current_slot, shown_identity@),
{
    let num_slots = slots_until_leader(next_leader_slot, current_slot);
    let mut line = String::new();
    line.append("next jito-solana slot in ");
    append_decimal(&mut line, num_slots);
    line.append(" slots for leader ");
    line.append(shown_identity);
    assert(line@ =~= shown_leader_text(next_leader_slot, current_slot, shown_identity@));
    line
}

/// The report on the next leader while a stream of packets is silent.
pub open spec fn next_leader_text(
    next_leader_slot: u64,
    current_slot: u64,
    identity: Seq<char>,
) -> Seq<char> {
    shown_leader_text(next_leader_slot, current_slot, debug_text(identity))
}

/// The report on the next leader while a stream of packets is silent.
pub fn next_leader_line(
    next_leader_slot: u64,
    current_slot: u64,
    identity: &str,
) -> (line: String)
    requires
        current_slot <= next_leader_slot,
    ensures
        line@ == next_leader_text(next_leader_slot, current_slot, identity@),
{
    shown_leader_line(next_leader_slot, current_slot, show_text(identity).as_str())
}

/// The report on the next scheduled leader. `details` is the whole answer as a debug text.
pub fn scheduled_leader_line(
    next_leader_slot: u64,
    current_slot: u64,
    region: &str,
    details: &str,
) -> (line: String)
    requires
        current_slot <= next_leader_slot,
    ensures
        line@ == "Next leader in "@ + decimal((next_leader_slot - current_slot) as nat)
            + " slots in "@ + region@ + "."@ + details@,
{
    let num_slots = slots_until_leader(next_leader_slot, current_slot);
    let mut line = String::new();
    line.append("Next leader in ");
    append_decimal(&mut line, num_slots);
    line.append(" slots in ");
    line.append(region);
    line.append(".");
    line.append(details);
    assert(line@ =~= "Next leader in "@ + decimal((next_leader_slot - current_slot) as nat)
        + " slots in "@ + region@ + "."@ + details@);
    line
}

/// The report on one answer while a bundle waits for its leader.
pub fn poll_line(num_slots: u64, region: &str) -> (line: String)
    ensures
        line@ == "next jito leader slot in "@ + decimal(num_slots as nat) + " slots in "@
            + region@,
{
    let mut line = String::new();
    line.append("next jito leader slot in ");
    append_decimal(&mut line, num_slots);
    line.append(" slots in ");
    line.append(region);
    assert(line@ =~= "next jito leader slot in "@ + decimal(num_slots as nat) + " slots in "@
        + region@);
    line
}

/// The wait for a leader is over exactly at two slots or fewer before its slot, and the slots that
/// are left are counted exactly.
pub proof fn law_leader_is_near_within_two_slots(
    next_leader_slot: u64,
    current_slot: u64,
    poll: LeaderPoll,
    num_slots: u64,
)
    requires
        call_ensures(poll_leader, (next_leader_slot, current_slot), poll),
        call_ensures(slots_until_leader, (next_leader_slot, current_slot), num_slots),
    ensures
        current_slot + poll.num_slots == next_leader_slot,
        current_slot + num_slots == next_leader_slot,
        poll.wait is Near <==> next_leader_slot <= current_slot + 2,
{
}

/// The reports on leaders spell the slots that are left in decimal, and hold the other texts as
/// they are.
pub proof fn law_leader_lines(
    next_leader_slot: u64,
    current_slot: u64,
    identity: &str,
    region: &str,
    details: &str,
    num_slots: u64,
    next_line: String,
    shown_line: String,
    scheduled_line: String,
    waiting_line: String,
)
    requires
        current_slot <= next_leader_slot,
        call_ensures(next_leader_line, (next_leader_slot, current_slot, identity), next_line),
        call_ensures(shown_leader_line, (next_leader_slot, current_slot, identity), shown_line),
        call_ensures(
            scheduled_leader_line,
            (next_leader_slot, current_slot, region, details),
            scheduled_line,
        ),
        call_ensures(poll_line, (num_slots, region), waiting_line),
    ensures
        exists|digits: Seq<char>| #[trigger]
            spells(digits, next_leader_slot - current_slot) && {
                &&& next_line@ == "next jito-solana slot in "@ + digits + " slots for leader "@
                    + debug_text(identity@)
                &&& shown_line@ == "next jito-solana slot in "@ + digits + " slots for leader "@
                    + identity@
                &&& scheduled_line@ == "Next leader in "@ + digits + " slots in "@ + region@ + "."@
                    + details@
            },
        exists|digits: Seq<char>| #[trigger]
            spells(digits, num_slots as int) && waiting_line@ == "next jito leader slot in "@
                + digits + " slots in "@ + region@,
{
    law_decimal_spells((next_leader_slot - current_slot) as nat);
    law_decimal_spells(num_slots as nat);
    assert(spells(
        decimal((next_leader_slot - current_slot) as nat),
        next_leader_slot - current_slot,
    ));
    assert(spells(decimal(num_slots as nat), num_slots as int));
}

} // verus!
