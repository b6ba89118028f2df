//! What to do with each event of a stream of pending transactions, and what a whole run of the
//! stream comes to.
use crate::leader::next_leader_text;
use crate::text::{base58, clone_texts, texts_view};
use solana_sdk::signature::Signature as SdkSignature;
use vstd::prelude::*;
use vstd::string::StringExecFns;

verus! {

/// How long the stream may be silent before a report on the next leader, in seconds.
pub const STREAM_TIMEOUT_SECS: u64 = 5;

/// A transaction signature.
pub type Signature = [u8; 64];

/// Something that happened on the stream.
#[derive(Debug, PartialEq, Eq)]
pub enum StreamEvent {
    /// Packets arrived. Each is the signatures of its transaction, or nothing if the packet
    /// holds no transaction.
    Notification(Vec<Option<Vec<Signature>>>),
    /// The stream failed, with an error that reads like this as a debug text.
    Failed(String),
    /// The stream ended.
    Closed,
    /// Nothing happened for [`STREAM_TIMEOUT_SECS`].
    Silent,
}

/// What to do about an event.
#[derive(Debug, PartialEq, Eq)]
pub enum StreamAction {
    /// Log these lines, and go on.
    Log(Vec<String>),
    /// Log these lines, and fail: the transaction that comes next has no signature to report.
    LogAndFail(Vec<String>),
    /// Log this line, and stop.
    LogAndStop(String),
    /// Ask for the next leader in these regions, print the report on it, and go on.
    ReportLeader(Vec<String>),
}

impl StreamAction {
    /// Whether the stream is read no further.
    pub open spec fn spec_stops(&self) -> bool {
        self is LogAndFail || self is LogAndStop
    }

    /// Whether the stream is read no further.
    pub fn stops(&self) -> (stops: bool)
        ensures
            stops == self.spec_stops(),
    {
        match self {
            StreamAction::LogAndFail(_) => true,
            StreamAction::LogAndStop(_) => true,
            _ => false,
        }
    }
}

/// The `Debug` of `solana_sdk::signature::Signature`: the 64 bytes of the signature in base 58, as
/// `bs58::encode` writes them.
#[verifier::external_body]
fn show_signature(signature: &Signature) -> (text: String)
    ensures
        text@ == base58(signature@),
{
    format!("{:?}", SdkSignature::from(*signature))
}

/// The line on a transaction whose first signature has this text.
pub fn transaction_line(signature: &str) -> (line: String)
    ensures
        line@ == "tx sig: "@ + signature@,
{
    let mut line = String::new();
    line.append("tx sig: ");
    line.append(signature);
    assert(line@ =~= "tx sig: "@ + signature@);
    line
}

/// The line on a failure of the stream.
pub fn failure_line(error: &str) -> (line: String)
    ensures
        line@ == "error from pending transaction stream: "@ + error@,
{
    let mut line = String::new();
    line.append("error from pending transaction stream: ");
    line.append(error);
    assert(line@ =~= "error from pending transaction stream: "@ + error@);
    line
}

/// The line on the end of the stream.
pub fn closed_line() -> (line: String)
    ensures
        line@ == "pending transaction stream closed"@,
{
    let mut line = String::new();
    line.append("pending transaction stream closed");
    assert(line@ =~= "pending transaction stream closed"@);
    line
}

/// The transactions among the packets, each as its signatures, in order.
pub open spec fn transactions_in(packets: Seq<Option<Vec<Signature>>>) -> Seq<Vec<Signature>>
    decreases packets.len(),
{
    if packets.len() == 0 {
        Seq::empty()
    } else {
        match packets.last() {
            Some(signatures) => transactions_in(packets.drop_last()).push(signatures),
            None => transactions_in(packets.drop_last()),
        }
    }
}

/// The lines on the transactions among the packets, in order: each by its first signature.
pub open spec fn transaction_lines(packets: Seq<Option<Vec<Signature>>>) -> Seq<Seq<char>> {
    transactions_in(packets).map_values(
        |signatures: Vec<Signature>| "tx sig: "@ + base58(signatures@[0]@),
    )
}

/// Every transaction has a signature.
pub open spec fn all_signed(packets: Seq<Option<Vec<Signature>>>) -> bool {
    forall|i: int|
        0 <= i < packets.len() ==> (#[trigger] packets[i] matches Some(signatures)
            ==> signatures@.len() > 0)
}

/// The first transaction without a signature is in packet `n`.
pub open spec fn first_unsigned_at(packets: Seq<Option<Vec<Signature>>>, n: int) -> bool {
    &&& 0 <= n < packets.len()
    &&& all_signed(packets.take(n))
    &&& packets[n] matches Some(signatures) && signatures@.len() == 0
}

/// The lines on the transactions among the packets, and whether these are all: the lines end
/// before the first transaction without a signature.
pub fn report_transactions(packets: &Vec<Option<Vec<Signature>>>) -> (report: (Vec<String>, bool))
    ensures
        report.1 <==> all_signed(packets@),
        report.1 ==> texts_view(report.0@) == transaction_lines(packets@),
        !report.1 ==> exists|n: int| #[trigger]
            first_unsigned_at(packets@, n) && texts_view(report.0@) == transaction_lines(
                packets@.take(n),
            ),
{
    let mut lines: Vec<String> = Vec::new();
    let mut i: usize = 0;
    assert(texts_view(lines@) =~= transaction_lines(packets@.take(0)));
    while i < packets.len()
        invariant
            i <= packets@.len(),
            all_signed(packets@.take(i as int)),
            texts_view(lines@) == transaction_lines(packets@.take(i as int)),
        decreases packets@.len() - i,
    {
        let ghost before = packets@.take(i as int);
        let ghost after = packets@.take(i + 1);
        assert(after.drop_last() =~= before);
        assert(after.last() == packets@[i as int]);
        match &packets[i] {
            Some(signatures) => {
                if signatures.len() == 0 {
                    assert(first_unsigned_at(packets@, i as int));
                    assert(!(packets@[i as int] matches Some(s) ==> s@.len() > 0));
                    return (lines, false);
                }
                let line = transaction_line(show_signature(&signatures[0]).as_str());
                let ghost lines_before = lines@;
                lines.push(line);
                assert(texts_view(lines@) =~= texts_view(lines_before).push(line@));
                assert(texts_view(lines@) =~= transaction_lines(after));
            },
            None => {},
        }
        assert forall|j: int| 0 <= j < after.len() implies (#[trigger] after[j] matches Some(s)
            ==> s@.len() > 0) by {
            if j < i {
                assert(after[j] == before[j]);
            }
        }
        i += 1;
    }
    assert(packets@.take(i as int) =~= packets@);
    (lines, true)
}

/// What there is to do about an event of a stream that is watched for these regions.
pub open spec fn action_on(
    event: StreamEvent,
    regions: Seq<Seq<char>>,
    action: StreamAction,
) -> bool {
    match event {
        StreamEvent::Notification(packets) => if all_signed(packets@) {
            action matches StreamAction::Log(lines) && texts_view(lines@) == transaction_lines(
                packets@,
            )
        } else {
            action matches StreamAction::LogAndFail(lines) && exists|n: int| #[trigger]
                first_unsigned_at(packets@, n) && texts_view(lines@) == transaction_lines(
                    packets@.take(n),
                )
        },
        StreamEvent::Failed(error) => action matches StreamAction::LogAndStop(line) && line@
            == "error from pending transaction stream: "@ + error@,
        StreamEvent::Closed => action matches StreamAction::LogAndStop(line) && line@
            == "pending transaction stream closed"@,
        StreamEvent::Silent => action matches StreamAction::ReportLeader(asked) && texts_view(
            asked@,
        ) == regions,
    }
}

/// Decides what to do about an event of a stream that is watched for these regions.
pub fn on_stream_event(event: &StreamEvent, regions: &Vec<String>) -> (action: StreamAction)
    ensures
        action_on(*event, texts_view(regions@), action),
{
    match event {
        StreamEvent::Notification(packets) => {
            let (lines, complete) = report_transactions(packets);
            if complete {
                StreamAction::Log(lines)
            } else {
                StreamAction::LogAndFail(lines)
            }
        },
        StreamEvent::Failed(error) => StreamAction::LogAndStop(failure_line(error.as_str())),
        StreamEvent::Closed => StreamAction::LogAndStop(closed_line()),
        StreamEvent::Silent => StreamAction::ReportLeader(clone_texts(regions)),
    }
}

/// The stream is read on after this event.
pub open spec fn goes_on(event: StreamEvent) -> bool {
    match event {
        StreamEvent::Notification(packets) => all_signed(packets@),
        StreamEvent::Failed(_) => false,
        StreamEvent::Closed => false,
        StreamEvent::Silent => true,
    }
}

/// The stream is read on exactly after silence and after packets whose transactions are all
/// signed.
pub proof fn law_stream_stops(event: StreamEvent, regions: Seq<Seq<char>>, action: StreamAction)
    requires
        action_on(event, regions, action),
    ensures
        action.spec_stops() <==> !goes_on(event),
{
}

/// A run of the stream: the outcomes of successive waits, and what was done about each. Nothing
/// is awaited behind an action that stops.
pub open spec fn is_run(
    events: Seq<StreamEvent>,
    regions: Seq<Seq<char>>,
    actions: Seq<StreamAction>,
) -> bool {
    &&& actions.len() == events.len()
    &&& forall|i: int|
        0 <= i < events.len() ==> action_on(#[trigger] events[i], regions, actions[i])
    &&& forall|i: int| 0 <= i < actions.len() - 1 ==> !(#[trigger] actions[i]).spec_stops()
}

/// The reply to a question for the next leader.
pub struct LeaderReply {
    pub next_leader_slot: u64,
    pub current_slot: u64,
    pub identity: Seq<char>,
}

/// What an action logs.
pub open spec fn logged(action: StreamAction) -> Seq<Seq<char>> {
    match action {
        StreamAction::Log(lines) => texts_view(lines@),
        StreamAction::LogAndFail(lines) => texts_view(lines@),
        StreamAction::LogAndStop(line) => seq![line@],
        StreamAction::ReportLeader(_) => Seq::empty(),
    }
}

/// The regions of the question that an action asks, if it asks one.
pub open spec fn asked(action: StreamAction) -> Seq<Seq<Seq<char>>> {
    match action {
        StreamAction::ReportLeader(regions) => seq![texts_view(regions@)],
        _ => Seq::empty(),
    }
}

/// What an action prints about the reply to its question.
pub open spec fn printed(action: StreamAction, reply: LeaderReply) -> Seq<Seq<char>> {
    match action {
        StreamAction::ReportLeader(_) => seq![
            next_leader_text(reply.next_leader_slot, reply.current_slot, reply.identity),
        ],
        _ => Seq::empty(),
    }
}

/// What the actions log, one after the other.
pub open spec fn run_log(actions: Seq<StreamAction>) -> Seq<Seq<char>>
    decreases actions.len(),
{
    if actions.len() == 0 {
        Seq::empty()
    } else {
        run_log(actions.drop_last()) + logged(actions.last())
    }
}

/// The regions of the questions that the actions ask, one after the other.
pub open spec fn run_questions(actions: Seq<StreamAction>) -> Seq<Seq<Seq<char>>>
    decreases actions.len(),
{
    if actions.len() == 0 {
        Seq::empty()
    } else {
        run_questions(actions.drop_last()) + asked(actions.last())
    }
}

/// What the actions print, one after the other. The reply that an action gets has its number.
pub open spec fn run_prints(
    actions: Seq<StreamAction>,
    replies: Seq<LeaderReply>,
) -> Seq<Seq<char>>
    decreases actions.len(),
{
    if actions.len() == 0 {
        Seq::empty()
    } else {
        run_prints(actions.drop_last(), replies.drop_last()) + printed(
            actions.last(),
            replies.last(),
        )
    }
}

/// The lines on all the transactions that arrived, in order.
pub open spec fn arrived_lines(events: Seq<StreamEvent>) -> Seq<Seq<char>>
    decreases events.len(),
{
    if events.len() == 0 {
        Seq::empty()
    } else {
        arrived_lines(events.drop_last()) + match events.last() {
            StreamEvent::Notification(packets) => transaction_lines(packets@),
            _ => Seq::empty(),
        }
    }
}

/// How often the stream was silent.
pub open spec fn silences(events: Seq<StreamEvent>) -> nat
    decreases events.len(),
{
    if events.len() == 0 {
        0
    } else {
        silences(events.drop_last()) + if events.last() is Silent {
            1nat
        } else {
            0nat
        }
    }
}

/// The replies that came after silence, in order. The reply after a wait has its number.
pub open spec fn replies_to_silence(
    events: Seq<StreamEvent>,
    replies: Seq<LeaderReply>,
) -> Seq<LeaderReply>
    decreases events.len(),
{
    if events.len() == 0 {
        Seq::empty()
    } else if events.last() is Silent {
        replies_to_silence(events.drop_last(), replies.drop_last()).push(replies.last())
    } else {
        replies_to_silence(events.drop_last(), replies.drop_last())
    }
}

/// The reports on the leaders of these replies.
pub open spec fn leader_reports(replies: Seq<LeaderReply>) -> Seq<Seq<char>> {
    replies.map_values(
        |reply: LeaderReply|
            next_leader_text(reply.next_leader_slot, reply.current_slot, reply.identity),
    )
}

/// While the stream goes on, the log holds one line for each transaction that arrived, in order;
/// and for each silence there was one question, for all the regions, and one report on the reply.
pub proof fn law_run_so_far(
    events: Seq<StreamEvent>,
    regions: Seq<Seq<char>>,
    actions: Seq<StreamAction>,
    replies: Seq<LeaderReply>,
)
    requires
        is_run(events, regions, actions),
        replies.len() == events.len(),
        forall|i: int| 0 <= i < events.len() ==> goes_on(#[trigger] events[i]),
    ensures
        run_log(actions) == arrived_lines(events),
        run_questions(actions) == Seq::new(silences(events), |i: int| regions),
        replies_to_silence(events, replies).len() == silences(events),
        run_prints(actions, replies) == leader_reports(replies_to_silence(events, replies)),
    decreases events.len(),
{
    if events.len() == 0 {
        assert(run_questions(actions) =~= Seq::new(silences(events), |i: int| regions));
        assert(run_prints(actions, replies) =~= leader_reports(
            replies_to_silence(events, replies),
        ));
    } else {
        let last = events.len() - 1;
        lemma_run_prefix(events, regions, actions, last);
        assert(events.take(last) =~= events.drop_last());
        assert(actions.take(last) =~= actions.drop_last());
        law_run_so_far(
            events.drop_last(),
            regions,
            actions.drop_last(),
            replies.drop_last(),
        );
        assert(action_on(events[last], regions, actions[last]));
        assert(goes_on(events[last]));
        assert(run_questions(actions) =~= Seq::new(silences(events), |i: int| regions));
        assert(run_prints(actions, replies) =~= leader_reports(
            replies_to_silence(events, replies),
        ));
    }
}

/// The first waits of a run are a run.
proof fn lemma_run_prefix(
    events: Seq<StreamEvent>,
    regions: Seq<Seq<char>>,
    actions: Seq<StreamAction>,
    n: int,
)
    requires
        is_run(events, regions, actions),
        0 <= n <= events.len(),
    ensures
        is_run(events.take(n), regions, actions.take(n)),
{
    assert forall|i: int| 0 <= i < n implies action_on(
        #[trigger] events.take(n)[i],
        regions,
        actions.take(n)[i],
    ) by {
        assert(action_on(events[i], regions, actions[i]));
    }
    assert forall|i: int| 0 <= i < n - 1 implies !(#[trigger] actions.take(n)[i]).spec_stops() by {
        assert(!actions[i].spec_stops());
    }
}

/// A stream whose `k`-th wait is the first to end in a failure or at the end of the stream is
/// awaited no further. By then the log holds one line for each transaction that arrived, in order,
/// and then the line on the failure or the end; and for each silence there was one question, for
/// all the regions, and one report on the reply. Without silence nothing was asked.
pub proof fn law_run_of_stream(
    events: Seq<StreamEvent>,
    regions: Seq<Seq<char>>,
    actions: Seq<StreamAction>,
    replies: Seq<LeaderReply>,
    k: int,
)
    requires
        is_run(events, regions, actions),
        replies.len() == events.len(),
        0 <= k < events.len(),
        forall|i: int| 0 <= i < k ==> goes_on(#[trigger] events[i]),
        events[k] is Failed || events[k] is Closed,
    ensures
        events.len() == k + 1,
        run_log(actions) == arrived_lines(events.take(k)).push(
            match events[k] {
                StreamEvent::Failed(error) => "error from pending transaction stream: "@ + error@,
                _ => "pending transaction stream closed"@,
            },
        ),
        run_questions(actions) == Seq::new(silences(events.take(k)), |i: int| regions),
        run_prints(actions, replies) == leader_reports(
            replies_to_silence(events.take(k), replies.take(k)),
        ),
        replies_to_silence(events.take(k), replies.take(k)).len() == silences(events.take(k)),
{
    assert(action_on(events[k], regions, actions[k]));
    assert(actions[k].spec_stops());
    assert(events.len() == k + 1);
    lemma_run_prefix(events, regions, actions, k);
    assert forall|i: int| 0 <= i < k implies goes_on(#[trigger] events.take(k)[i]) by {
        assert(goes_on(events[i]));
    }
    law_run_so_far(events.take(k), regions, actions.take(k), replies.take(k));
    assert(actions.drop_last() =~= actions.take(k));
    assert(replies.drop_last() =~= replies.take(k));
    assert(run_log(actions) =~= run_log(actions.take(k)).push(logged(actions[k])[0]));
    assert(run_questions(actions) =~= run_questions(actions.take(k)));
    assert(run_prints(actions, replies) =~= run_prints(actions.take(k), replies.take(k)));
}

/// How many of the first `n` packets hold a transaction.
pub open spec fn transactions_before(packets: Seq<Option<Vec<Signature>>>, n: int) -> int
    decreases n,
{
    if n <= 0 {
        0
    } else {
        transactions_before(packets, n - 1) + if packets[n - 1] is Some {
            1int
        } else {
            0int
        }
    }
}

/// Where the transactions of the first `n` packets are in the list of transactions.
proof fn lemma_transactions_at(packets: Seq<Option<Vec<Signature>>>, n: int)
    requires
        0 <= n <= packets.len(),
    ensures
        transactions_in(packets.take(n)).len() == transactions_before(packets, n),
        forall|i: int|
            0 <= i < n && #[trigger] packets[i] is Some ==> {
                &&& 0 <= transactions_before(packets, i) < transactions_before(packets, n)
                &&& transactions_in(packets.take(n))[transactions_before(packets, i)]
                    == packets[i]->Some_0
            },
    decreases n,
{
    if n > 0 {
        lemma_transactions_at(packets, n - 1);
        assert(packets.take(n).drop_last() =~= packets.take(n - 1));
        assert(packets.take(n).last() == packets[n - 1]);
    }
}

/// The lines on the transactions of the first `n` packets, one by one.
proof fn lemma_lines_at(packets: Seq<Option<Vec<Signature>>>, lines: Seq<String>, n: int)
    requires
        0 <= n <= packets.len(),
        texts_view(lines) == transaction_lines(packets.take(n)),
    ensures
        lines.len() == transactions_before(packets, n),
        forall|i: int|
            0 <= i < n && #[trigger] packets[i] is Some ==> {
                &&& 0 <= transactions_before(packets, i) < lines.len()
                &&& lines[transactions_before(packets, i)]@ == "tx sig: "@ + base58(
                    packets[i]->Some_0@[0]@,
                )
            },
{
    lemma_transactions_at(packets, n);
    let listed = transactions_in(packets.take(n));
    assert(texts_view(lines).len() == lines.len());
    assert(transaction_lines(packets.take(n)).len() == listed.len());
    assert forall|i: int| 0 <= i < n && #[trigger] packets[i] is Some implies {
        &&& 0 <= transactions_before(packets, i) < lines.len()
        &&& lines[transactions_before(packets, i)]@ == "tx sig: "@ + base58(
            packets[i]->Some_0@[0]@,
        )
    } by {
        let k = transactions_before(packets, i);
        assert(listed[k] == packets[i]->Some_0);
        assert(texts_view(lines)[k] == lines[k]@);
        assert(transaction_lines(packets.take(n))[k] == "tx sig: "@ + base58(listed[k]@[0]@));
    }
}

/// Packets whose transactions are all signed are reported in full: as many lines as packets that
/// hold a transaction, and for each such packet the line with its number is the first signature of
/// its transaction.
pub proof fn law_every_transaction_is_reported(
    packets: &Vec<Option<Vec<Signature>>>,
    report: (Vec<String>, bool),
)
    requires
        call_ensures(report_transactions, (packets,), report),
        forall|i: int|
            0 <= i < packets@.len() && #[trigger] packets@[i] is Some ==> packets@[i]->Some_0@.len()
                > 0,
    ensures
        report.1,
        report.0@.len() == transactions_before(packets@, packets@.len() as int),
        forall|i: int|
            0 <= i < packets@.len() && #[trigger] packets@[i] is Some ==> {
                &&& 0 <= transactions_before(packets@, i) < report.0@.len()
                &&& report.0@[transactions_before(packets@, i)]@ == "tx sig: "@ + base58(
                    packets@[i]->Some_0@[0]@,
                )
            },
{
    let n = packets@.len() as int;
    assert(packets@.take(n) =~= packets@);
    lemma_lines_at(packets@, report.0@, n);
}

/// Where a transaction has no signature, the report is not called complete, and the transactions
/// before the first such one are reported in full, and no other.
pub proof fn law_report_ends_before_unsigned_transaction(
    packets: &Vec<Option<Vec<Signature>>>,
    report: (Vec<String>, bool),
    n: int,
)
    requires
        call_ensures(report_transactions, (packets,), report),
        0 <= n < packets@.len(),
        packets@[n] is Some,
        packets@[n]->Some_0@.len() == 0,
        forall|i: int|
            0 <= i < n && #[trigger] packets@[i] is Some ==> packets@[i]->Some_0@.len() > 0,
    ensures
        !report.1,
        report.0@.len() == transactions_before(packets@, n),
        forall|i: int|
            0 <= i < n && #[trigger] packets@[i] is Some ==> {
                &&& 0 <= transactions_before(packets@, i) < report.0@.len()
                &&& report.0@[transactions_before(packets@, i)]@ == "tx sig: "@ + base58(
                    packets@[i]->Some_0@[0]@,
                )
            },
{
    assert(!all_signed(packets@)) by {
        assert(!(packets@[n] matches Some(s) ==> s@.len() > 0));
    }
    let m = choose|m: int| #[trigger]
        first_unsigned_at(packets@, m) && texts_view(report.0@) == transaction_lines(
            packets@.take(m),
        );
    lemma_first_unsigned(packets@, m, n);
    lemma_lines_at(packets@, report.0@, n);
}

/// There is one first transaction without a signature only.
proof fn lemma_first_unsigned(packets: Seq<Option<Vec<Signature>>>, m: int, n: int)
    requires
        first_unsigned_at(packets, m),
        0 <= n < packets.len(),
        packets[n] is Some,
        packets[n]->Some_0@.len() == 0,
        forall|i: int|
            0 <= i < n && #[trigger] packets[i] is Some ==> packets[i]->Some_0@.len() > 0,
    ensures
        m == n,
{
    if m < n {
        assert(packets[m] is Some);
    } else if n < m {
        assert(packets.take(m)[n] == packets[n]);
        assert(packets.take(m)[n] matches Some(s) ==> s@.len() > 0);
    }
}

/// A notification is logged as its transactions are reported: the same lines, and it goes on
/// exactly if the report is complete.
pub proof fn law_notification_is_logged_as_reported(
    packets: &Vec<Option<Vec<Signature>>>,
    event: &StreamEvent,
    regions: &Vec<String>,
    action: StreamAction,
    report: (Vec<String>, bool),
)
    requires
        *event == StreamEvent::Notification(*packets),
        call_ensures(on_stream_event, (event, regions), action),
        call_ensures(report_transactions, (packets,), report),
    ensures
        report.1 ==> action is Log && texts_view(action->Log_0@) == texts_view(report.0@),
        !report.1 ==> action is LogAndFail && texts_view(action->LogAndFail_0@) == texts_view(
            report.0@,
        ),
{
    if !report.1 {
        let m = choose|m: int| #[trigger]
            first_unsigned_at(packets@, m) && texts_view(report.0@) == transaction_lines(
                packets@.take(m),
            );
        let n = choose|n: int| #[trigger]
            first_unsigned_at(packets@, n) && texts_view(action->LogAndFail_0@)
                == transaction_lines(packets@.take(n));
        assert forall|i: int|
            0 <= i < n && #[trigger] packets@[i] is Some implies packets@[i]->Some_0@.len() > 0 by {
            assert(packets@.take(n)[i] == packets@[i]);
            assert(packets@.take(n)[i] matches Some(s) ==> s@.len() > 0);
        }
        lemma_first_unsigned(packets@, m, n);
    }
}

/// A failure is logged with its error, the end of the stream is logged, and both stop; silence asks
/// for the next leader in exactly the given regions, in their order, and goes on.
pub proof fn law_other_events(
    event: &StreamEvent,
    regions: &Vec<String>,
    action: StreamAction,
    stops: bool,
)
    requires
        call_ensures(on_stream_event, (event, regions), action),
        call_ensures(StreamAction::stops, (&action,), stops),
    ensures
        event matches StreamEvent::Failed(error) ==> {
            &&& stops
            &&& action is LogAndStop
            &&& action->LogAndStop_0@ == "error from pending transaction stream: "@ + error@
        },
        event is Closed ==> {
            &&& stops
            &&& action is LogAndStop
            &&& action->LogAndStop_0@ == "pending transaction stream closed"@
        },
        event is Silent ==> {
            &&& !stops
            &&& action is ReportLeader
            &&& action->ReportLeader_0@.len() == regions@.len()
            &&& forall|i: int|
                0 <= i < regions@.len() ==> (#[trigger] action->ReportLeader_0@[i])@
                    == regions@[i]@
        },
        event matches StreamEvent::Notification(packets) ==> (stops <==> exists|i: int|
            0 <= i < packets@.len() && #[trigger] packets@[i] is Some && packets@[i]->Some_0@.len()
                == 0),
{
    if event is Silent {
        let asked = action->ReportLeader_0@;
        assert(texts_view(asked).len() == asked.len());
        assert(texts_view(regions@).len() == regions@.len());
        assert forall|i: int| 0 <= i < regions@.len() implies (#[trigger] asked[i])@
            == regions@[i]@ by {
            assert(texts_view(asked)[i] == asked[i]@);
            assert(texts_view(regions@)[i] == regions@[i]@);
        }
    }
    if let StreamEvent::Notification(packets) = event {
        if exists|i: int|
            0 <= i < packets@.len() && #[trigger] packets@[i] is Some && packets@[i]->Some_0@.len()
                == 0 {
            let i = choose|i: int|
                0 <= i < packets@.len() && #[trigger] packets@[i] is Some
                    && packets@[i]->Some_0@.len() == 0;
            assert(!(packets@[i] matches Some(s) ==> s@.len() > 0));
        }
        if !all_signed(packets@) {
            let i = choose|i: int|
                0 <= i < packets@.len() && !(#[trigger] packets@[i] matches Some(s) ==> s@.len()
                    > 0);
            assert(packets@[i] is Some);
        }
    }
}

/// The lines of the stream hold the signature's text and the error's text as they are.
pub proof fn law_stream_lines(
    signature: &str,
    error: &str,
    transaction: String,
    failure: String,
    closed: String,
)
    requires
        call_ensures(transaction_line, (signature,), transaction),
        call_ensures(failure_line, (error,), failure),
        call_ensures(closed_line, (), closed),
    ensures
        transaction@ == "tx sig: "@ + signature@,
        failure@ == "error from pending transaction stream: "@ + error@,
        closed@ == "pending transaction stream closed"@,
{
}

} // verus!
