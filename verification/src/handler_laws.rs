//! What holds of every session, whatever the client and the target send.
use sqlparser::ast::Statement;
use vstd::prelude::*;

use crate::handler::{
    action_view, answers, handled, judged, judged_event, policy_after_event, relays,
    rewrites_message, RelayAction, RelayActionView, RelayEvent, RelayEventView,
};
use crate::message::{
    be_bytes, frontend_message, lemma_other_bytes_kept, lemma_query_bytes_kept, DecodeError,
    FrontendMessage, FrontendView, MAX_LENGTH, QUERY_TAG,
};
use crate::query::{
    hands_on, lemma_any_query_rewritten, lemma_joined_is_folded, parsed_sql, replaced, rewrites_to,
    statement_text, statement_texts,
};
use crate::tables::TableInfo;

verus! {

/// One turn of a session.
pub struct Turn<F, G> {
    /// What the turn began with.
    pub event: RelayEventView,
    /// How the policy is asked about the client's message.
    pub allows: G,
    /// What it says, if there is a message.
    pub allowed: bool,
    /// How a query is rewritten.
    pub rewrite: F,
    /// What was to be done.
    pub action: RelayActionView,
}

/// The policy in force after `turns`, where `policy` was in force before.
pub open spec fn policy_after<F, G>(policy: Seq<u8>, turns: Seq<Turn<F, G>>) -> Seq<u8>
    decreases turns.len(),
{
    if turns.len() == 0 {
        policy
    } else {
        policy_after_event(policy_after(policy, turns.drop_last()), turns.last().event)
    }
}

/// Whether the turn at `i` was taken as `ProtocolHandler::serve` takes it, in a
/// session that began under `policy`.
pub open spec fn taken_at<F, G, E>(
    policy: Seq<u8>,
    groups: &Vec<String>,
    tables: &TableInfo,
    turns: Seq<Turn<F, G>>,
    i: int,
) -> bool where
    F: FnOnce(Vec<Statement>, &TableInfo) -> Result<Vec<Statement>, E>,
    G: FnOnce(&FrontendMessage, &Vec<u8>, &Vec<String>) -> bool,
 {
    let turn = turns[i];
    &&& judged_event(
        turn.event,
        policy_after(policy, turns.take(i)),
        groups,
        turn.allows,
        turn.allowed,
    )
    &&& relays(
        turn.event,
        turn.allowed,
        tables,
        turn.rewrite,
        Ok::<RelayActionView, E>(turn.action),
    )
}

/// Whether `turns` are those of a session that began under `policy`.
pub open spec fn is_session<F, G, E>(
    policy: Seq<u8>,
    groups: &Vec<String>,
    tables: &TableInfo,
    turns: Seq<Turn<F, G>>,
) -> bool where
    F: FnOnce(Vec<Statement>, &TableInfo) -> Result<Vec<Statement>, E>,
    G: FnOnce(&FrontendMessage, &Vec<u8>, &Vec<String>) -> bool,
 {
    forall|i: int|
        0 <= i < turns.len() ==> #[trigger] taken_at::<F, G, E>(policy, groups, tables, turns, i)
}

/// All that was read from the target.
pub open spec fn read_from_target<F, G>(turns: Seq<Turn<F, G>>) -> Seq<u8>
    decreases turns.len(),
{
    if turns.len() == 0 {
        Seq::empty()
    } else {
        match turns.last().event {
            RelayEventView::TargetRead { bytes: Some(bytes) } => read_from_target(
                turns.drop_last(),
            ) + bytes,
            _ => read_from_target(turns.drop_last()),
        }
    }
}

/// All that was to be sent to the client.
pub open spec fn sent_to_client<F, G>(turns: Seq<Turn<F, G>>) -> Seq<u8>
    decreases turns.len(),
{
    if turns.len() == 0 {
        Seq::empty()
    } else {
        match turns.last().action {
            RelayActionView::SendToClient { bytes } => sent_to_client(turns.drop_last()) + bytes,
            _ => sent_to_client(turns.drop_last()),
        }
    }
}

/// All that was to be sent to the target.
pub open spec fn sent_to_target<F, G>(turns: Seq<Turn<F, G>>) -> Seq<u8>
    decreases turns.len(),
{
    if turns.len() == 0 {
        Seq::empty()
    } else {
        match turns.last().action {
            RelayActionView::SendToTarget { message } => sent_to_target(turns.drop_last())
                + message.bytes(),
            _ => sent_to_target(turns.drop_last()),
        }
    }
}

/// Whether the turn began with a client's message that the policy allows.
pub open spec fn brings_allowed_message<F, G>(turn: Turn<F, G>) -> bool {
    turn.event is ClientMessage && turn.event->message is Some && turn.allowed
}

/// The turns that began with a client's message that the policy allows, in
/// order.
pub open spec fn allowed_turns<F, G>(turns: Seq<Turn<F, G>>) -> Seq<Turn<F, G>>
    decreases turns.len(),
{
    if turns.len() == 0 {
        Seq::empty()
    } else if brings_allowed_message(turns.last()) {
        allowed_turns(turns.drop_last()).push(turns.last())
    } else {
        allowed_turns(turns.drop_last())
    }
}

/// The bytes of `messages`, one after the other.
pub open spec fn encoded(messages: Seq<FrontendView>) -> Seq<u8>
    decreases messages.len(),
{
    if messages.len() == 0 {
        Seq::empty()
    } else {
        encoded(messages.drop_last()) + messages.last().bytes()
    }
}

/// Whether each of `messages` is what the proxy makes of the client's message in
/// the turn at its place.
pub open spec fn all_handled<F, G, E>(
    turns: Seq<Turn<F, G>>,
    messages: Seq<FrontendView>,
    tables: &TableInfo,
) -> bool where F: FnOnce(Vec<Statement>, &TableInfo) -> Result<Vec<Statement>, E> {
    &&& turns.len() == messages.len()
    &&& forall|i: int|
        0 <= i < messages.len() ==> handled(
            turns[i].event->message->0,
            #[trigger] messages[i],
            tables,
            turns[i].rewrite,
            Ok::<(), E>(()),
        )
}

proof fn lemma_session_before<F, G, E>(
    policy: Seq<u8>,
    groups: &Vec<String>,
    tables: &TableInfo,
    turns: Seq<Turn<F, G>>,
) where
    F: FnOnce(Vec<Statement>, &TableInfo) -> Result<Vec<Statement>, E>,
    G: FnOnce(&FrontendMessage, &Vec<u8>, &Vec<String>) -> bool,

    requires
        is_session::<F, G, E>(policy, groups, tables, turns),
        turns.len() > 0,
    ensures
        is_session::<F, G, E>(policy, groups, tables, turns.drop_last()),
        taken_at::<F, G, E>(policy, groups, tables, turns, turns.len() - 1),
{
    let earlier = turns.drop_last();
    assert forall|i: int| 0 <= i < earlier.len() implies #[trigger] taken_at::<F, G, E>(
        policy,
        groups,
        tables,
        earlier,
        i,
    ) by {
        assert(earlier.take(i) =~= turns.take(i));
        assert(taken_at::<F, G, E>(policy, groups, tables, turns, i));
    }
}

/// The client is sent what the target sends, every byte of it, in order, and
/// nothing else.
pub proof fn lemma_client_gets_what_target_sends<F, G, E>(
    policy: Seq<u8>,
    groups: &Vec<String>,
    tables: &TableInfo,
    turns: Seq<Turn<F, G>>,
) where
    F: FnOnce(Vec<Statement>, &TableInfo) -> Result<Vec<Statement>, E>,
    G: FnOnce(&FrontendMessage, &Vec<u8>, &Vec<String>) -> bool,

    requires
        is_session::<F, G, E>(policy, groups, tables, turns),
    ensures
        sent_to_client(turns) == read_from_target(turns),
    decreases turns.len(),
{
    if turns.len() > 0 {
        lemma_session_before::<F, G, E>(policy, groups, tables, turns);
        lemma_client_gets_what_target_sends::<F, G, E>(policy, groups, tables, turns.drop_last());
        assert(sent_to_client(turns) =~= read_from_target(turns));
    }
}

/// The target is sent the client's messages that the policy allows, each as it
/// is handled, in order, and nothing else.
pub proof fn lemma_target_gets_what_is_allowed<F, G, E>(
    policy: Seq<u8>,
    groups: &Vec<String>,
    tables: &TableInfo,
    turns: Seq<Turn<F, G>>,
) -> (messages: Seq<FrontendView>) where
    F: FnOnce(Vec<Statement>, &TableInfo) -> Result<Vec<Statement>, E>,
    G: FnOnce(&FrontendMessage, &Vec<u8>, &Vec<String>) -> bool,

    requires
        is_session::<F, G, E>(policy, groups, tables, turns),
    ensures
        all_handled::<F, G, E>(allowed_turns(turns), messages, tables),
        sent_to_target(turns) == encoded(messages),
    decreases turns.len(),
{
    if turns.len() == 0 {
        Seq::empty()
    } else {
        lemma_session_before::<F, G, E>(policy, groups, tables, turns);
        let earlier = lemma_target_gets_what_is_allowed::<F, G, E>(
            policy,
            groups,
            tables,
            turns.drop_last(),
        );
        match turns.last().action {
            RelayActionView::SendToTarget { message } => {
                let messages = earlier.push(message);
                assert(messages.drop_last() =~= earlier);
                messages
            },
            _ => earlier,
        }
    }
}

/// A client's message has one message to the target where the policy allows it,
/// and none where it does not; the target is sent nothing else.
pub proof fn lemma_target_gets_one_for_one(
    event: RelayEventView,
    allowed: bool,
    action: RelayActionView,
)
    requires
        answers(event, allowed, action),
    ensures
        action is SendToTarget <==> event is ClientMessage && event->message is Some && allowed,
{
}

/// A client's message that the policy in force denies is not sent to the target,
/// and nothing else is done about it.
pub proof fn lemma_denied_message_withheld<F, G, E>(
    message: FrontendView,
    policy: Seq<u8>,
    groups: &Vec<String>,
    tables: &TableInfo,
    allows: G,
    allowed: bool,
    rewrite: F,
    outcome: Result<RelayActionView, E>,
) where
    F: FnOnce(Vec<Statement>, &TableInfo) -> Result<Vec<Statement>, E>,
    G: FnOnce(&FrontendMessage, &Vec<u8>, &Vec<String>) -> bool,

    requires
        judged_event(
            RelayEventView::ClientMessage { message: Some(message) },
            policy,
            groups,
            allows,
            allowed,
        ),
        relays(
            RelayEventView::ClientMessage { message: Some(message) },
            allowed,
            tables,
            rewrite,
            outcome,
        ),
        !judged(message, policy, groups, allows, true),
    ensures
        outcome == Ok::<RelayActionView, E>(RelayActionView::Wait),
{
}

/// What reaches the target in a session is a client's message that the policy in
/// force at that turn has allowed.
pub proof fn lemma_policy_in_force_decides<F, G, E>(
    policy: Seq<u8>,
    groups: &Vec<String>,
    tables: &TableInfo,
    turns: Seq<Turn<F, G>>,
    i: int,
) where
    F: FnOnce(Vec<Statement>, &TableInfo) -> Result<Vec<Statement>, E>,
    G: FnOnce(&FrontendMessage, &Vec<u8>, &Vec<String>) -> bool,

    requires
        is_session::<F, G, E>(policy, groups, tables, turns),
        0 <= i < turns.len(),
        turns[i].action is SendToTarget,
    ensures
        turns[i].event is ClientMessage,
        turns[i].event->message is Some,
        judged(
            turns[i].event->message->0,
            policy_after(policy, turns.take(i)),
            groups,
            turns[i].allows,
            true,
        ),
{
    assert(taken_at::<F, G, E>(policy, groups, tables, turns, i));
}

/// A session ends when either side has ended or failed, and in no other case.
pub proof fn lemma_session_ends_with_its_sides(
    event: RelayEventView,
    allowed: bool,
    action: RelayActionView,
)
    requires
        answers(event, allowed, action),
    ensures
        action is Stop <==> match event {
            RelayEventView::TargetRead { bytes } => bytes is None || bytes->0.len() == 0,
            RelayEventView::ClientMessage { message } => message is None,
            RelayEventView::Sent { done } => !done,
            RelayEventView::PolicyChanged { .. } => false,
        },
{
}

/// The policy in force is the one that was distributed last.
pub proof fn lemma_latest_policy_in_force<F, G>(policy: Seq<u8>, turns: Seq<Turn<F, G>>, i: int)
    requires
        0 <= i < turns.len(),
        turns[i].event is PolicyChanged && turns[i].event->policy is Some,
        forall|j: int|
            i < j < turns.len() ==> !((#[trigger] turns[j]).event is PolicyChanged
                && turns[j].event->policy is Some),
    ensures
        policy_after(policy, turns) == turns[i].event->policy->0,
    decreases turns.len(),
{
    if i < turns.len() - 1 {
        assert(!(turns[turns.len() - 1].event is PolicyChanged && turns[turns.len()
            - 1].event->policy is Some));
        lemma_latest_policy_in_force(policy, turns.drop_last(), i);
    }
}

/// What is no query, or no SQL, leaves the proxy byte for byte as it came.
pub proof fn lemma_other_messages_pass_unchanged<F, E>(
    tag: u8,
    body: Seq<u8>,
    before: FrontendView,
    after: FrontendView,
    tables: &TableInfo,
    rewrite: F,
    result: Result<(), E>,
) where F: FnOnce(Vec<Statement>, &TableInfo) -> Result<Vec<Statement>, E>
    requires
        body.len() + 4 <= MAX_LENGTH,
        frontend_message(tag, body) == Ok::<FrontendView, DecodeError>(before),
        handled(before, after, tables, rewrite, result),
        before is Query ==> parsed_sql(before->query_string) is None,
    ensures
        result is Ok,
        after == before,
        after.bytes() == seq![tag] + be_bytes((body.len() + 4) as u32) + body,
{
    if tag == QUERY_TAG {
        lemma_query_bytes_kept(body);
    } else {
        lemma_other_bytes_kept(tag, body);
    }
}

/// A query stays a query, and a message that could not be rewritten stays as it
/// was.
pub proof fn lemma_query_stays_query<F, E>(
    before: FrontendView,
    after: FrontendView,
    tables: &TableInfo,
    rewrite: F,
    result: Result<(), E>,
) where F: FnOnce(Vec<Statement>, &TableInfo) -> Result<Vec<Statement>, E>
    requires
        handled(before, after, tables, rewrite, result),
    ensures
        before is Query <==> after is Query,
        result is Err ==> after == before,
{
}

/// Whether two outcomes of rewriting are the same: the same statements, or the
/// same error.
pub open spec fn same_outcome<E>(
    first: Result<Vec<Statement>, E>,
    second: Result<Vec<Statement>, E>,
) -> bool {
    match (first, second) {
        (Ok(a), Ok(b)) => a@ == b@,
        (Err(a), Err(b)) => a == b,
        _ => false,
    }
}

/// Whether `rewrite` has one outcome for `statements` and the tables that
/// `tables` holds.
pub open spec fn one_outcome<F, E>(
    statements: Seq<Statement>,
    tables: Map<Seq<char>, Seq<Seq<char>>>,
    rewrite: F,
) -> bool where F: FnOnce(Vec<Statement>, &TableInfo) -> Result<Vec<Statement>, E> {
    forall|
        tables1: &TableInfo,
        tables2: &TableInfo,
        outcome1: Result<Vec<Statement>, E>,
        outcome2: Result<Vec<Statement>, E>,
    |
        tables1@ == tables && tables2@ == tables && #[trigger] rewrites_to(
            statements,
            tables1,
            rewrite,
            outcome1,
        ) && #[trigger] rewrites_to(statements, tables2, rewrite, outcome2) ==> same_outcome(
            outcome1,
            outcome2,
        )
}

/// Two queries that parse to the same statements may leave the proxy in the same
/// ways, whatever the rewriting: what may become of the one may become of the
/// other, and an error leaves each as it was.
pub proof fn lemma_same_statements_may_leave_alike<F, E>(
    query1: Seq<char>,
    query2: Seq<char>,
    after: FrontendView,
    tables: &TableInfo,
    rewrite: F,
    result: Result<(), E>,
) where F: FnOnce(Vec<Statement>, &TableInfo) -> Result<Vec<Statement>, E>
    requires
        parsed_sql(query1) is Some,
        parsed_sql(query1) == parsed_sql(query2),
        handled(FrontendView::Query { query_string: query1 }, after, tables, rewrite, result),
    ensures
        handled(
            FrontendView::Query { query_string: query2 },
            if result is Ok {
                after
            } else {
                FrontendView::Query { query_string: query2 }
            },
            tables,
            rewrite,
            result,
        ),
{
    let statements = parsed_sql(query1)->0;
    let outcome = choose|outcome: Result<Vec<Statement>, E>| #[trigger]
        rewrites_to(statements, tables, rewrite, outcome) && after->query_string == replaced(
            query1,
            outcome,
        ) && hands_on(outcome, result);
    assert(rewrites_to(statements, tables, rewrite, outcome));
}

/// Two queries that parse to the same statements have the same result, and on
/// success leave the proxy as the same text. This holds where rewriting has one
/// outcome for these statements and tables.
pub proof fn lemma_same_statements_leave_alike<F, E>(
    query1: Seq<char>,
    query2: Seq<char>,
    after1: FrontendView,
    after2: FrontendView,
    tables1: &TableInfo,
    tables2: &TableInfo,
    rewrite: F,
    result1: Result<(), E>,
    result2: Result<(), E>,
) where F: FnOnce(Vec<Statement>, &TableInfo) -> Result<Vec<Statement>, E>
    requires
        parsed_sql(query1) is Some,
        parsed_sql(query1) == parsed_sql(query2),
        tables1@ == tables2@,
        one_outcome(parsed_sql(query1)->0, tables1@, rewrite),
        handled(FrontendView::Query { query_string: query1 }, after1, tables1, rewrite, result1),
        handled(FrontendView::Query { query_string: query2 }, after2, tables2, rewrite, result2),
    ensures
        result1 == result2,
        result1 is Ok ==> after1 == after2,
{
    let statements = parsed_sql(query1)->0;
    let outcome1 = choose|outcome: Result<Vec<Statement>, E>| #[trigger]
        rewrites_to(statements, tables1, rewrite, outcome) && after1->query_string == replaced(
            query1,
            outcome,
        ) && hands_on(outcome, result1);
    let outcome2 = choose|outcome: Result<Vec<Statement>, E>| #[trigger]
        rewrites_to(statements, tables2, rewrite, outcome) && after2->query_string == replaced(
            query2,
            outcome,
        ) && hands_on(outcome, result2);
    assert(same_outcome(outcome1, outcome2));
    if result1 is Ok {
        assert(result1->Ok_0 == result2->Ok_0);
    }
}

/// Whether two lists of statements are written alike.
pub open spec fn written_alike(first: Seq<Statement>, second: Seq<Statement>) -> bool {
    &&& first.len() == second.len()
    &&& forall|i: int|
        #![trigger first[i]]
        #![trigger second[i]]
        0 <= i < first.len() ==> statement_text(first[i]) == statement_text(second[i])
}

/// Whether two outcomes of rewriting are written alike: statements that are
/// written alike, or the same error.
pub open spec fn outcomes_written_alike<E>(
    first: Result<Vec<Statement>, E>,
    second: Result<Vec<Statement>, E>,
) -> bool {
    match (first, second) {
        (Ok(a), Ok(b)) => written_alike(a@, b@),
        (Err(a), Err(b)) => a == b,
        _ => false,
    }
}

/// Whether `rewrite` makes outcomes that are written alike of statements that
/// are, with the same tables.
pub open spec fn rewrites_alike<F, E>(rewrite: F) -> bool where
    F: FnOnce(Vec<Statement>, &TableInfo) -> Result<Vec<Statement>, E>,
 {
    forall|
        statements1: Seq<Statement>,
        statements2: Seq<Statement>,
        tables1: &TableInfo,
        tables2: &TableInfo,
        outcome1: Result<Vec<Statement>, E>,
        outcome2: Result<Vec<Statement>, E>,
    |
        written_alike(statements1, statements2) && tables1@ == tables2@ && #[trigger] rewrites_to(
            statements1,
            tables1,
            rewrite,
            outcome1,
        ) && #[trigger] rewrites_to(statements2, tables2, rewrite, outcome2)
            ==> outcomes_written_alike(outcome1, outcome2)
}

/// Two queries whose statements are written alike have the same result, and on
/// success leave the proxy as the same text: the client's own comments and
/// spacing, which are not written again, do not get through. This holds where
/// rewriting makes outcomes written alike of statements written alike.
pub proof fn lemma_statements_written_alike_leave_alike<F, E>(
    query1: Seq<char>,
    query2: Seq<char>,
    after1: FrontendView,
    after2: FrontendView,
    tables1: &TableInfo,
    tables2: &TableInfo,
    rewrite: F,
    result1: Result<(), E>,
    result2: Result<(), E>,
) where F: FnOnce(Vec<Statement>, &TableInfo) -> Result<Vec<Statement>, E>
    requires
        parsed_sql(query1) is Some,
        parsed_sql(query2) is Some,
        written_alike(parsed_sql(query1)->0, parsed_sql(query2)->0),
        tables1@ == tables2@,
        rewrites_alike(rewrite),
        handled(FrontendView::Query { query_string: query1 }, after1, tables1, rewrite, result1),
        handled(FrontendView::Query { query_string: query2 }, after2, tables2, rewrite, result2),
    ensures
        result1 == result2,
        result1 is Ok ==> after1 == after2,
{
    let outcome1 = choose|outcome: Result<Vec<Statement>, E>| #[trigger]
        rewrites_to(parsed_sql(query1)->0, tables1, rewrite, outcome) && after1->query_string
            == replaced(query1, outcome) && hands_on(outcome, result1);
    let outcome2 = choose|outcome: Result<Vec<Statement>, E>| #[trigger]
        rewrites_to(parsed_sql(query2)->0, tables2, rewrite, outcome) && after2->query_string
            == replaced(query2, outcome) && hands_on(outcome, result2);
    assert(outcomes_written_alike(outcome1, outcome2));
    if result1 is Ok {
        assert(result1->Ok_0 == result2->Ok_0);
        assert(statement_texts(outcome1->Ok_0@) =~= statement_texts(outcome2->Ok_0@));
    }
}

/// What handling makes of a client's message depends on the message and on the
/// tables alone: sessions under other policies, of other groups, with other
/// settings or databases make the same of it. Of a query that is SQL this holds
/// where rewriting has one outcome for its statements and these tables.
pub proof fn lemma_message_and_tables_decide<F, E>(
    before: FrontendView,
    after1: FrontendView,
    after2: FrontendView,
    tables1: &TableInfo,
    tables2: &TableInfo,
    rewrite: F,
    result1: Result<(), E>,
    result2: Result<(), E>,
) where F: FnOnce(Vec<Statement>, &TableInfo) -> Result<Vec<Statement>, E>
    requires
        tables1@ == tables2@,
        before matches FrontendView::Query { query_string } ==> (parsed_sql(
            query_string,
        ) matches Some(statements) ==> one_outcome(statements, tables1@, rewrite)),
        handled(before, after1, tables1, rewrite, result1),
        handled(before, after2, tables2, rewrite, result2),
    ensures
        result1 == result2,
        after1 == after2,
{
    if before is Query && parsed_sql(before->query_string) is Some {
        lemma_same_statements_leave_alike(
            before->query_string,
            before->query_string,
            after1,
            after2,
            tables1,
            tables2,
            rewrite,
            result1,
            result2,
        );
    } else {
        assert(result1->Ok_0 == result2->Ok_0);
    }
}

/// The policy that was to be loaded last, or `policy` where none was.
pub open spec fn loaded_after<F, G>(policy: Seq<u8>, turns: Seq<Turn<F, G>>) -> Seq<u8>
    decreases turns.len(),
{
    if turns.len() == 0 {
        policy
    } else {
        match turns.last().action {
            RelayActionView::LoadPolicy { policy: loaded } => loaded,
            _ => loaded_after(policy, turns.drop_last()),
        }
    }
}

/// In every session, the policy that was to be loaded last is the policy in
/// force.
pub proof fn lemma_loaded_policy_in_force<F, G, E>(
    policy: Seq<u8>,
    groups: &Vec<String>,
    tables: &TableInfo,
    turns: Seq<Turn<F, G>>,
) where
    F: FnOnce(Vec<Statement>, &TableInfo) -> Result<Vec<Statement>, E>,
    G: FnOnce(&FrontendMessage, &Vec<u8>, &Vec<String>) -> bool,

    requires
        is_session::<F, G, E>(policy, groups, tables, turns),
    ensures
        loaded_after(policy, turns) == policy_after(policy, turns),
    decreases turns.len(),
{
    if turns.len() > 0 {
        lemma_session_before::<F, G, E>(policy, groups, tables, turns);
        lemma_loaded_policy_in_force::<F, G, E>(policy, groups, tables, turns.drop_last());
    }
}

/// In every session, a policy is loaded when it is distributed, that very policy,
/// and at no other turn.
pub proof fn lemma_distributed_policy_loaded<F, G, E>(
    policy: Seq<u8>,
    groups: &Vec<String>,
    tables: &TableInfo,
    turns: Seq<Turn<F, G>>,
    i: int,
    loaded: Seq<u8>,
) where
    F: FnOnce(Vec<Statement>, &TableInfo) -> Result<Vec<Statement>, E>,
    G: FnOnce(&FrontendMessage, &Vec<u8>, &Vec<String>) -> bool,

    requires
        is_session::<F, G, E>(policy, groups, tables, turns),
        0 <= i < turns.len(),
    ensures
        turns[i].action == (RelayActionView::LoadPolicy { policy: loaded }) <==> turns[i].event
            == (RelayEventView::PolicyChanged { policy: Some(loaded) }),
{
    assert(taken_at::<F, G, E>(policy, groups, tables, turns, i));
}

/// The policy in force stays while none is distributed.
pub proof fn lemma_policy_stays_in_force<F, G>(policy: Seq<u8>, turns: Seq<Turn<F, G>>)
    requires
        forall|j: int|
            0 <= j < turns.len() ==> !((#[trigger] turns[j]).event is PolicyChanged
                && turns[j].event->policy is Some),
    ensures
        policy_after(policy, turns) == policy,
    decreases turns.len(),
{
    if turns.len() > 0 {
        assert(!(turns[turns.len() - 1].event is PolicyChanged && turns[turns.len()
            - 1].event->policy is Some));
        lemma_policy_stays_in_force(policy, turns.drop_last());
    }
}

/// In every session, a turn ends it exactly when a side has ended or failed, and
/// a turn of which nothing comes is a report that something was sent, a policy
/// that cannot come, or a message that is denied.
pub proof fn lemma_every_turn_answered<F, G, E>(
    policy: Seq<u8>,
    groups: &Vec<String>,
    tables: &TableInfo,
    turns: Seq<Turn<F, G>>,
    i: int,
) where
    F: FnOnce(Vec<Statement>, &TableInfo) -> Result<Vec<Statement>, E>,
    G: FnOnce(&FrontendMessage, &Vec<u8>, &Vec<String>) -> bool,

    requires
        is_session::<F, G, E>(policy, groups, tables, turns),
        0 <= i < turns.len(),
    ensures
        turns[i].action is Stop <==> match turns[i].event {
            RelayEventView::TargetRead { bytes } => bytes is None || bytes->0.len() == 0,
            RelayEventView::ClientMessage { message } => message is None,
            RelayEventView::Sent { done } => !done,
            RelayEventView::PolicyChanged { .. } => false,
        },
        turns[i].action is Wait <==> match turns[i].event {
            RelayEventView::TargetRead { .. } => false,
            RelayEventView::ClientMessage { message } => message is Some && !turns[i].allowed,
            RelayEventView::Sent { done } => done,
            RelayEventView::PolicyChanged { policy } => policy is None,
        },
        turns[i].event matches RelayEventView::TargetRead { bytes: Some(bytes) } ==> bytes.len()
            > 0 ==> turns[i].action == (RelayActionView::SendToClient { bytes }),
{
    assert(taken_at::<F, G, E>(policy, groups, tables, turns, i));
}

/// What happens, and what is to be done, is seen as it is, with all its bytes.
pub proof fn lemma_relay_views(event: RelayEvent, action: RelayAction)
    ensures
        event matches RelayEvent::PolicyChanged { policy: Some(policy) } ==> event@ == (
        RelayEventView::PolicyChanged { policy: Some(policy@) }),
        event matches RelayEvent::PolicyChanged { policy: None } ==> event@ == (
        RelayEventView::PolicyChanged { policy: None }),
        event matches RelayEvent::TargetRead { bytes: Some(bytes) } ==> event@ == (
        RelayEventView::TargetRead { bytes: Some(bytes@) }),
        event matches RelayEvent::TargetRead { bytes: None } ==> event@ == (
        RelayEventView::TargetRead { bytes: None }),
        event matches RelayEvent::ClientMessage { message: Some(message) } ==> event@ == (
        RelayEventView::ClientMessage { message: Some(message@) }),
        event matches RelayEvent::ClientMessage { message: None } ==> event@ == (
        RelayEventView::ClientMessage { message: None }),
        event matches RelayEvent::Sent { done } ==> event@ == (RelayEventView::Sent { done }),
        action@ is Wait <==> action is Wait,
        action matches RelayAction::LoadPolicy { policy } ==> action@ == (
        RelayActionView::LoadPolicy { policy: policy@ }),
        action matches RelayAction::SendToClient { bytes } ==> action@ == (
        RelayActionView::SendToClient { bytes: bytes@ }),
        action matches RelayAction::SendToTarget { message } ==> action@ == (
        RelayActionView::SendToTarget { message: message@ }),
        action@ is Stop <==> action is Stop,
{
}

/// What a turn returns is seen as it is: an action, or the very error.
pub proof fn lemma_action_seen<E>(returned: Result<RelayAction, E>)
    ensures
        returned matches Ok(action) ==> action_view(returned) == Ok::<RelayActionView, E>(action@),
        returned matches Err(error) ==> action_view(returned) == Err::<RelayActionView, E>(error),
{
}

/// Every message of a client is put to the policy, whole, and a verdict is what
/// was said of it.
pub proof fn lemma_every_message_judged<G>(
    message: FrontendView,
    policy: Seq<u8>,
    groups: &Vec<String>,
    allows: G,
    allowed: bool,
) -> (asked: (FrontendMessage, Vec<u8>)) where
    G: FnOnce(&FrontendMessage, &Vec<u8>, &Vec<String>) -> bool,

    requires
        judged_event(
            RelayEventView::ClientMessage { message: Some(message) },
            policy,
            groups,
            allows,
            allowed,
        ),
    ensures
        asked.0@ == message,
        asked.1@ == policy,
        call_ensures(allows, (&asked.0, &asked.1, groups), allowed),
{
    choose|given: FrontendMessage, in_force: Vec<u8>|
        given@ == message && in_force@ == policy && #[trigger] call_ensures(
            allows,
            (&given, &in_force, groups),
            allowed,
        )
}

/// A turn fails only with the error that the rewriting of an allowed query met.
pub proof fn lemma_only_rewriting_fails<F, E>(
    event: RelayEventView,
    allowed: bool,
    tables: &TableInfo,
    rewrite: F,
    error: E,
) -> (given: Vec<Statement>) where
    F: FnOnce(Vec<Statement>, &TableInfo) -> Result<Vec<Statement>, E>,

    requires
        relays(event, allowed, tables, rewrite, Err::<RelayActionView, E>(error)),
    ensures
        allowed,
        event is ClientMessage,
        event->message is Some,
        event->message->0 is Query,
        parsed_sql(event->message->0->query_string) == Some(given@),
        call_ensures(rewrite, (given, tables), Err::<Vec<Statement>, E>(error)),
{
    let before = event->message->0;
    lemma_query_handled(before, before, tables, rewrite, Err::<(), E>(error)).0
}

/// A query leaves the proxy as its statements were rewritten, all of them, each
/// with a semicolon behind it; where they could not be, or where it is no SQL, it
/// stays as it was.
pub proof fn lemma_query_handled<F, E>(
    before: FrontendView,
    after: FrontendView,
    tables: &TableInfo,
    rewrite: F,
    result: Result<(), E>,
) -> (made: (Vec<Statement>, Result<Vec<Statement>, E>)) where
    F: FnOnce(Vec<Statement>, &TableInfo) -> Result<Vec<Statement>, E>,

    requires
        handled(before, after, tables, rewrite, result),
    ensures
        before !is Query ==> after == before && result is Ok,
        before matches FrontendView::Query { query_string } ==> {
            &&& after is Query
            &&& parsed_sql(query_string) is None ==> after == before && result is Ok
            &&& parsed_sql(query_string) matches Some(statements) ==> {
                &&& made.0@ == statements
                &&& call_ensures(rewrite, (made.0, tables), made.1)
                &&& match made.1 {
                    Ok(kept) => result is Ok && after->query_string == kept@.fold_left(
                        Seq::<char>::empty(),
                        |text: Seq<char>, statement: Statement|
                            text + statement_text(statement)->0 + ";"@,
                    ),
                    Err(error) => result == Err::<(), E>(error) && after == before,
                }
            }
        },
{
    if before is Query && parsed_sql(before->query_string) is Some {
        let statements = parsed_sql(before->query_string)->0;
        let outcome = choose|outcome: Result<Vec<Statement>, E>| #[trigger]
            rewrites_to(statements, tables, rewrite, outcome) && after->query_string == replaced(
                before->query_string,
                outcome,
            ) && hands_on(outcome, result);
        let given = choose|given: Vec<Statement>|
            given@ == statements && #[trigger] call_ensures(rewrite, (given, tables), outcome);
        if let Ok(kept) = outcome {
            lemma_joined_is_folded(kept@);
        }
        (given, outcome)
    } else {
        arbitrary()
    }
}

/// A rewriter that takes any statements, and returns only such as can be
/// written, will do for every message.
pub proof fn lemma_any_message_rewritten<F, E>(
    message: FrontendView,
    tables: &TableInfo,
    rewrite: F,
) where F: FnOnce(Vec<Statement>, &TableInfo) -> Result<Vec<Statement>, E>
    requires
        forall|given: Vec<Statement>|
            (forall|i: int|
                0 <= i < given@.len() ==> statement_text(#[trigger] given@[i]) is Some)
                ==> #[trigger] call_requires(rewrite, (given, tables)),
        forall|given: Vec<Statement>, kept: Vec<Statement>, i: int|
            #[trigger] call_ensures(
                rewrite,
                (given, tables),
                Ok::<Vec<Statement>, E>(kept),
            ) && 0 <= i < kept@.len() ==> statement_text(#[trigger] kept@[i]) is Some,
    ensures
        rewrites_message(message, tables, rewrite),
{
    if let FrontendView::Query { query_string } = message {
        lemma_any_query_rewritten(parsed_sql(query_string), tables, rewrite);
    }
}

} // verus!
