//! Laws about whole sequences of registry operations, proved over the ghost
//! model: a run of operations is folded step by step, and the properties
//! that hold of every run — uniqueness of a name's successful registration,
//! strictly increasing identities, transcript growth, and the diagnostics
//! counter — are stated and proved here.

use vstd::prelude::*;

use crate::model::{
    MessageView, ParticipantView, RegistryView, has_name, lemma_diagnostics_preserves_wf,
    lemma_post_preserves_wf, lemma_register_preserves_wf, spec_diagnostics, spec_post,
    spec_register, wf,
};
use crate::render::{message_line, transcript_of};

verus! {

/// One registry operation together with the inputs it carries. A run of the
/// registry is a sequence of these, in the order the registry serialized
/// them.
pub ghost enum Op {
    Register { name: Seq<char>, origin: Seq<char> },
    Post { name: Seq<char>, body: Seq<char> },
    Transcript,
    Diagnostics,
}

/// The registry state after one operation.
pub open spec fn step(v: RegistryView, op: Op) -> RegistryView {
    match op {
        Op::Register { name, origin } => spec_register(v, name, origin).0,
        Op::Post { name, body } => spec_post(v, name, body).0,
        Op::Transcript => v,
        Op::Diagnostics => spec_diagnostics(v),
    }
}

/// The registry state after a sequence of operations, applied in order.
pub open spec fn run(v: RegistryView, ops: Seq<Op>) -> RegistryView
    decreases ops.len(),
{
    if ops.len() == 0 {
        v
    } else {
        step(run(v, ops.drop_last()), ops.last())
    }
}

/// Whether this operation is a registration of `name` that succeeds when
/// applied to state `v`.
pub open spec fn register_success(v: RegistryView, op: Op, name: Seq<char>) -> bool {
    match op {
        Op::Register { name: n, origin } => n == name && !has_name(v.participants, name),
        _ => false,
    }
}

/// How many registrations of `name` succeed over a run of `ops` from `v`.
pub open spec fn register_successes(v: RegistryView, ops: Seq<Op>, name: Seq<char>) -> nat
    decreases ops.len(),
{
    if ops.len() == 0 {
        0
    } else {
        register_successes(v, ops.drop_last(), name) + (if register_success(
            run(v, ops.drop_last()),
            ops.last(),
            name,
        ) {
            1nat
        } else {
            0nat
        })
    }
}

/// How many current participants hold `name`.
pub open spec fn name_count(ps: Seq<ParticipantView>, name: Seq<char>) -> nat
    decreases ps.len(),
{
    if ps.len() == 0 {
        0
    } else {
        name_count(ps.drop_last(), name) + (if ps.last().name == name {
            1nat
        } else {
            0nat
        })
    }
}

/// How many diagnostics renders a sequence of operations contains.
pub open spec fn diagnostics_count(ops: Seq<Op>) -> nat
    decreases ops.len(),
{
    if ops.len() == 0 {
        0
    } else {
        diagnostics_count(ops.drop_last()) + (if ops.last() is Diagnostics {
            1nat
        } else {
            0nat
        })
    }
}

/// Every operation preserves the registry invariant.
pub proof fn lemma_step_preserves_wf(v: RegistryView, op: Op)
    requires
        wf(v),
    ensures
        wf(step(v, op)),
{
    match op {
        Op::Register { name, origin } => lemma_register_preserves_wf(v, name, origin),
        Op::Post { name, body } => lemma_post_preserves_wf(v, name, body),
        Op::Transcript => {},
        Op::Diagnostics => lemma_diagnostics_preserves_wf(v),
    }
}

/// Every run of operations preserves the registry invariant.
pub proof fn lemma_run_preserves_wf(v: RegistryView, ops: Seq<Op>)
    requires
        wf(v),
    ensures
        wf(run(v, ops)),
    decreases ops.len(),
{
    if ops.len() > 0 {
        lemma_run_preserves_wf(v, ops.drop_last());
        lemma_step_preserves_wf(run(v, ops.drop_last()), ops.last());
    }
}

/// No operation removes a participant, so a name once present stays
/// present.
pub proof fn lemma_step_preserves_has_name(v: RegistryView, op: Op, name: Seq<char>)
    requires
        has_name(v.participants, name),
    ensures
        has_name(step(v, op).participants, name),
{
    let i = choose|i: int| 0 <= i < v.participants.len() && v.participants[i].name == name;
    assert(step(v, op).participants[i].name == name);
}

/// A name once present stays present over any run of operations.
pub proof fn lemma_run_preserves_has_name(v: RegistryView, ops: Seq<Op>, name: Seq<char>)
    requires
        has_name(v.participants, name),
    ensures
        has_name(run(v, ops).participants, name),
    decreases ops.len(),
{
    if ops.len() > 0 {
        lemma_run_preserves_has_name(v, ops.drop_last(), name);
        lemma_step_preserves_has_name(run(v, ops.drop_last()), ops.last(), name);
    }
}

/// Once a registration of `name` has succeeded, the name is present in
/// every later state of the run.
pub proof fn lemma_success_implies_has_name(v: RegistryView, ops: Seq<Op>, name: Seq<char>)
    requires
        register_successes(v, ops, name) >= 1,
    ensures
        has_name(run(v, ops).participants, name),
    decreases ops.len(),
{
    let prev = run(v, ops.drop_last());
    if register_success(prev, ops.last(), name) {
        let n = prev.participants.len() as int;
        assert(run(v, ops).participants[n].name == name);
    } else {
        lemma_success_implies_has_name(v, ops.drop_last(), name);
        lemma_step_preserves_has_name(prev, ops.last(), name);
    }
}

/// Among participants with pairwise-distinct names, a name occurs at most
/// once, and exactly once when it is present at all.
pub proof fn lemma_name_count_of_distinct(ps: Seq<ParticipantView>, name: Seq<char>)
    requires
        forall|i: int, j: int|
            #![trigger ps[i], ps[j]]
            0 <= i < j < ps.len() ==> ps[i].name != ps[j].name,
    ensures
        name_count(ps, name) <= 1,
        name_count(ps, name) == 1 <==> has_name(ps, name),
    decreases ps.len(),
{
    if ps.len() > 0 {
        let front = ps.drop_last();
        assert(forall|i: int, j: int|
            #![trigger front[i], front[j]]
            0 <= i < j < front.len() ==> front[i].name != front[j].name);
        lemma_name_count_of_distinct(front, name);
        if ps.last().name == name {
            assert forall|i: int| 0 <= i < front.len() implies (#[trigger] front[i]).name
                != name by {
                assert(ps[i].name != ps[ps.len() - 1].name);
            }
            assert(!has_name(front, name));
            assert(has_name(ps, name)) by {
                assert(ps[ps.len() - 1].name == name);
            }
        } else {
            assert(has_name(ps, name) <==> has_name(front, name)) by {
                if has_name(ps, name) {
                    let i = choose|i: int| 0 <= i < ps.len() && ps[i].name == name;
                    assert(front[i].name == name);
                }
                if has_name(front, name) {
                    let i = choose|i: int| 0 <= i < front.len() && front[i].name == name;
                    assert(ps[i].name == name);
                }
            }
        }
    }
}

/// Uniqueness law: over any run of operations from a well-formed state, at
/// most one registration of a given name succeeds — every other attempt
/// reports `AlreadyRegistered` and changes nothing — and when one has
/// succeeded the registry holds exactly one participant with that name.
pub proof fn lemma_register_uniqueness(v: RegistryView, ops: Seq<Op>, name: Seq<char>)
    requires
        wf(v),
    ensures
        register_successes(v, ops, name) <= 1,
        register_successes(v, ops, name) >= 1 ==> name_count(run(v, ops).participants, name) == 1,
    decreases ops.len(),
{
    if ops.len() > 0 {
        lemma_register_uniqueness(v, ops.drop_last(), name);
        let prev = run(v, ops.drop_last());
        if register_successes(v, ops.drop_last(), name) >= 1 {
            lemma_success_implies_has_name(v, ops.drop_last(), name);
            assert(!register_success(prev, ops.last(), name));
        }
    }
    if register_successes(v, ops, name) >= 1 {
        lemma_success_implies_has_name(v, ops, name);
        lemma_run_preserves_wf(v, ops);
        lemma_name_count_of_distinct(run(v, ops).participants, name);
    }
}

/// The identity counter never decreases under any operation.
pub proof fn lemma_step_next_id_monotone(v: RegistryView, op: Op)
    ensures
        step(v, op).next_id >= v.next_id,
{
}

/// The identity counter never decreases over any run of operations.
pub proof fn lemma_run_next_id_monotone(v: RegistryView, ops: Seq<Op>)
    ensures
        run(v, ops).next_id >= v.next_id,
    decreases ops.len(),
{
    if ops.len() > 0 {
        lemma_run_next_id_monotone(v, ops.drop_last());
        lemma_step_next_id_monotone(run(v, ops.drop_last()), ops.last());
    }
}

/// Running a concatenation of operation sequences is running them one after
/// the other.
pub proof fn lemma_run_concat(v: RegistryView, a: Seq<Op>, b: Seq<Op>)
    ensures
        run(v, a + b) == run(run(v, a), b),
    decreases b.len(),
{
    if b.len() == 0 {
        assert(a + b =~= a);
    } else {
        assert((a + b).drop_last() =~= a + b.drop_last());
        lemma_run_concat(v, a, b.drop_last());
    }
}

/// Whether the operation at position `k` of the run is a registration that
/// succeeds at the state it is applied to.
pub open spec fn successful_register_at(v: RegistryView, ops: Seq<Op>, k: int) -> bool {
    0 <= k < ops.len() && match ops[k] {
        Op::Register { name, origin } => !has_name(run(v, ops.take(k)).participants, name),
        _ => false,
    }
}

/// The identity that the operation at position `k` returns when it is a
/// successful registration: one past the counter of the state it sees.
pub open spec fn issued_id(v: RegistryView, ops: Seq<Op>, k: int) -> int {
    run(v, ops.take(k)).next_id + 1
}

/// Monotonic identity law: the identities returned by successful
/// registrations strictly increase in the order the registry applied the
/// operations — in particular they are pairwise distinct and never reused.
pub proof fn lemma_monotonic_identity(v: RegistryView, ops: Seq<Op>, i: int, j: int)
    requires
        successful_register_at(v, ops, i),
        successful_register_at(v, ops, j),
        i < j,
    ensures
        issued_id(v, ops, i) < issued_id(v, ops, j),
{
    let vi = run(v, ops.take(i));
    assert(ops.take(i + 1).drop_last() =~= ops.take(i));
    assert(run(v, ops.take(i + 1)) == step(vi, ops[i]));
    assert(run(v, ops.take(i + 1)).next_id == issued_id(v, ops, i));
    assert(ops.take(i + 1) + ops.take(j).subrange(i + 1, j) =~= ops.take(j));
    lemma_run_concat(v, ops.take(i + 1), ops.take(j).subrange(i + 1, j));
    lemma_run_next_id_monotone(run(v, ops.take(i + 1)), ops.take(j).subrange(i + 1, j));
}

/// Transcript fidelity law, one step: appending a message appends exactly
/// its rendered line to the transcript and touches nothing before it.
pub proof fn lemma_transcript_append(msgs: Seq<MessageView>, m: MessageView)
    ensures
        transcript_of(msgs.push(m)) == transcript_of(msgs) + message_line(m),
{
    assert(msgs.push(m).drop_last() =~= msgs);
}

/// Transcript fidelity law: a successful post appends exactly one rendered
/// line — the submitted name and body, verbatim — to the transcript, in the
/// order the registry serialized the posts.
pub proof fn lemma_post_transcript(v: RegistryView, name: Seq<char>, body: Seq<char>)
    requires
        has_name(v.participants, name),
    ensures
        transcript_of(spec_post(v, name, body).0.messages) == transcript_of(v.messages)
            + message_line(MessageView { author: name, body }),
{
    lemma_transcript_append(v.messages, MessageView { author: name, body });
}

/// The transcript lines contributed by a sequence of operations: one
/// rendered line per post that succeeds at the state it is applied to, in
/// order, and nothing for any other operation.
pub open spec fn posted_lines(v: RegistryView, ops: Seq<Op>) -> Seq<char>
    decreases ops.len(),
{
    if ops.len() == 0 {
        Seq::empty()
    } else {
        posted_lines(v, ops.drop_last()) + (match ops.last() {
            Op::Post { name, body } => {
                if has_name(run(v, ops.drop_last()).participants, name) {
                    message_line(MessageView { author: name, body })
                } else {
                    Seq::empty()
                }
            },
            _ => Seq::empty(),
        })
    }
}

/// Transcript fidelity law, whole runs: after any sequence of operations
/// the transcript is the initial transcript followed by exactly one line
/// per successful post, in the order the registry serialized them, each
/// showing the submitted name and body verbatim. Failed posts and all other
/// operations leave the transcript untouched.
pub proof fn lemma_transcript_fidelity(v: RegistryView, ops: Seq<Op>)
    ensures
        transcript_of(run(v, ops).messages) == transcript_of(v.messages) + posted_lines(v, ops),
    decreases ops.len(),
{
    if ops.len() == 0 {
        assert(transcript_of(v.messages) + posted_lines(v, ops) =~= transcript_of(v.messages));
    } else {
        lemma_transcript_fidelity(v, ops.drop_last());
        let prev = run(v, ops.drop_last());
        let prior = transcript_of(v.messages) + posted_lines(v, ops.drop_last());
        match ops.last() {
            Op::Post { name, body } => {
                if has_name(prev.participants, name) {
                    lemma_post_transcript(prev, name, body);
                    assert(transcript_of(v.messages) + posted_lines(v, ops) =~= prior
                        + message_line(MessageView { author: name, body }));
                } else {
                    assert(transcript_of(v.messages) + posted_lines(v, ops) =~= prior);
                }
            },
            _ => {
                assert(transcript_of(v.messages) + posted_lines(v, ops) =~= prior);
            },
        }
    }
}

/// Diagnostics counter law: a run increases the diagnostics-read counter by
/// exactly the number of diagnostics renders it contains, and by nothing
/// else. Since each render reports the counter before its own bump, the Nth
/// render from a fresh registry reports N−1.
pub proof fn lemma_diagnostics_counter(v: RegistryView, ops: Seq<Op>)
    ensures
        run(v, ops).diagnostics_reads == v.diagnostics_reads + diagnostics_count(ops),
    decreases ops.len(),
{
    if ops.len() > 0 {
        lemma_diagnostics_counter(v, ops.drop_last());
    }
}

} // verus!
