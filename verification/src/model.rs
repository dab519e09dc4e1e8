//! The mathematical model of the registry: ghost views of its state, the
//! well-formedness invariant, and the four operations as functions from view
//! to view. The executable registry's contracts are stated over this model,
//! and the laws about sequences of operations are proved over it.

use vstd::prelude::*;

verus! {

/// The view of one registered participant: an identity, the display name it
/// holds, and the origin address recorded at registration.
#[verifier::ext_equal]
pub ghost struct ParticipantView {
    pub id: int,
    pub name: Seq<char>,
    pub origin: Seq<char>,
}

/// The view of one posted message: the author's display name as copied at
/// post time, and the body text.
#[verifier::ext_equal]
pub ghost struct MessageView {
    pub author: Seq<char>,
    pub body: Seq<char>,
}

/// The view of the whole registry aggregate.
#[verifier::ext_equal]
pub ghost struct RegistryView {
    /// Registered participants, in registration order.
    pub participants: Seq<ParticipantView>,
    /// The monotonic identity counter: the last identity handed out, or 0
    /// before the first registration (the first identity issued is 1).
    pub next_id: int,
    /// Posted messages, in the order the registry accepted them.
    pub messages: Seq<MessageView>,
    /// How many diagnostics renders have completed so far.
    pub diagnostics_reads: int,
}

/// The state of a registry that has just been created: nothing registered,
/// nothing posted, no diagnostics read yet.
pub open spec fn empty_registry() -> RegistryView {
    RegistryView {
        participants: Seq::empty(),
        next_id: 0,
        messages: Seq::empty(),
        diagnostics_reads: 0,
    }
}

/// Whether some participant currently holds `name`.
pub open spec fn has_name(ps: Seq<ParticipantView>, name: Seq<char>) -> bool {
    exists|i: int| 0 <= i < ps.len() && ps[i].name == name
}

/// Whether some participant currently holds the identity `id`.
pub open spec fn has_id(ps: Seq<ParticipantView>, id: int) -> bool {
    exists|i: int| 0 <= i < ps.len() && ps[i].id == id
}

/// The display name of the participant holding identity `id` (well defined
/// whenever identities are distinct and `has_id` holds).
pub open spec fn name_of_id(ps: Seq<ParticipantView>, id: int) -> Seq<char> {
    ps[choose|i: int| 0 <= i < ps.len() && ps[i].id == id].name
}

/// The registry invariant:
/// - identities are at least 1, never exceed the counter, and strictly
///   increase in registration order (so they are pairwise distinct and never
///   reused);
/// - display names are pairwise distinct among current participants;
/// - both counters are non-negative.
pub open spec fn wf(v: RegistryView) -> bool {
    &&& 0 <= v.next_id
    &&& 0 <= v.diagnostics_reads
    &&& forall|i: int|
        0 <= i < v.participants.len() ==> 1 <= (#[trigger] v.participants[i]).id <= v.next_id
    &&& forall|i: int, j: int|
        #![trigger v.participants[i], v.participants[j]]
        0 <= i < j < v.participants.len() ==> v.participants[i].id < v.participants[j].id
    &&& forall|i: int, j: int|
        #![trigger v.participants[i], v.participants[j]]
        0 <= i < j < v.participants.len() ==> v.participants[i].name != v.participants[j].name
}

/// What a registration does: if the name is taken the state is unchanged and
/// the call reports `AlreadyRegistered`; otherwise the counter advances by
/// one, a participant with the fresh identity is appended, and that identity
/// is returned.
pub open spec fn spec_register(v: RegistryView, name: Seq<char>, origin: Seq<char>) -> (
    RegistryView,
    Result<int, crate::ChatError>,
) {
    if has_name(v.participants, name) {
        (v, Err(crate::ChatError::AlreadyRegistered))
    } else {
        let id = v.next_id + 1;
        (
            RegistryView {
                participants: v.participants.push(ParticipantView { id, name, origin }),
                next_id: id,
                ..v
            },
            Ok(id),
        )
    }
}

/// What a post does: if no participant holds the name the state is unchanged
/// and the call reports `NotRegistered`; otherwise a message carrying a copy
/// of the name and the body is appended to the history.
pub open spec fn spec_post(v: RegistryView, name: Seq<char>, body: Seq<char>) -> (
    RegistryView,
    Result<(), crate::ChatError>,
) {
    if has_name(v.participants, name) {
        (
            RegistryView { messages: v.messages.push(MessageView { author: name, body }), ..v },
            Ok(()),
        )
    } else {
        (v, Err(crate::ChatError::NotRegistered))
    }
}

/// What a diagnostics render does to the state: it only bumps the read
/// counter. The text it returns describes the state *before* the bump.
pub open spec fn spec_diagnostics(v: RegistryView) -> RegistryView {
    RegistryView { diagnostics_reads: v.diagnostics_reads + 1, ..v }
}

/// In a well-formed registry identities are pairwise distinct, so looking a
/// participant up by its identity finds exactly that participant's name.
pub proof fn lemma_name_of_id(v: RegistryView, i: int)
    requires
        wf(v),
        0 <= i < v.participants.len(),
    ensures
        has_id(v.participants, v.participants[i].id),
        name_of_id(v.participants, v.participants[i].id) == v.participants[i].name,
{
    let ps = v.participants;
    let id = ps[i].id;
    assert(has_id(ps, id));
    let j = choose|k: int| 0 <= k < ps.len() && ps[k].id == id;
    if i < j {
        assert(ps[i].id < ps[j].id);
    } else if j < i {
        assert(ps[j].id < ps[i].id);
    }
}

/// A registration preserves the invariant: the fresh identity exceeds every
/// identity already present, and the name was checked to be free.
pub proof fn lemma_register_preserves_wf(v: RegistryView, name: Seq<char>, origin: Seq<char>)
    requires
        wf(v),
    ensures
        wf(spec_register(v, name, origin).0),
{
    if !has_name(v.participants, name) {
        let v2 = spec_register(v, name, origin).0;
        assert forall|i: int, j: int|
            #![trigger v2.participants[i], v2.participants[j]]
            0 <= i < j < v2.participants.len() implies v2.participants[i].name
            != v2.participants[j].name by {
            if j == v.participants.len() {
                assert(!(0 <= i < v.participants.len() && v.participants[i].name == name));
            }
        }
    }
}

/// A post preserves the invariant: it touches only the message history.
pub proof fn lemma_post_preserves_wf(v: RegistryView, name: Seq<char>, body: Seq<char>)
    requires
        wf(v),
    ensures
        wf(spec_post(v, name, body).0),
{
}

/// A diagnostics render preserves the invariant: it only bumps a counter.
pub proof fn lemma_diagnostics_preserves_wf(v: RegistryView)
    requires
        wf(v),
    ensures
        wf(spec_diagnostics(v)),
{
}

} // verus!
