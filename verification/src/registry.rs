//! The executable chat registry: the single shared aggregate that tracks
//! participants, assigns identities, accumulates messages, and renders the
//! two read views. Every method's contract is stated over the ghost model in
//! `model` and the text specs in `render`.

use vstd::prelude::*;

use crate::ChatError;
use crate::model::{
    MessageView, ParticipantView, RegistryView, empty_registry, has_id, has_name,
    lemma_register_preserves_wf, name_of_id, spec_diagnostics, spec_post, spec_register, wf,
};
use crate::render::{diagnostics_text, participant_lines, transcript_of, u32_to_string};

verus! {

/// A registered participant: identity, display name, and the origin address
/// recorded when the registration was accepted.
pub struct Participant {
    pub id: u32,
    pub name: String,
    pub origin: String,
}

impl View for Participant {
    type V = ParticipantView;

    open spec fn view(&self) -> ParticipantView {
        ParticipantView { id: self.id as int, name: self.name@, origin: self.origin@ }
    }
}

/// One posted message: the author's display name (a copy taken at post
/// time) and the body text.
pub struct ChatMessage {
    pub name: String,
    pub mes: String,
}

impl View for ChatMessage {
    type V = MessageView;

    open spec fn view(&self) -> MessageView {
        MessageView { author: self.name@, body: self.mes@ }
    }
}

/// The registry aggregate. All four operations mutate or read it as one
/// unit; a caller that shares it across threads must wrap the whole value in
/// one exclusion primitive, never the fields separately.
pub struct ChatRegistry {
    connected_users: Vec<Participant>,
    id_cnt: u32,
    messages: Vec<ChatMessage>,
    info_cnt: u32,
}

impl View for ChatRegistry {
    type V = RegistryView;

    closed spec fn view(&self) -> RegistryView {
        RegistryView {
            participants: self.connected_users@.map_values(|p: Participant| p@),
            next_id: self.id_cnt as int,
            messages: self.messages@.map_values(|m: ChatMessage| m@),
            diagnostics_reads: self.info_cnt as int,
        }
    }
}

impl ChatRegistry {
    /// The registry invariant, stated over the view.
    pub open spec fn well_formed(&self) -> bool {
        wf(self@)
    }

    /// Creates an empty registry: no participants, no messages, both
    /// counters at zero. The first identity it will issue is 1.
    pub fn new() -> (r: ChatRegistry)
        ensures
            r@ == empty_registry(),
            r.well_formed(),
    {
        let r = ChatRegistry {
            connected_users: Vec::new(),
            id_cnt: 0,
            messages: Vec::new(),
            info_cnt: 0,
        };
        proof {
            assert(r@ =~= empty_registry());
        }
        r
    }

    /// The current value of the identity counter: the last identity handed
    /// out, or 0 before the first registration.
    pub fn id_count(&self) -> (r: u32)
        ensures
            r as int == self@.next_id,
    {
        self.id_cnt
    }

    /// How many diagnostics renders have completed so far.
    pub fn info_count(&self) -> (r: u32)
        ensures
            r as int == self@.diagnostics_reads,
    {
        self.info_cnt
    }

    /// Whether a participant with this display name is currently registered.
    pub fn is_user_connected(&self, name: &String) -> (r: bool)
        ensures
            r == has_name(self@.participants, name@),
    {
        let mut i: usize = 0;
        while i < self.connected_users.len()
            invariant
                i <= self.connected_users.len(),
                forall|j: int| 0 <= j < i ==> (#[trigger] self@.participants[j]).name != name@,
            decreases self.connected_users.len() - i,
        {
            if self.connected_users[i].name == *name {
                proof {
                    assert(self@.participants[i as int].name == name@);
                }
                return true;
            }
            i += 1;
        }
        false
    }

    /// The identity of the participant holding this display name, if any.
    /// Returns `Some` exactly when such a participant is registered.
    pub fn get_user_id(&self, user: &String) -> (r: Option<u32>)
        ensures
            match r {
                Some(id) => exists|i: int|
                    0 <= i < self@.participants.len() && (#[trigger] self@.participants[i]).id
                        == id as int && self@.participants[i].name == user@,
                None => !has_name(self@.participants, user@),
            },
            (r is Some) <==> has_name(self@.participants, user@),
    {
        let mut i: usize = 0;
        while i < self.connected_users.len()
            invariant
                i <= self.connected_users.len(),
                forall|j: int| 0 <= j < i ==> (#[trigger] self@.participants[j]).name != user@,
            decreases self.connected_users.len() - i,
        {
            if self.connected_users[i].name == *user {
                proof {
                    assert(self@.participants[i as int].name == user@);
                }
                return Some(self.connected_users[i].id);
            }
            i += 1;
        }
        None
    }

    /// Advances the identity counter and hands out its new value. Identities
    /// therefore start at 1 and strictly increase; none is ever reused.
    pub fn gen_user_id(&mut self) -> (id: u32)
        requires
            old(self)@.next_id < u32::MAX as int,
        ensures
            id as int == old(self)@.next_id + 1,
            final(self)@ == (RegistryView { next_id: id as int, ..old(self)@ }),
    {
        self.id_cnt = self.id_cnt + 1;
        proof {
            assert(self@ =~= (RegistryView { next_id: self.id_cnt as int, ..old(self)@ }));
        }
        self.id_cnt
    }

    /// Appends a participant record under the given identity. The caller is
    /// responsible for the identity being fresh and the name unused; this
    /// method only records the entry.
    pub fn connect_user(&mut self, id: u32, user: Participant)
        requires
            user@.id == id as int,
        ensures
            final(self)@ == (RegistryView {
                participants: old(self)@.participants.push(user@),
                ..old(self)@
            }),
    {
        self.connected_users.push(user);
        proof {
            assert(self@ =~= (RegistryView {
                participants: old(self)@.participants.push(
                    self.connected_users@[self.connected_users@.len() - 1]@,
                ),
                ..old(self)@
            }));
        }
    }

    /// Registers a display name. If the name is currently taken, fails with
    /// `AlreadyRegistered` and changes nothing; otherwise records a new
    /// participant under the next identity and returns that identity.
    pub fn register(&mut self, name: String, origin: String) -> (r: Result<u32, ChatError>)
        requires
            old(self).well_formed(),
            old(self)@.next_id < u32::MAX as int,
        ensures
            final(self).well_formed(),
            final(self)@ == spec_register(old(self)@, name@, origin@).0,
            (r is Ok) <==> !has_name(old(self)@.participants, name@),
            r matches Ok(id) ==> id as int == old(self)@.next_id + 1,
            r matches Err(e) ==> e == ChatError::AlreadyRegistered && final(self)@ == old(self)@,
    {
        if self.is_user_connected(&name) {
            return Err(ChatError::AlreadyRegistered);
        }
        let id = self.gen_user_id();
        let user = Participant { id, name, origin };
        self.connect_user(id, user);
        proof {
            lemma_register_preserves_wf(old(self)@, user@.name, user@.origin);
            assert(self@ =~= spec_register(old(self)@, user@.name, user@.origin).0);
        }
        Ok(id)
    }

    /// The display name recorded under an identity, if any. Returns `Some`
    /// exactly when some participant holds the identity.
    fn name_for_id(&self, id: u32) -> (r: Option<String>)
        ensures
            match r {
                Some(s) => exists|i: int|
                    0 <= i < self@.participants.len() && (#[trigger] self@.participants[i]).id
                        == id as int && self@.participants[i].name == s@,
                None => !has_id(self@.participants, id as int),
            },
            (r is Some) <==> has_id(self@.participants, id as int),
    {
        let mut i: usize = 0;
        while i < self.connected_users.len()
            invariant
                i <= self.connected_users.len(),
                forall|j: int| 0 <= j < i ==> (#[trigger] self@.participants[j]).id != id as int,
            decreases self.connected_users.len() - i,
        {
            if self.connected_users[i].id == id {
                proof {
                    assert(self@.participants[i as int].id == id as int);
                }
                return Some(self.connected_users[i].name.clone());
            }
            i += 1;
        }
        None
    }

    /// Appends a message under the identity's recorded display name (the
    /// name is copied into the message, not referenced).
    pub fn add_message(&mut self, id: u32, mes: String)
        requires
            old(self).well_formed(),
            has_id(old(self)@.participants, id as int),
        ensures
            final(self).well_formed(),
            final(self)@ == (RegistryView {
                messages: old(self)@.messages.push(
                    MessageView {
                        author: name_of_id(old(self)@.participants, id as int),
                        body: mes@,
                    },
                ),
                ..old(self)@
            }),
    {
        match self.name_for_id(id) {
            Some(author) => {
                proof {
                    let ps = self@.participants;
                    let i = choose|i: int|
                        0 <= i < ps.len() && (#[trigger] ps[i]).id == id as int && ps[i].name
                            == author@;
                    crate::model::lemma_name_of_id(self@, i);
                }
                self.messages.push(ChatMessage { name: author, mes });
                proof {
                    assert(self@ =~= (RegistryView {
                        messages: old(self)@.messages.push(
                            self.messages@[self.messages@.len() - 1]@,
                        ),
                        ..old(self)@
                    }));
                }
            },
            None => {
                proof {
                    assert(false);
                }
            },
        }
    }

    /// Posts a message under a display name. If no participant holds the
    /// name, fails with `NotRegistered` and changes nothing; otherwise
    /// appends the message, with the name copied as its author, to the end
    /// of the history.
    pub fn post_message(&mut self, name: String, body: String) -> (r: Result<(), ChatError>)
        requires
            old(self).well_formed(),
        ensures
            final(self).well_formed(),
            final(self)@ == spec_post(old(self)@, name@, body@).0,
            r == spec_post(old(self)@, name@, body@).1,
            (r is Ok) <==> has_name(old(self)@.participants, name@),
            r matches Err(e) ==> e == ChatError::NotRegistered && final(self)@ == old(self)@,
    {
        if !self.is_user_connected(&name) {
            return Err(ChatError::NotRegistered);
        }
        match self.get_user_id(&name) {
            Some(id) => {
                proof {
                    let ps = self@.participants;
                    let i = choose|i: int|
                        0 <= i < ps.len() && (#[trigger] ps[i]).id == id as int && ps[i].name
                            == name@;
                    crate::model::lemma_name_of_id(self@, i);
                }
                self.add_message(id, body);
                proof {
                    assert(self@ =~= spec_post(old(self)@, name@, body@).0);
                }
            },
            None => {
                proof {
                    assert(false);
                }
            },
        }
        Ok(())
    }

    /// Renders the transcript: one line per message, in arrival order, each
    /// "author: body" closed by the "<br/>" marker, with author and body
    /// embedded verbatim (no escaping — content is reproduced exactly as
    /// submitted). An empty history renders as the empty string.
    pub fn render_transcript(&self) -> (r: String)
        ensures
            r@ == transcript_of(self@.messages),
    {
        let mut html = String::new();
        let mut i: usize = 0;
        while i < self.messages.len()
            invariant
                i <= self.messages.len(),
                html@ == transcript_of(self@.messages.take(i as int)),
            decreases self.messages.len() - i,
        {
            html.append(self.messages[i].name.as_str());
            html.append(": ");
            html.append(self.messages[i].mes.as_str());
            html.append("<br/>");
            proof {
                assert(self@.messages.take(i + 1).drop_last() =~= self@.messages.take(i as int));
                assert(html@ =~= transcript_of(self@.messages.take(i + 1)));
            }
            i += 1;
        }
        proof {
            assert(self@.messages.take(self@.messages.len() as int) =~= self@.messages);
        }
        html
    }

    /// Renders the diagnostics snapshot: the header, one line per
    /// participant (identity, name, origin), the identity counter, and the
    /// number of diagnostics reads completed before this call. As its last
    /// step it bumps the read counter, so the value shown does not count
    /// this very call.
    pub fn render_diagnostics(&mut self) -> (r: String)
        requires
            old(self).well_formed(),
            old(self)@.diagnostics_reads < u32::MAX as int,
        ensures
            final(self).well_formed(),
            final(self)@ == spec_diagnostics(old(self)@),
            r@ == diagnostics_text(old(self)@),
    {
        let mut info = String::new();
        info.append("Connected users: <br/>");
        let mut i: usize = 0;
        while i < self.connected_users.len()
            invariant
                i <= self.connected_users.len(),
                info@ == "Connected users: <br/>"@ + participant_lines(
                    self@.participants.take(i as int),
                ),
            decreases self.connected_users.len() - i,
        {
            let id_text = u32_to_string(self.connected_users[i].id);
            info.append(id_text.as_str());
            info.append(" ");
            info.append(self.connected_users[i].name.as_str());
            info.append(" ");
            info.append(self.connected_users[i].origin.as_str());
            info.append("<br/>");
            proof {
                assert(self@.participants.take(i + 1).drop_last() =~= self@.participants.take(
                    i as int,
                ));
                assert(info@ =~= "Connected users: <br/>"@ + participant_lines(
                    self@.participants.take(i + 1),
                ));
            }
            i += 1;
        }
        proof {
            assert(self@.participants.take(self@.participants.len() as int)
                =~= self@.participants);
        }
        let id_cnt_text = u32_to_string(self.id_cnt);
        info.append("Id counter: ");
        info.append(id_cnt_text.as_str());
        info.append(" <br/>");
        let info_cnt_text = u32_to_string(self.info_cnt);
        info.append("Info counter: ");
        info.append(info_cnt_text.as_str());
        info.append(" <br/>");
        self.info_cnt = self.info_cnt + 1;
        proof {
            assert(self@ =~= spec_diagnostics(old(self)@));
            assert(info@ =~= diagnostics_text(old(self)@));
        }
        info
    }
}

} // verus!
