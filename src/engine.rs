use vstd::prelude::*;
use vstd::string::*;

use crate::directory::Directory;
use crate::render::{render, template_output};
use crate::store::{
    after_remove, after_replace, is_first_index, lemma_remove_first_at, lemma_replace_first_at,
    lines_view, log_of, StatusStore,
};

verus! {

/// A message as the engine reads it: who sent it, and its text.
pub struct MsgData {
    pub user: String,
    pub text: String,
}

/// A report to deliver: the conversation it goes to, and its text.
pub struct SendReport {
    pub destination: String,
    pub body: String,
}

/// A chat event, with the fields the engine reads; any of them may be missing.
/// For a deleted message, `user` and `text` are those of the message before it was deleted.
pub enum Event {
    Created { user: Option<String>, text: Option<String>, channel: Option<String> },
    Edited {
        user: Option<String>,
        previous_text: Option<String>,
        new_text: Option<String>,
        channel: Option<String>,
    },
    Deleted { user: Option<String>, text: Option<String>, channel: Option<String> },
    ConnectionOpened,
    ConnectionClosed,
}

/// The store of every user's status lines, as a map from user to lines.
pub type Logs = Map<Seq<char>, Seq<Seq<char>>>;

/// The sender and text of a message, where both are there and neither is empty.
pub open spec fn message_of(user: Option<String>, text: Option<String>) -> Option<
    (Seq<char>, Seq<char>),
> {
    match (user, text) {
        (Some(u), Some(t)) => if u@.len() > 0 && t@.len() > 0 {
            Some((u@, t@))
        } else {
            None
        },
        _ => None,
    }
}

/// The conversation an event came from.
pub open spec fn event_channel(ev: Event) -> Option<Seq<char>> {
    match ev {
        Event::Created { channel, .. } => match channel {
            Some(c) => Some(c@),
            None => None,
        },
        Event::Edited { channel, .. } => match channel {
            Some(c) => Some(c@),
            None => None,
        },
        Event::Deleted { channel, .. } => match channel {
            Some(c) => Some(c@),
            None => None,
        },
        _ => None,
    }
}

/// The event came from a conversation, and that conversation is private.
pub open spec fn from_private(dir: &Directory, ev: Event) -> bool {
    match event_channel(ev) {
        Some(c) => dir.is_private(c),
        None => false,
    }
}

/// The text that closes a user's period: it sends the report and empties the log.
pub open spec fn is_done(text: Seq<char>) -> bool {
    text == "done"@
}

/// The text that asks for the report, sent back to the asker, without touching the log.
pub open spec fn is_preview(text: Seq<char>) -> bool {
    text == "preview"@
}

/// The logs after user `u` has sent `text`.
pub open spec fn after_message(m: Logs, u: Seq<char>, text: Seq<char>) -> Logs {
    if is_done(text) {
        m.insert(u, Seq::empty())
    } else if is_preview(text) {
        m
    } else {
        m.insert(u, log_of(m, u).push(text))
    }
}

/// What user `u`, named `name`, receives for sending `text` from conversation `origin`,
/// with the report channel `report_channel`: a destination and a body.
pub open spec fn reply_to_message(
    m: Logs,
    report_channel: Seq<char>,
    name: Seq<char>,
    u: Seq<char>,
    text: Seq<char>,
    origin: Seq<char>,
) -> Option<(Seq<char>, Seq<char>)> {
    if is_done(text) {
        Some((report_channel, render(name, log_of(m, u))))
    } else if is_preview(text) {
        Some((origin, render(name, log_of(m, u))))
    } else {
        None
    }
}

/// The logs after the event `ev`.
pub open spec fn after_event(m: Logs, dir: &Directory, ev: Event) -> Logs {
    if !from_private(dir, ev) {
        m
    } else {
        match ev {
            Event::Created { user, text, .. } => match message_of(user, text) {
                Some((u, t)) => if dir.name_of(u) is Some {
                    after_message(m, u, t)
                } else {
                    m
                },
                None => m,
            },
            Event::Edited { user, previous_text, new_text, .. } => match (
                message_of(user, previous_text),
                message_of(user, new_text),
            ) {
                (Some((u, p)), Some((_, n))) => after_replace(m, u, p, n),
                _ => m,
            },
            Event::Deleted { user, text, .. } => match message_of(user, text) {
                Some((u, t)) => after_remove(m, u, t),
                None => m,
            },
            _ => m,
        }
    }
}

/// The report that the event `ev` gives, as a destination and a body.
pub open spec fn reply_to_event(
    m: Logs,
    report_channel: Seq<char>,
    dir: &Directory,
    ev: Event,
) -> Option<(Seq<char>, Seq<char>)> {
    match ev {
        Event::Created { user, text, channel } => match (message_of(user, text), channel) {
            (Some((u, t)), Some(c)) => if dir.is_private(c@) {
                match dir.name_of(u) {
                    Some(name) => reply_to_message(m, report_channel, name, u, t, c@),
                    None => None,
                }
            } else {
                None
            },
            _ => None,
        },
        _ => None,
    }
}

/// The destination and body of a report.
pub open spec fn report_view(r: Option<SendReport>) -> Option<(Seq<char>, Seq<char>)> {
    match r {
        Some(a) => Some((a.destination@, a.body@)),
        None => None,
    }
}

/// The sender and text of a message, where both are there and neither is empty.
pub fn get_message(user: Option<String>, text: Option<String>) -> (r: Option<MsgData>)
    ensures
        match r {
            Some(m) => message_of(user, text) == Some((m.user@, m.text@)),
            None => message_of(user, text) is None,
        },
{
    match (user, text) {
        (Some(u), Some(t)) => {
            if !u.as_str().is_empty() && !t.as_str().is_empty() {
                Some(MsgData { user: u, text: t })
            } else {
                None
            }
        },
        _ => None,
    }
}

/// The message before and after an edit, both from `user`, where every part is there
/// and none is empty.
pub fn get_edited_message(
    user: Option<String>,
    previous_text: Option<String>,
    new_text: Option<String>,
) -> (r: Option<(MsgData, MsgData)>)
    ensures
        match r {
            Some((p, n)) => {
                &&& message_of(user, previous_text) == Some((p.user@, p.text@))
                &&& message_of(user, new_text) == Some((n.user@, n.text@))
            },
            None => message_of(user, previous_text) is None || message_of(user, new_text) is None,
        },
{
    let second_user = match &user {
        Some(u) => Some(u.clone()),
        None => None,
    };
    match (get_message(user, previous_text), get_message(second_user, new_text)) {
        (Some(p), Some(n)) => Some((p, n)),
        _ => None,
    }
}

/// The status bot: it keeps each user's status lines, and reports them on request.
pub struct PMHandler {
    status_channel_id: String,
    daily_statuses: StatusStore,
}

impl PMHandler {
    /// The conversation that closing reports go to.
    pub closed spec fn report_channel(&self) -> Seq<char> {
        self.status_channel_id@
    }

    /// The status lines of every user.
    pub closed spec fn logs(&self) -> Logs {
        self.daily_statuses@
    }

    /// The store is well formed.
    pub closed spec fn wf(&self) -> bool {
        self.daily_statuses.wf()
    }

    /// A bot that sends closing reports to `channel_id`, with no status lines yet.
    pub fn new(channel_id: &str) -> (r: PMHandler)
        ensures
            r.wf(),
            r.report_channel() == channel_id@,
            r.logs() == Logs::empty(),
    {
        PMHandler { status_channel_id: String::from_str(channel_id), daily_statuses: StatusStore::new() }
    }

    /// The status lines of `user`, in the order they were sent: empty where it has none.
    pub fn get(&self, user: &String) -> (r: Vec<String>)
        requires
            self.wf(),
        ensures
            lines_view(r@) == log_of(self.logs(), user@),
    {
        self.daily_statuses.get(user)
    }

    /// Handles one event: updates the status lines, and returns the report to send, if any.
    /// Only events from private conversations are handled; the others change nothing.
    pub fn process_event(&mut self, dir: &Directory, event: Event) -> (r: Option<SendReport>)
        requires
            old(self).wf(),
        ensures
            final(self).wf(),
            final(self).report_channel() == old(self).report_channel(),
            final(self).logs() == after_event(old(self).logs(), dir, event),
            report_view(r) == reply_to_event(old(self).logs(), old(self).report_channel(), dir, event),
    {
        match event {
            Event::Created { user, text, channel } => {
                let msg = match get_message(user, text) {
                    Some(m) => m,
                    None => return None,
                };
                let channel_id = match channel {
                    Some(c) => c,
                    None => return None,
                };
                if !dir.is_private_message(&channel_id) {
                    return None;
                }
                self.process_message(dir, &msg, &channel_id)
            },
            Event::Edited { user, previous_text, new_text, channel } => {
                let private = match &channel {
                    Some(c) => dir.is_private_message(c),
                    None => false,
                };
                if private {
                    if let Some(msgs) = get_edited_message(user, previous_text, new_text) {
                        self.process_edited_message(&msgs);
                    }
                }
                None
            },
            Event::Deleted { user, text, channel } => {
                let private = match &channel {
                    Some(c) => dir.is_private_message(c),
                    None => false,
                };
                if private {
                    if let Some(msg) = get_message(user, text) {
                        self.process_deleted_message(&msg);
                    }
                }
                None
            },
            Event::ConnectionOpened => None,
            Event::ConnectionClosed => None,
        }
    }

    /// Handles a message that `msg.user` sent from the private conversation `msg_channel_id`.
    /// `done` renders the user's report for the report channel and empties the log;
    /// `preview` renders it for the sender and changes nothing; any other text is appended.
    /// A sender without a display name is ignored.
    pub fn process_message(&mut self, dir: &Directory, msg: &MsgData, msg_channel_id: &String) -> (r:
        Option<SendReport>)
        requires
            old(self).wf(),
        ensures
            final(self).wf(),
            final(self).report_channel() == old(self).report_channel(),
            match dir.name_of(msg.user@) {
                Some(name) => {
                    &&& final(self).logs() == after_message(old(self).logs(), msg.user@, msg.text@)
                    &&& report_view(r) == reply_to_message(
                        old(self).logs(),
                        old(self).report_channel(),
                        name,
                        msg.user@,
                        msg.text@,
                        msg_channel_id@,
                    )
                },
                None => final(self).logs() == old(self).logs() && r is None,
            },
    {
        let username = match dir.get_username(&msg.user) {
            Some(n) => n,
            None => return None,
        };
        let done = String::from_str("done");
        let preview = String::from_str("preview");
        if msg.text == done {
            let output = template_output(username, self.daily_statuses.get(&msg.user));
            self.daily_statuses.clear(&msg.user);
            Some(SendReport { destination: self.status_channel_id.clone(), body: output })
        } else if msg.text == preview {
            let output = template_output(username, self.daily_statuses.get(&msg.user));
            Some(SendReport { destination: msg_channel_id.clone(), body: output })
        } else {
            self.daily_statuses.append(&msg.user, msg.text.clone());
            None
        }
    }

    /// Removes the first status line of `msg.user` equal to `msg.text`, keeping the order
    /// of the others. Where there is no such line, nothing changes.
    pub fn process_deleted_message(&mut self, msg: &MsgData)
        requires
            old(self).wf(),
        ensures
            final(self).wf(),
            final(self).report_channel() == old(self).report_channel(),
            final(self).logs() == after_remove(old(self).logs(), msg.user@, msg.text@),
    {
        self.daily_statuses.remove_value(&msg.user, &msg.text);
    }

    /// Replaces, in place, the first status line of the sender equal to the text before the
    /// edit by the text after it. Where there is no such line, nothing changes.
    pub fn process_edited_message(&mut self, msgs: &(MsgData, MsgData))
        requires
            old(self).wf(),
        ensures
            final(self).wf(),
            final(self).report_channel() == old(self).report_channel(),
            final(self).logs() == after_replace(old(self).logs(), msgs.0.user@, msgs.0.text@, msgs.1.text@),
    {
        let previous_message = &msgs.0;
        let new_message = &msgs.1;
        self.daily_statuses.replace_at(&previous_message.user, &previous_message.text, new_message.text.clone());
    }
}

/// The event is a message from user `u` whose text is `t`.
pub open spec fn created_by(ev: Event, u: Seq<char>, t: Seq<char>) -> bool {
    match ev {
        Event::Created { user, text, .. } => message_of(user, text) == Some((u, t)),
        _ => false,
    }
}

/// The logs after the events `evs`, handled in order.
pub open spec fn after_events(m: Logs, dir: &Directory, evs: Seq<Event>) -> Logs
    decreases evs.len(),
{
    if evs.len() == 0 {
        m
    } else {
        after_events(after_event(m, dir, evs[0]), dir, evs.drop_first())
    }
}

/// Messages from a user that are not `done` or `preview` are appended to the user's log
/// in the order they arrive.
pub proof fn lemma_messages_appended(
    m: Logs,
    dir: &Directory,
    u: Seq<char>,
    evs: Seq<Event>,
    texts: Seq<Seq<char>>,
)
    requires
        dir.name_of(u) is Some,
        evs.len() == texts.len(),
        forall|i: int|
            0 <= i < evs.len() ==> {
                &&& created_by(#[trigger] evs[i], u, texts[i])
                &&& from_private(dir, evs[i])
                &&& !is_done(texts[i])
                &&& !is_preview(texts[i])
            },
    ensures
        log_of(after_events(m, dir, evs), u) == log_of(m, u) + texts,
    decreases evs.len(),
{
    if evs.len() == 0 {
        assert(log_of(m, u) + texts =~= log_of(m, u));
    } else {
        let next = after_event(m, dir, evs[0]);
        assert(created_by(evs[0], u, texts[0]));
        assert(log_of(next, u) == log_of(m, u).push(texts[0]));
        let rest = evs.drop_first();
        assert forall|i: int| 0 <= i < rest.len() implies {
            &&& created_by(#[trigger] rest[i], u, texts.drop_first()[i])
            &&& from_private(dir, rest[i])
            &&& !is_done(texts.drop_first()[i])
            &&& !is_preview(texts.drop_first()[i])
        } by {
            assert(rest[i] == evs[i + 1]);
            assert(created_by(evs[i + 1], u, texts[i + 1]));
        }
        lemma_messages_appended(next, dir, u, rest, texts.drop_first());
        assert(log_of(m, u).push(texts[0]) + texts.drop_first() =~= log_of(m, u) + texts);
    }
}

/// `preview` leaves every log as it was, whatever the logs held.
pub proof fn lemma_preview_keeps_logs(m: Logs, dir: &Directory, ev: Event, u: Seq<char>)
    requires
        created_by(ev, u, "preview"@),
    ensures
        after_event(m, dir, ev) == m,
        log_of(after_event(m, dir, ev), u) == log_of(m, u),
{
    reveal_strlit("preview");
    reveal_strlit("done");
    assert(!is_done("preview"@));
}

/// A handled `done` leaves its sender with an empty log, whatever the log held.
pub proof fn lemma_done_empties_log(m: Logs, dir: &Directory, ev: Event, u: Seq<char>)
    requires
        created_by(ev, u, "done"@),
        from_private(dir, ev),
        dir.name_of(u) is Some,
    ensures
        log_of(after_event(m, dir, ev), u) == Seq::<Seq<char>>::empty(),
{
}

/// Deleting a line that the log holds once removes that line, keeps the others in order,
/// and leaves the other users' logs as they were.
pub proof fn lemma_delete_single(m: Logs, u: Seq<char>, v: Seq<char>, i: int)
    requires
        0 <= i < log_of(m, u).len(),
        log_of(m, u)[i] == v,
        forall|j: int| 0 <= j < log_of(m, u).len() && j != i ==> log_of(m, u)[j] != v,
    ensures
        log_of(after_remove(m, u, v), u) == log_of(m, u).remove(i),
        forall|w: Seq<char>| w != u ==> log_of(after_remove(m, u, v), w) == log_of(m, w),
{
    lemma_remove_first_at(log_of(m, u), v, i);
}

/// An edit replaces the first line equal to the old text by the new text, at its place.
pub proof fn lemma_edit_in_place(m: Logs, u: Seq<char>, v: Seq<char>, w: Seq<char>, i: int)
    requires
        is_first_index(log_of(m, u), v, i),
    ensures
        log_of(after_replace(m, u, v, w), u) == log_of(m, u).update(i, w),
{
    lemma_replace_first_at(log_of(m, u), v, w, i);
}

/// An event from a conversation that is not private changes no log.
pub proof fn lemma_public_events_ignored(m: Logs, dir: &Directory, ev: Event)
    requires
        event_channel(ev) matches Some(c) && !dir.is_private(c),
    ensures
        after_event(m, dir, ev) == m,
{
}

} // verus!
