use status_bot::{
    get_edited_message, get_message, template_output, Directory, Event, MsgData, PMHandler,
    SendReport, StatusStore, UserInfo,
};

const REPORT: &str = "C_REPORT";
const PRIVATE: &str = "D1";
const PUBLIC: &str = "C_GENERAL";

fn s(text: &str) -> String {
    text.to_string()
}

fn directory() -> Directory {
    Directory {
        public_channels: vec![s(PUBLIC), s("C_RANDOM")],
        users: vec![
            UserInfo { id: s("U1"), real_name: Some(s("Alice")) },
            UserInfo { id: s("U2"), real_name: None },
            UserInfo { id: s("U3"), real_name: Some(s("Carol")) },
        ],
    }
}

fn created(user: &str, text: &str, channel: &str) -> Event {
    Event::Created { user: Some(s(user)), text: Some(s(text)), channel: Some(s(channel)) }
}

fn deleted(user: &str, text: &str, channel: &str) -> Event {
    Event::Deleted { user: Some(s(user)), text: Some(s(text)), channel: Some(s(channel)) }
}

fn edited(user: &str, before: &str, after: &str, channel: &str) -> Event {
    Event::Edited {
        user: Some(s(user)),
        previous_text: Some(s(before)),
        new_text: Some(s(after)),
        channel: Some(s(channel)),
    }
}

fn send_all(bot: &mut PMHandler, dir: &Directory, texts: &[&str]) {
    for t in texts {
        assert!(bot.process_event(dir, created("U1", t, PRIVATE)).is_none());
    }
}

fn log(bot: &PMHandler, user: &str) -> Vec<String> {
    bot.get(&s(user))
}

fn strings(texts: &[&str]) -> Vec<String> {
    texts.iter().map(|t| s(t)).collect()
}

fn report(r: Option<SendReport>) -> (String, String) {
    let r = r.expect("a report");
    (r.destination, r.body)
}

#[test]
fn done_sends_report_to_report_channel_and_clears() {
    let dir = directory();
    let mut bot = PMHandler::new(REPORT);
    send_all(&mut bot, &dir, &["fixed the bug", "wrote tests"]);
    let (dest, body) = report(bot.process_event(&dir, created("U1", "done", PRIVATE)));
    assert_eq!(dest, REPORT);
    assert_eq!(body, "Status for Alice:\n  * fixed the bug\n  * wrote tests\n");
    assert!(log(&bot, "U1").is_empty());
}

#[test]
fn preview_sends_report_to_requester_and_keeps_log() {
    let dir = directory();
    let mut bot = PMHandler::new(REPORT);
    send_all(&mut bot, &dir, &["fixed the bug", "wrote tests"]);
    let (dest, body) = report(bot.process_event(&dir, created("U1", "preview", PRIVATE)));
    assert_eq!(dest, PRIVATE);
    assert_eq!(body, "Status for Alice:\n  * fixed the bug\n  * wrote tests\n");
    assert_eq!(log(&bot, "U1"), strings(&["fixed the bug", "wrote tests"]));
}

#[test]
fn edited_line_is_reported_once() {
    let dir = directory();
    let mut bot = PMHandler::new(REPORT);
    send_all(&mut bot, &dir, &["a"]);
    assert!(bot.process_event(&dir, edited("U1", "a", "b", PRIVATE)).is_none());
    let (_, body) = report(bot.process_event(&dir, created("U1", "done", PRIVATE)));
    assert_eq!(body.matches("  * b\n").count(), 1);
    assert_eq!(body, "Status for Alice:\n  * b\n");
}

#[test]
fn messages_are_appended_in_order() {
    let dir = directory();
    let mut bot = PMHandler::new(REPORT);
    send_all(&mut bot, &dir, &["one", "two", "three", "two"]);
    assert_eq!(log(&bot, "U1"), strings(&["one", "two", "three", "two"]));
}

#[test]
fn preview_never_changes_log() {
    let dir = directory();
    let mut bot = PMHandler::new(REPORT);
    let (_, body) = report(bot.process_event(&dir, created("U1", "preview", PRIVATE)));
    assert_eq!(body, "Status for Alice:\n");
    assert!(log(&bot, "U1").is_empty());
    send_all(&mut bot, &dir, &["x", "y"]);
    let _ = bot.process_event(&dir, created("U1", "preview", PRIVATE));
    let _ = bot.process_event(&dir, created("U1", "preview", PRIVATE));
    assert_eq!(log(&bot, "U1"), strings(&["x", "y"]));
}

#[test]
fn done_on_empty_log_sends_header_only() {
    let dir = directory();
    let mut bot = PMHandler::new(REPORT);
    let (dest, body) = report(bot.process_event(&dir, created("U1", "done", PRIVATE)));
    assert_eq!(dest, REPORT);
    assert_eq!(body, "Status for Alice:\n");
    assert!(log(&bot, "U1").is_empty());
}

#[test]
fn done_clears_only_the_sender() {
    let dir = directory();
    let mut bot = PMHandler::new(REPORT);
    send_all(&mut bot, &dir, &["mine"]);
    assert!(bot.process_event(&dir, created("U3", "hers", "D3")).is_none());
    let (_, body) = report(bot.process_event(&dir, created("U3", "done", "D3")));
    assert_eq!(body, "Status for Carol:\n  * hers\n");
    assert!(log(&bot, "U3").is_empty());
    assert_eq!(log(&bot, "U1"), strings(&["mine"]));
    let _ = bot.process_event(&dir, created("U1", "done", PRIVATE));
    send_all(&mut bot, &dir, &["next day"]);
    assert_eq!(log(&bot, "U1"), strings(&["next day"]));
}

#[test]
fn render_is_deterministic() {
    let first = template_output(s("Bob"), strings(&["a", "b"]));
    let second = template_output(s("Bob"), strings(&["a", "b"]));
    assert_eq!(first, second);
    assert_eq!(first, "Status for Bob:\n  * a\n  * b\n");
}

#[test]
fn render_keeps_every_line() {
    assert_eq!(template_output(s("Bob"), vec![]), "Status for Bob:\n");
    assert_eq!(
        template_output(s("Bob"), strings(&["same", "same", "done"])),
        "Status for Bob:\n  * same\n  * same\n  * done\n"
    );
}

#[test]
fn delete_removes_single_entry() {
    let dir = directory();
    let mut bot = PMHandler::new(REPORT);
    send_all(&mut bot, &dir, &["a", "b", "c"]);
    assert!(bot.process_event(&dir, deleted("U1", "b", PRIVATE)).is_none());
    assert_eq!(log(&bot, "U1"), strings(&["a", "c"]));
}

#[test]
fn delete_removes_first_of_duplicates() {
    let dir = directory();
    let mut bot = PMHandler::new(REPORT);
    send_all(&mut bot, &dir, &["x", "b", "y", "b"]);
    let _ = bot.process_event(&dir, deleted("U1", "b", PRIVATE));
    assert_eq!(log(&bot, "U1"), strings(&["x", "y", "b"]));
}

#[test]
fn delete_of_missing_line_is_noop() {
    let dir = directory();
    let mut bot = PMHandler::new(REPORT);
    let _ = bot.process_event(&dir, deleted("U1", "never sent", PRIVATE));
    assert!(log(&bot, "U1").is_empty());
    send_all(&mut bot, &dir, &["a"]);
    let _ = bot.process_event(&dir, deleted("U1", "never sent", PRIVATE));
    assert_eq!(log(&bot, "U1"), strings(&["a"]));
}

#[test]
fn edit_replaces_in_place() {
    let dir = directory();
    let mut bot = PMHandler::new(REPORT);
    send_all(&mut bot, &dir, &["a", "b", "c"]);
    let _ = bot.process_event(&dir, edited("U1", "b", "x", PRIVATE));
    assert_eq!(log(&bot, "U1"), strings(&["a", "x", "c"]));
}

#[test]
fn edit_replaces_first_of_duplicates() {
    let dir = directory();
    let mut bot = PMHandler::new(REPORT);
    send_all(&mut bot, &dir, &["b", "a", "b"]);
    let _ = bot.process_event(&dir, edited("U1", "b", "x", PRIVATE));
    assert_eq!(log(&bot, "U1"), strings(&["x", "a", "b"]));
}

#[test]
fn edit_of_missing_line_is_noop() {
    let dir = directory();
    let mut bot = PMHandler::new(REPORT);
    let _ = bot.process_event(&dir, edited("U1", "a", "b", PRIVATE));
    assert!(log(&bot, "U1").is_empty());
    send_all(&mut bot, &dir, &["c"]);
    let _ = bot.process_event(&dir, edited("U1", "a", "b", PRIVATE));
    assert_eq!(log(&bot, "U1"), strings(&["c"]));
}

#[test]
fn public_channel_events_change_nothing() {
    let dir = directory();
    let mut bot = PMHandler::new(REPORT);
    send_all(&mut bot, &dir, &["a", "b"]);
    assert!(bot.process_event(&dir, created("U1", "c", PUBLIC)).is_none());
    assert!(bot.process_event(&dir, created("U1", "done", PUBLIC)).is_none());
    assert!(bot.process_event(&dir, created("U1", "preview", "C_RANDOM")).is_none());
    assert!(bot.process_event(&dir, deleted("U1", "a", PUBLIC)).is_none());
    assert!(bot.process_event(&dir, edited("U1", "b", "z", PUBLIC)).is_none());
    assert_eq!(log(&bot, "U1"), strings(&["a", "b"]));
}

#[test]
fn unresolvable_sender_is_ignored() {
    let dir = directory();
    let mut bot = PMHandler::new(REPORT);
    assert!(bot.process_event(&dir, created("U2", "no name", "D2")).is_none());
    assert!(bot.process_event(&dir, created("U9", "unknown", "D9")).is_none());
    assert!(bot.process_event(&dir, created("U2", "done", "D2")).is_none());
    assert!(log(&bot, "U2").is_empty());
    assert!(log(&bot, "U9").is_empty());
}

#[test]
fn keywords_match_whole_text_only() {
    let dir = directory();
    let mut bot = PMHandler::new(REPORT);
    send_all(&mut bot, &dir, &["done with it", "Done", "preview "]);
    assert_eq!(log(&bot, "U1"), strings(&["done with it", "Done", "preview "]));
}

#[test]
fn malformed_events_are_ignored() {
    let dir = directory();
    let mut bot = PMHandler::new(REPORT);
    let no_text = Event::Created { user: Some(s("U1")), text: None, channel: Some(s(PRIVATE)) };
    let no_user = Event::Created { user: None, text: Some(s("a")), channel: Some(s(PRIVATE)) };
    let no_channel = Event::Created { user: Some(s("U1")), text: Some(s("a")), channel: None };
    assert!(bot.process_event(&dir, no_text).is_none());
    assert!(bot.process_event(&dir, no_user).is_none());
    assert!(bot.process_event(&dir, no_channel).is_none());
    assert!(bot.process_event(&dir, created("", "a", PRIVATE)).is_none());
    assert!(bot.process_event(&dir, created("U1", "", PRIVATE)).is_none());
    assert!(bot.process_event(&dir, Event::ConnectionOpened).is_none());
    assert!(bot.process_event(&dir, Event::ConnectionClosed).is_none());
    assert!(log(&bot, "U1").is_empty());
}

#[test]
fn direct_handlers_reconcile_by_text() {
    let dir = directory();
    let mut bot = PMHandler::new(REPORT);
    let msg = MsgData { user: s("U1"), text: s("first") };
    assert!(bot.process_message(&dir, &msg, &s(PRIVATE)).is_none());
    let msg = MsgData { user: s("U1"), text: s("second") };
    assert!(bot.process_message(&dir, &msg, &s(PRIVATE)).is_none());
    let before = MsgData { user: s("U1"), text: s("first") };
    let after = MsgData { user: s("U1"), text: s("1st") };
    bot.process_edited_message(&(before, after));
    assert_eq!(log(&bot, "U1"), strings(&["1st", "second"]));
    bot.process_deleted_message(&MsgData { user: s("U1"), text: s("second") });
    assert_eq!(log(&bot, "U1"), strings(&["1st"]));
    bot.process_deleted_message(&MsgData { user: s("U7"), text: s("1st") });
    assert_eq!(log(&bot, "U1"), strings(&["1st"]));
}

#[test]
fn message_normalisation() {
    let m = get_message(Some(s("U1")), Some(s("hi"))).expect("a message");
    assert_eq!((m.user.as_str(), m.text.as_str()), ("U1", "hi"));
    assert!(get_message(None, Some(s("hi"))).is_none());
    assert!(get_message(Some(s("U1")), None).is_none());
    assert!(get_message(Some(s("")), Some(s("hi"))).is_none());
    let (p, n) = get_edited_message(Some(s("U1")), Some(s("a")), Some(s("b"))).expect("an edit");
    assert_eq!((p.user.as_str(), p.text.as_str()), ("U1", "a"));
    assert_eq!((n.user.as_str(), n.text.as_str()), ("U1", "b"));
    assert!(get_edited_message(Some(s("U1")), None, Some(s("b"))).is_none());
    assert!(get_edited_message(Some(s("U1")), Some(s("a")), None).is_none());
    assert!(get_edited_message(None, Some(s("a")), Some(s("b"))).is_none());
}

#[test]
fn directory_lookups() {
    let dir = directory();
    assert!(dir.is_private_message(&s(PRIVATE)));
    assert!(!dir.is_private_message(&s(PUBLIC)));
    assert_eq!(dir.get_username(&s("U1")), Some(s("Alice")));
    assert_eq!(dir.get_username(&s("U2")), None);
    assert_eq!(dir.get_username(&s("U9")), None);
}

#[test]
fn store_operations() {
    let mut store = StatusStore::new();
    let u = s("U1");
    assert!(store.get(&u).is_empty());
    store.append(&u, s("a"));
    store.append(&u, s("b"));
    assert!(store.replace_at(&u, &s("a"), s("z")));
    assert!(!store.replace_at(&u, &s("q"), s("w")));
    assert_eq!(store.get(&u), strings(&["z", "b"]));
    assert!(store.remove_value(&u, &s("b")));
    assert!(!store.remove_value(&u, &s("b")));
    assert!(!store.remove_value(&s("U2"), &s("z")));
    assert_eq!(store.get(&u), strings(&["z"]));
    store.clear(&u);
    assert!(store.get(&u).is_empty());
}
