use chat_registry::ChatError;
use chat_registry::registry::ChatRegistry;

#[test]
fn fresh_registry_is_empty() {
    let mut r = ChatRegistry::new();
    assert_eq!(r.render_transcript(), "");
    assert!(!r.is_user_connected(&"alice".to_string()));
    assert_eq!(r.get_user_id(&"alice".to_string()), None);
    assert_eq!(
        r.render_diagnostics(),
        "Connected users: <br/>Id counter: 0 <br/>Info counter: 0 <br/>"
    );
}

#[test]
fn first_identity_is_one() {
    let mut r = ChatRegistry::new();
    let id = r.register("alice".to_string(), "addr1".to_string());
    assert_eq!(id, Ok(1));
}

#[test]
fn duplicate_name_is_rejected() {
    let mut r = ChatRegistry::new();
    assert_eq!(r.register("alice".to_string(), "addr1".to_string()), Ok(1));
    assert_eq!(
        r.register("alice".to_string(), "addr2".to_string()),
        Err(ChatError::AlreadyRegistered)
    );
    // The failed attempt changed nothing: the one participant is still there
    // and the counter did not move.
    assert_eq!(r.get_user_id(&"alice".to_string()), Some(1));
    assert_eq!(r.register("bob".to_string(), "addr3".to_string()), Ok(2));
}

#[test]
fn identities_increase_per_success() {
    let mut r = ChatRegistry::new();
    assert_eq!(r.register("a".to_string(), "x".to_string()), Ok(1));
    assert_eq!(r.register("b".to_string(), "x".to_string()), Ok(2));
    assert!(r.register("a".to_string(), "x".to_string()).is_err());
    assert_eq!(r.register("c".to_string(), "x".to_string()), Ok(3));
}

#[test]
fn post_requires_registration() {
    let mut r = ChatRegistry::new();
    assert_eq!(
        r.post_message("eve".to_string(), "hi".to_string()),
        Err(ChatError::NotRegistered)
    );
    r.register("alice".to_string(), "addr1".to_string()).unwrap();
    assert_eq!(r.post_message("alice".to_string(), "hi".to_string()), Ok(()));
    assert_eq!(
        r.post_message("eve".to_string(), "hi".to_string()),
        Err(ChatError::NotRegistered)
    );
    // The rejected posts left no trace in the transcript.
    assert_eq!(r.render_transcript(), "alice: hi<br/>");
}

#[test]
fn transcript_keeps_arrival_order() {
    let mut r = ChatRegistry::new();
    r.register("alice".to_string(), "addr1".to_string()).unwrap();
    r.register("bob".to_string(), "addr2".to_string()).unwrap();
    r.post_message("alice".to_string(), "hello".to_string()).unwrap();
    r.post_message("bob".to_string(), "hi alice".to_string()).unwrap();
    r.post_message("alice".to_string(), "".to_string()).unwrap();
    assert_eq!(
        r.render_transcript(),
        "alice: hello<br/>bob: hi alice<br/>alice: <br/>"
    );
}

#[test]
fn transcript_embeds_content_verbatim() {
    let mut r = ChatRegistry::new();
    r.register("<b>eve</b>".to_string(), "addr".to_string()).unwrap();
    r.post_message("<b>eve</b>".to_string(), "a<br/>b".to_string()).unwrap();
    assert_eq!(r.render_transcript(), "<b>eve</b>: a<br/>b<br/>");
}

#[test]
fn lookup_by_name() {
    let mut r = ChatRegistry::new();
    r.register("alice".to_string(), "addr1".to_string()).unwrap();
    r.register("bob".to_string(), "addr2".to_string()).unwrap();
    assert!(r.is_user_connected(&"alice".to_string()));
    assert!(r.is_user_connected(&"bob".to_string()));
    assert!(!r.is_user_connected(&"eve".to_string()));
    assert_eq!(r.get_user_id(&"alice".to_string()), Some(1));
    assert_eq!(r.get_user_id(&"bob".to_string()), Some(2));
    assert_eq!(r.get_user_id(&"eve".to_string()), None);
}

#[test]
fn diagnostics_lists_participants_and_counters() {
    let mut r = ChatRegistry::new();
    r.register("alice".to_string(), "127.0.0.1:1024".to_string()).unwrap();
    r.register("bob".to_string(), "127.0.0.1:2048".to_string()).unwrap();
    assert_eq!(
        r.render_diagnostics(),
        "Connected users: <br/>\
         1 alice 127.0.0.1:1024<br/>\
         2 bob 127.0.0.1:2048<br/>\
         Id counter: 2 <br/>\
         Info counter: 0 <br/>"
    );
}

#[test]
fn diagnostics_counter_reports_prior_reads() {
    let mut r = ChatRegistry::new();
    let first = r.render_diagnostics();
    let second = r.render_diagnostics();
    let third = r.render_diagnostics();
    assert!(first.ends_with("Info counter: 0 <br/>"));
    assert!(second.ends_with("Info counter: 1 <br/>"));
    assert!(third.ends_with("Info counter: 2 <br/>"));
}

#[test]
fn concrete_scenario() {
    let mut r = ChatRegistry::new();
    assert_eq!(r.register("alice".to_string(), "addr1".to_string()), Ok(1));
    assert_eq!(
        r.register("alice".to_string(), "addr2".to_string()),
        Err(ChatError::AlreadyRegistered)
    );
    assert_eq!(r.register("bob".to_string(), "addr3".to_string()), Ok(2));
    assert_eq!(r.post_message("alice".to_string(), "hi".to_string()), Ok(()));
    assert_eq!(
        r.post_message("eve".to_string(), "hi".to_string()),
        Err(ChatError::NotRegistered)
    );
    assert_eq!(r.render_transcript(), "alice: hi<br/>");
    let diag = r.render_diagnostics();
    assert_eq!(
        diag,
        "Connected users: <br/>\
         1 alice addr1<br/>\
         2 bob addr3<br/>\
         Id counter: 2 <br/>\
         Info counter: 0 <br/>"
    );
    // The read that produced `diag` is counted from the next call on.
    assert!(r.render_diagnostics().ends_with("Info counter: 1 <br/>"));
}

#[test]
fn add_message_copies_the_name() {
    let mut r = ChatRegistry::new();
    r.register("alice".to_string(), "addr1".to_string()).unwrap();
    r.add_message(1, "direct".to_string());
    assert_eq!(r.render_transcript(), "alice: direct<br/>");
}

#[test]
fn gen_user_id_counts_up() {
    let mut r = ChatRegistry::new();
    assert_eq!(r.gen_user_id(), 1);
    assert_eq!(r.gen_user_id(), 2);
    assert_eq!(r.gen_user_id(), 3);
}
