use chat_registry::registry::{ChatRegistry, Participant};
use chat_registry::render::u32_to_string;

#[test]
fn decimal_rendering_exact_values() {
    assert_eq!(u32_to_string(0), "0");
    assert_eq!(u32_to_string(7), "7");
    assert_eq!(u32_to_string(10), "10");
    assert_eq!(u32_to_string(105), "105");
    assert_eq!(u32_to_string(4294967295), "4294967295");
}

#[test]
fn connect_user_records_the_entry() {
    let mut r = ChatRegistry::new();
    let id = r.gen_user_id();
    r.connect_user(
        id,
        Participant { id, name: "alice".to_string(), origin: "addr1".to_string() },
    );
    assert!(r.is_user_connected(&"alice".to_string()));
    assert_eq!(r.get_user_id(&"alice".to_string()), Some(1));
}

#[test]
fn empty_history_renders_empty() {
    let r = ChatRegistry::new();
    assert_eq!(r.render_transcript(), "");
}
