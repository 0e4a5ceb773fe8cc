use gemini_client::client::{GeminiClient, TrustPolicy};
use gemini_client::interface::{Command, Interface, Key};

#[test]
fn typing_and_visiting() {
    let mut ui = Interface::new(GeminiClient::new());
    assert!(!ui.is_editing());
    assert!(matches!(ui.handle_key(Key::Char('x')), Command::Nothing));
    assert_eq!(ui.navbar(), "");
    ui.handle_key(Key::Char('v'));
    assert!(ui.is_editing());
    for c in "ab.orgx".chars() {
        ui.handle_key(Key::Char(c));
    }
    ui.handle_key(Key::Backspace);
    assert_eq!(ui.navbar(), "ab.org");
    match ui.handle_key(Key::Enter) {
        Command::Visit(s) => assert_eq!(s, "ab.org"),
        _ => panic!("expected a visit"),
    }
    assert!(!ui.is_editing());
    assert_eq!(ui.curr_site(), "ab.org");
    ui.show_page("20 ok".to_string());
    assert_eq!(ui.content(), "20 ok");
}

#[test]
fn escape_and_quit() {
    let mut ui = Interface::new(GeminiClient::new());
    ui.handle_key(Key::Char('v'));
    ui.handle_key(Key::Char('q'));
    ui.handle_key(Key::Esc);
    assert!(!ui.is_editing());
    assert_eq!(ui.navbar(), "q");
    assert!(matches!(ui.handle_key(Key::Char('q')), Command::Quit));
}

#[test]
fn backspace_on_empty_bar() {
    let mut ui = Interface::new(GeminiClient::new());
    ui.handle_key(Key::Char('v'));
    ui.handle_key(Key::Backspace);
    assert_eq!(ui.navbar(), "");
    assert!(ui.is_editing());
}

#[test]
fn interface_keeps_its_client() {
    let ui = Interface::new(GeminiClient::with_policy(TrustPolicy::Pinned(vec![7, 8])));
    let policy = ui.client().trust_policy();
    assert!(policy.accepts(&vec![vec![7, 8]]));
    assert!(!policy.accepts(&vec![vec![7, 9]]));
}
