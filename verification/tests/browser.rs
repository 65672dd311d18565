use rynx_browser::app::BrowserState;
use rynx_browser::constants::{DEFAULT_TAB_INDEX, INITIAL_TAB_ID, MARGINALIA_SEARCH_URL};
use rynx_browser::event_handler::{
    handle_key_event, handle_network_event, Key, KeyInput, UiAction,
};
use rynx_browser::models::InputMode;
use rynx_browser::network::{
    is_downloadable_file, normalize_target_url, resolve_url, NetworkResponse,
};

fn key(code: Key) -> KeyInput {
    KeyInput { code, ctrl: false }
}

/// The browser starts with one tab on the default page.
#[test]
fn test_app_initialization() {
    let state = BrowserState::new();
    assert_eq!(state.tabs.len(), 1);
    assert_eq!(state.active_tab_index, DEFAULT_TAB_INDEX);
    assert_eq!(state.tabs[0].id, INITIAL_TAB_ID);
    assert_eq!(state.tabs[0].url_input, "https://www.rust-lang.org");
    assert!(!state.tabs[0].rendered_content.is_empty());
}

/// Adding a tab switches to it; closing falls back to the previous one.
#[test]
fn test_tab_management() {
    let mut state = BrowserState::new();
    state.add_tab(Some("https://example.com".to_string()));
    assert_eq!(state.tabs.len(), 2);
    assert_eq!(state.active_tab_index, 1);
    assert_eq!(state.tabs[1].url_input, "https://example.com");
    state.close_tab();
    assert_eq!(state.tabs.len(), 1);
    assert_eq!(state.active_tab_index, 0);
    // the last tab never closes
    state.close_tab();
    assert_eq!(state.tabs.len(), 1);
}

/// Pressing `e` in normal mode enters editing mode.
#[test]
fn test_switch_to_edit_mode() {
    let mut state = BrowserState::new();
    let r = handle_key_event(&mut state, key(Key::Char('e')), 80, 24);
    assert!(matches!(r, UiAction::Stay));
    assert_eq!(state.tabs[0].input_mode, InputMode::Editing);
    let r2 = handle_key_event(&mut state, key(Key::Esc), 80, 24);
    assert!(matches!(r2, UiAction::Stay));
    assert_eq!(state.tabs[0].input_mode, InputMode::Normal);
}

/// Typing a search query instead of a URL submits it to the search
/// engine, form-encoded.
#[test]
fn test_search_url_normalization() {
    let mut state = BrowserState::new();
    state.tabs[0].url_input = "rust programming".to_string();
    let target = state.prepare_submit();
    assert!(target.starts_with(MARGINALIA_SEARCH_URL));
    assert!(target.contains("query=rust+programming"));
    assert_eq!(state.tabs[0].url_input, target);
}

/// A bare host gets a scheme; an i2p host gets the plain one.
#[test]
fn test_host_normalization() {
    assert_eq!(normalize_target_url("example.com"), "https://example.com");
    assert_eq!(normalize_target_url("stats.i2p"), "http://stats.i2p");
    assert_eq!(normalize_target_url("http://already.com"), "http://already.com");
}

/// Relative links resolve against the page URL; absolute ones win; an
/// unusable base falls back to the target.
#[test]
fn test_resolve_url() {
    assert_eq!(
        resolve_url("https://example.com/a/b", "c"),
        "https://example.com/a/c"
    );
    assert_eq!(
        resolve_url("https://example.com/a/b", "../z"),
        "https://example.com/z"
    );
    assert_eq!(
        resolve_url("https://example.com/", "https://other.org/x"),
        "https://other.org/x"
    );
    assert_eq!(resolve_url("New Tab", "some-page"), "some-page");
    assert_eq!(resolve_url("", "anything"), "anything");
}

/// Download detection: binary extensions (query string ignored, case
/// folded) and well-known download paths.
#[test]
fn test_is_downloadable_file() {
    assert!(is_downloadable_file("https://x.com/file.PDF"));
    assert!(is_downloadable_file("https://x.com/archive.tar"));
    assert!(is_downloadable_file("https://x.com/a.zip?session=1"));
    assert!(is_downloadable_file("https://x.com/assets/whatever"));
    assert!(!is_downloadable_file("https://x.com/page.html"));
    assert!(!is_downloadable_file("https://x.com/about"));
}

/// A successful response replaces the addressed tab's content and lays
/// it out; the title and scroll reset follow.
#[test]
fn test_network_success_renders() {
    let mut state = BrowserState::new();
    state.tabs[0].scroll = 7;
    let doc = rynx_browser::dom::DomNode::Element {
        tag: "body".to_string(),
        href: None,
        alt: None,
        hidden: false,
        children: vec![rynx_browser::dom::DomNode::Element {
            tag: "h1".to_string(),
            href: None,
            alt: None,
            hidden: false,
            children: vec![rynx_browser::dom::DomNode::Text("Hello World".to_string())],
        }],
    };
    let response = NetworkResponse::Success(
        0,
        "Test Page".to_string(),
        "<h1>Hello World</h1>".to_string(),
    );
    handle_network_event(&mut state, response, Some(doc), 80);
    let tab = &state.tabs[0];
    assert_eq!(tab.page_title, "Test Page");
    assert_eq!(tab.scroll, 0);
    assert_eq!(tab.status_message, "Loaded");
    let found = tab
        .rendered_content
        .iter()
        .any(|line| line.text_string().contains("Hello World"));
    assert!(found, "Content 'Hello World' not found in rendered output");
}

/// A failed response renders the error page and flags the tab.
#[test]
fn test_network_error() {
    let mut state = BrowserState::new();
    let response = NetworkResponse::Error(0, "connection refused".to_string());
    handle_network_event(&mut state, response, None, 80);
    let tab = &state.tabs[0];
    assert_eq!(tab.page_title, "Error");
    assert_eq!(tab.status_message, "Error");
    let found = tab
        .rendered_content
        .iter()
        .any(|line| line.text_string().contains("connection refused"));
    assert!(found);
}

/// A response addressed to a closed tab id is dropped.
#[test]
fn test_network_unknown_id() {
    let mut state = BrowserState::new();
    let response = NetworkResponse::Loading(42);
    handle_network_event(&mut state, response, None, 80);
    assert_eq!(state.tabs[0].status_message, "Ready");
}

/// Download progress shows a percentage when the size is known.
#[test]
fn test_download_progress_message() {
    let mut state = BrowserState::new();
    handle_network_event(
        &mut state,
        NetworkResponse::DownloadProgress(0, 250, Some(1000)),
        None,
        80,
    );
    assert_eq!(state.tabs[0].status_message, "Downloading: 25%");
    handle_network_event(
        &mut state,
        NetworkResponse::DownloadProgress(0, 4096, None),
        None,
        80,
    );
    assert_eq!(state.tabs[0].status_message, "Downloading: 4096 bytes");
    handle_network_event(
        &mut state,
        NetworkResponse::DownloadFinished(0, "file.zip".to_string()),
        None,
        80,
    );
    assert_eq!(state.tabs[0].status_message, "Download complete: file.zip");
}

/// The search mode flow: `/` opens it, typing finds matches, `<` and
/// `>` step through them cyclically.
#[test]
fn test_search_mode_flow() {
    let mut state = BrowserState::new();
    let doc = rynx_browser::dom::DomNode::Element {
        tag: "p".to_string(),
        href: None,
        alt: None,
        hidden: false,
        children: vec![rynx_browser::dom::DomNode::Text("abc abc abc".to_string())],
    };
    handle_network_event(
        &mut state,
        NetworkResponse::Success(0, "T".to_string(), "x".to_string()),
        Some(doc),
        80,
    );
    handle_key_event(&mut state, key(Key::Char('/')), 80, 24);
    assert_eq!(state.tabs[0].input_mode, InputMode::Search);
    handle_key_event(&mut state, key(Key::Char('a')), 80, 24);
    handle_key_event(&mut state, key(Key::Char('b')), 80, 24);
    let st = state.tabs[0].search_state.as_ref().unwrap();
    assert_eq!(st.query, "ab");
    assert_eq!(st.matches.len(), 3);
    handle_key_event(&mut state, key(Key::Enter), 80, 24);
    assert_eq!(state.tabs[0].input_mode, InputMode::Normal);
    handle_key_event(&mut state, key(Key::Char('>')), 80, 24);
    let st = state.tabs[0].search_state.as_ref().unwrap();
    assert_eq!(st.current_match_index, 1);
    handle_key_event(&mut state, key(Key::Char('<')), 80, 24);
    handle_key_event(&mut state, key(Key::Char('<')), 80, 24);
    let st = state.tabs[0].search_state.as_ref().unwrap();
    assert_eq!(st.current_match_index, 2);
}

/// The visual mode flow over a rendered page: enter, extend, yank.
#[test]
fn test_visual_mode_yank() {
    let mut state = BrowserState::new();
    let doc = rynx_browser::dom::DomNode::Element {
        tag: "p".to_string(),
        href: None,
        alt: None,
        hidden: false,
        children: vec![rynx_browser::dom::DomNode::Text("hello world".to_string())],
    };
    handle_network_event(
        &mut state,
        NetworkResponse::Success(0, "T".to_string(), "x".to_string()),
        Some(doc),
        80,
    );
    handle_key_event(&mut state, key(Key::Char('v')), 80, 24);
    assert_eq!(state.tabs[0].input_mode, InputMode::Visual);
    for _ in 0..5 {
        handle_key_event(&mut state, key(Key::Char('l')), 80, 24);
    }
    let r = handle_key_event(&mut state, key(Key::Char('y')), 80, 24);
    match r {
        UiAction::CopyToClipboard(text) => assert_eq!(text, "hello"),
        other => panic!("expected a clipboard action, got {:?}", action_name(&other)),
    }
    assert_eq!(state.tabs[0].input_mode, InputMode::Normal);
}

fn action_name(a: &UiAction) -> &'static str {
    match a {
        UiAction::Stay => "Stay",
        UiAction::Quit => "Quit",
        UiAction::Submit => "Submit",
        UiAction::StartDownload(_) => "StartDownload",
        UiAction::CopyToClipboard(_) => "CopyToClipboard",
        UiAction::RequestPaste => "RequestPaste",
    }
}

/// Editing mode types into the address bar and Enter submits with the
/// history saved.
#[test]
fn test_editing_flow() {
    let mut state = BrowserState::new();
    handle_key_event(&mut state, key(Key::Char('e')), 80, 24);
    handle_key_event(&mut state, KeyInput { code: Key::Char('u'), ctrl: true }, 80, 24);
    assert_eq!(state.tabs[0].url_input, "");
    for c in "example.com".chars() {
        handle_key_event(&mut state, key(Key::Char(c)), 80, 24);
    }
    handle_key_event(&mut state, key(Key::Backspace), 80, 24);
    assert_eq!(state.tabs[0].url_input, "example.co");
    let r = handle_key_event(&mut state, key(Key::Enter), 80, 24);
    assert!(matches!(r, UiAction::Submit));
    assert_eq!(state.tabs[0].input_mode, InputMode::Normal);
}

/// `q` quits only from normal mode.
#[test]
fn test_quit_key() {
    let mut state = BrowserState::new();
    let r = handle_key_event(&mut state, key(Key::Char('q')), 80, 24);
    assert!(matches!(r, UiAction::Quit));
    handle_key_event(&mut state, key(Key::Char('e')), 80, 24);
    let r2 = handle_key_event(&mut state, key(Key::Char('q')), 80, 24);
    assert!(!matches!(r2, UiAction::Quit));
}
