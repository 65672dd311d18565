use vstd::prelude::*;
use crate::app::{plain_line, sat_dec, spec_source_lines, tab_lines, tab_links, BrowserState, BrowserTab};
use crate::line::{spans_text, SpanM};
use crate::links::spec_autoscroll;
use crate::models::{InputMode, Selection};
use crate::renderer::spec_layout;
use crate::search::spec_search;
use crate::selection::{buffer_texts, spec_extract};
use crate::text::{string_from, width_sat};

verus! {

/// A key press, already freed of the terminal library's event type.
#[derive(Clone, Copy, PartialEq, Eq, Structural, Debug)]
pub enum Key {
    Char(char),
    Enter,
    Esc,
    Backspace,
    Left,
    Down,
    Up,
    Tab,
    BackTab,
}

/// A key with its control modifier.
#[derive(Clone, Copy, PartialEq, Eq, Structural, Debug)]
pub struct KeyInput {
    pub code: Key,
    pub ctrl: bool,
}

/// A mouse event, already freed of the terminal library's event type.
#[derive(Clone, Copy, PartialEq, Eq, Structural, Debug)]
pub enum MouseKind {
    ScrollUp,
    ScrollDown,
    LeftDown,
}

#[derive(Clone, Copy, PartialEq, Eq, Structural, Debug)]
pub struct MouseInput {
    pub kind: MouseKind,
    pub column: u16,
    pub row: u16,
    pub ctrl: bool,
}

/// What the surrounding application must do after a dispatch: the
/// outside work the core cannot perform itself.
pub enum UiAction {
    Stay,
    Quit,
    Submit,
    StartDownload(String),
    CopyToClipboard(String),
    RequestPaste,
}

/// The tab the browser is showing.
pub open spec fn cur_tab(s: BrowserState) -> BrowserTab {
    s.tabs@[s.active_tab_index as int]
}

/// The new state replaces the active tab and changes nothing else.
pub open spec fn with_cur_tab(s0: BrowserState, s1: BrowserState, t: BrowserTab) -> bool {
    &&& s1.tabs@ == s0.tabs@.update(s0.active_tab_index as int, t)
    &&& s1.active_tab_index == s0.active_tab_index
    &&& s1.id_counter == s0.id_counter
    &&& s1.i2p_mode == s0.i2p_mode
}

/// The display width of line `i` of a tab's buffer, zero past its end:
/// a stale cursor is clamped, never dereferenced.
pub open spec fn line_w(t: BrowserTab, i: int) -> nat {
    if 0 <= i < tab_lines(t).len() {
        width_sat(spans_text(tab_lines(t)[i]))
    } else {
        0
    }
}

/// The viewport height left for page content under the tab bar, the URL
/// bar and the borders.
pub open spec fn spec_viewport_height(terminal_height: u16) -> nat {
    if terminal_height >= crate::constants::UI_HEIGHT_OFFSET {
        (terminal_height - crate::constants::UI_HEIGHT_OFFSET) as nat
    } else {
        0
    }
}

/// The content width a terminal width leaves a tab.
pub open spec fn spec_content_width(width: u16) -> nat {
    if width >= 2 {
        (width - 2) as nat
    } else {
        0
    }
}

/// Width of a buffer line, clamped as `line_w`.
fn line_width_at(tab: &BrowserTab, i: usize) -> (w: usize)
    ensures
        w == line_w(*tab, i as int),
{
    if i < tab.rendered_content.len() {
        let l = &tab.rendered_content[i];
        l.width()
    } else {
        0
    }
}

/// What one editing-mode key does: the relation between the tab before
/// and after, and the action handed back.
pub open spec fn editing_step(t0: BrowserTab, t1: BrowserTab, key: KeyInput, r: UiAction) -> bool {
    match key.code {
        Key::Enter => t1.history@ == (if t0.url_input@.len() > 0 {
            t0.history@.push(t0.url_input)
        } else {
            t0.history@
        }) && t1 == (BrowserTab {
            history: t1.history,
            input_mode: InputMode::Normal,
            ..t0
        }) && r is Submit,
        Key::Char(c) => {
            if key.ctrl && c == 'y' {
                t1 == t0 && r is CopyToClipboard && r->CopyToClipboard_0@
                    == t0.url_input@
            } else if key.ctrl && c == 'u' {
                t1.url_input@ =~= Seq::<char>::empty() && t1 == (BrowserTab {
                    url_input: t1.url_input,
                    ..t0
                }) && r is Stay
            } else if key.ctrl && c == 'v' {
                t1 == t0 && r is RequestPaste
            } else if key.ctrl && c == 'k' {
                t1.url_input@ =~= Seq::<char>::empty() && t1 == (BrowserTab {
                    url_input: t1.url_input,
                    ..t0
                }) && r is RequestPaste
            } else {
                t1.url_input@ == t0.url_input@.push(c) && t1 == (BrowserTab {
                    url_input: t1.url_input,
                    ..t0
                }) && r is Stay
            }
        },
        Key::Backspace => t1.url_input@ == (if t0.url_input@.len() > 0 {
            t0.url_input@.drop_last()
        } else {
            t0.url_input@
        }) && t1 == (BrowserTab { url_input: t1.url_input, ..t0 }) && r is Stay,
        Key::Esc => t1.status_message@ == "Ready"@ && t1 == (BrowserTab {
            input_mode: InputMode::Normal,
            status_message: t1.status_message,
            ..t0
        }) && r is Stay,
        _ => t1 == t0 && r is Stay,
    }
}

/// Handles one key in editing mode: typing edits the address bar, Enter
/// saves history and submits, and the clipboard shortcuts ask the
/// application for the outside work.
pub fn handle_editing_mode(tab: &mut BrowserTab, key: KeyInput) -> (r: UiAction)
    ensures
        editing_step(*old(tab), *final(tab), key, r),
{
    match key.code {
        Key::Enter => {
            if !tab.url_input.as_str().is_empty() {
                let saved = tab.url_input.clone();
                tab.history.push(saved);
            }
            tab.input_mode = InputMode::Normal;
            UiAction::Submit
        },
        Key::Char(c) => {
            if key.ctrl && c == 'y' {
                UiAction::CopyToClipboard(tab.url_input.clone())
            } else if key.ctrl && c == 'u' {
                tab.url_input = String::new();
                UiAction::Stay
            } else if key.ctrl && c == 'v' {
                UiAction::RequestPaste
            } else if key.ctrl && c == 'k' {
                tab.url_input = String::new();
                UiAction::RequestPaste
            } else {
                tab.url_input.push(c);
                UiAction::Stay
            }
        },
        Key::Backspace => {
            crate::text::string_pop(&mut tab.url_input);
            UiAction::Stay
        },
        Key::Esc => {
            tab.input_mode = InputMode::Normal;
            tab.status_message = string_from("Ready");
            UiAction::Stay
        },
        _ => UiAction::Stay,
    }
}

/// What one visual-mode key does.
pub open spec fn visual_step(t0: BrowserTab, t1: BrowserTab, key: KeyInput, r: UiAction) -> bool {
    match key.code {
        Key::Char(c) => {
            if c == 'h' {
                let cc = sat_dec(t0.cursor_char);
                t1 == (BrowserTab {
                    cursor_char: cc,
                    selection: (match t0.selection {
                        Some(sel) => Some(Selection { end_char: cc, ..sel }),
                        None => None,
                    }),
                    ..t0
                }) && r is Stay
            } else if c == 'l' {
                let w = line_w(t0, t0.cursor_line as int);
                let cc: usize = if t0.cursor_char + 1 <= w {
                    (t0.cursor_char + 1) as usize
                } else {
                    w as usize
                };
                t1 == (BrowserTab {
                    cursor_char: cc,
                    selection: (match t0.selection {
                        Some(sel) => Some(Selection { end_char: cc, ..sel }),
                        None => None,
                    }),
                    ..t0
                }) && r is Stay
            } else if c == 'k' {
                let cl = sat_dec(t0.cursor_line);
                let w = line_w(t0, cl as int);
                let cc: usize = if t0.cursor_char <= w {
                    t0.cursor_char
                } else {
                    w as usize
                };
                t1 == (BrowserTab {
                    cursor_line: cl,
                    cursor_char: cc,
                    selection: (match t0.selection {
                        Some(sel) => Some(
                            Selection { end_line: cl, end_char: cc, ..sel },
                        ),
                        None => None,
                    }),
                    ..t0
                }) && r is Stay
            } else if c == 'j' {
                let last: usize = sat_dec(tab_lines(t0).len() as usize);
                let cl: usize = if t0.cursor_line + 1 <= last {
                    (t0.cursor_line + 1) as usize
                } else {
                    last
                };
                let w = line_w(t0, cl as int);
                let cc: usize = if t0.cursor_char <= w {
                    t0.cursor_char
                } else {
                    w as usize
                };
                t1 == (BrowserTab {
                    cursor_line: cl,
                    cursor_char: cc,
                    selection: (match t0.selection {
                        Some(sel) => Some(
                            Selection { end_line: cl, end_char: cc, ..sel },
                        ),
                        None => None,
                    }),
                    ..t0
                }) && r is Stay
            } else if c == 'y' {
                let text = (match t0.selection {
                    Some(sel) => spec_extract(buffer_texts(t0.rendered_content@), sel),
                    None => Seq::<char>::empty(),
                });
                if text.len() > 0 {
                    &&& r is CopyToClipboard
                    &&& r->CopyToClipboard_0@ == text
                    &&& t1.status_message@ == "Text yanked to clipboard!"@
                    &&& t1 == (BrowserTab {
                        input_mode: InputMode::Normal,
                        selection: None,
                        status_message: t1.status_message,
                        ..t0
                    })
                } else {
                    t1 == (BrowserTab {
                        input_mode: InputMode::Normal,
                        selection: None,
                        ..t0
                    }) && r is Stay
                }
            } else {
                t1 == t0 && r is Stay
            }
        },
        Key::Esc => t1.status_message@ == "Ready"@ && t1 == (BrowserTab {
            input_mode: InputMode::Normal,
            selection: None,
            status_message: t1.status_message,
            ..t0
        }) && r is Stay,
        _ => t1 == t0 && r is Stay,
    }
}

/// Handles one key in visual mode: cursor movement drags the live end of
/// the selection; `y` yanks the covered text and leaves the mode.
pub fn handle_visual_mode(tab: &mut BrowserTab, key: KeyInput) -> (r: UiAction)
    ensures
        visual_step(*old(tab), *final(tab), key, r),
{
    match key.code {
        Key::Char(c) => {
            if c == 'h' {
                let cc = tab.cursor_char.saturating_sub(1);
                tab.cursor_char = cc;
                match &mut tab.selection {
                    Some(sel) => {
                        sel.end_char = cc;
                    },
                    None => {},
                }
                UiAction::Stay
            } else if c == 'l' {
                let w = line_width_at(tab, tab.cursor_line);
                let cc = if tab.cursor_char < w {
                    tab.cursor_char + 1
                } else {
                    w
                };
                tab.cursor_char = cc;
                match &mut tab.selection {
                    Some(sel) => {
                        sel.end_char = cc;
                    },
                    None => {},
                }
                UiAction::Stay
            } else if c == 'k' {
                let cl = tab.cursor_line.saturating_sub(1);
                tab.cursor_line = cl;
                let w = line_width_at(tab, cl);
                let cc = if tab.cursor_char <= w {
                    tab.cursor_char
                } else {
                    w
                };
                tab.cursor_char = cc;
                match &mut tab.selection {
                    Some(sel) => {
                        sel.end_line = cl;
                        sel.end_char = cc;
                    },
                    None => {},
                }
                UiAction::Stay
            } else if c == 'j' {
                let last = tab.rendered_content.len().saturating_sub(1);
                let cl = if tab.cursor_line < last {
                    tab.cursor_line + 1
                } else {
                    last
                };
                tab.cursor_line = cl;
                let w = line_width_at(tab, cl);
                let cc = if tab.cursor_char <= w {
                    tab.cursor_char
                } else {
                    w
                };
                tab.cursor_char = cc;
                match &mut tab.selection {
                    Some(sel) => {
                        sel.end_line = cl;
                        sel.end_char = cc;
                    },
                    None => {},
                }
                UiAction::Stay
            } else if c == 'y' {
                let text = tab.extract_text_from_selection();
                tab.input_mode = InputMode::Normal;
                tab.selection = None;
                if !text.as_str().is_empty() {
                    tab.status_message = string_from("Text yanked to clipboard!");
                    UiAction::CopyToClipboard(text)
                } else {
                    UiAction::Stay
                }
            } else {
                UiAction::Stay
            }
        },
        Key::Esc => {
            tab.input_mode = InputMode::Normal;
            tab.selection = None;
            tab.status_message = string_from("Ready");
            UiAction::Stay
        },
        _ => UiAction::Stay,
    }
}

/// What one search-mode key does; search mode never asks for outside
/// work.
pub open spec fn search_step(t0: BrowserTab, t1: BrowserTab, key: KeyInput, r: UiAction) -> bool {
    &&& r is Stay
    &&& match key.code {
        Key::Esc => t1.status_message@ == "Ready"@ && t1 == (BrowserTab {
            search_state: None,
            input_mode: InputMode::Normal,
            status_message: t1.status_message,
            ..t0
        }),
        Key::Enter => t1 == (BrowserTab { input_mode: InputMode::Normal, ..t0 }),
        Key::Char(c) => (match t0.search_state {
            None => t1 == t0,
            Some(st) => {
                let q1 = st.query@.push(c);
                &&& t1.search_state is Some
                &&& t1.search_state->0.query@ == q1
                &&& t1.search_state->0.matches@ == spec_search(
                    buffer_texts(t0.rendered_content@),
                    q1,
                )
                &&& t1.search_state->0.current_match_index == 0
                &&& t1 == (BrowserTab { search_state: t1.search_state, ..t0 })
            },
        }),
        Key::Backspace => (match t0.search_state {
            None => t1 == t0,
            Some(st) => {
                let q1 = if st.query@.len() > 0 {
                    st.query@.drop_last()
                } else {
                    st.query@
                };
                if q1.len() == 0 {
                    t1.status_message@ == "Ready"@ && t1 == (BrowserTab {
                        search_state: None,
                        input_mode: InputMode::Normal,
                        status_message: t1.status_message,
                        ..t0
                    })
                } else {
                    &&& t1.search_state is Some
                    &&& t1.search_state->0.query@ == q1
                    &&& t1.search_state->0.matches@ == spec_search(
                        buffer_texts(t0.rendered_content@),
                        q1,
                    )
                    &&& t1.search_state->0.current_match_index == 0
                    &&& t1 == (BrowserTab { search_state: t1.search_state, ..t0 })
                }
            },
        }),
        _ => t1 == t0,
    }
}

/// Handles one key in search mode: typing re-runs the search over the
/// buffer, Backspace shrinks the query (an emptied query drops the
/// search), Enter keeps the matches and returns to normal mode.
pub fn handle_search_mode(tab: &mut BrowserTab, key: KeyInput) -> (r: UiAction)
    ensures
        search_step(*old(tab), *final(tab), key, r),
{
    match key.code {
        Key::Esc => {
            tab.clear_search();
            UiAction::Stay
        },
        Key::Enter => {
            tab.input_mode = InputMode::Normal;
            UiAction::Stay
        },
        Key::Char(c) => {
            let q = match &tab.search_state {
                Some(st) => {
                    let mut q = st.query.clone();
                    q.push(c);
                    Some(q)
                },
                None => None,
            };
            match q {
                Some(q) => {
                    tab.perform_search(q.as_str());
                },
                None => {},
            }
            UiAction::Stay
        },
        Key::Backspace => {
            let q = match &tab.search_state {
                Some(st) => {
                    let mut q = st.query.clone();
                    crate::text::string_pop(&mut q);
                    Some(q)
                },
                None => None,
            };
            match q {
                Some(q) => {
                    if q.as_str().is_empty() {
                        tab.clear_search();
                    } else {
                        tab.perform_search(q.as_str());
                    }
                },
                None => {},
            }
            UiAction::Stay
        },
        _ => UiAction::Stay,
    }
}

/// What one normal-mode key does: the relation between the whole
/// browser state before and after, and the action handed back.
pub open spec fn normal_step(
    s0: BrowserState,
    s1: BrowserState,
    key: KeyInput,
    terminal_width: u16,
    terminal_height: u16,
    r: UiAction,
) -> bool {
    let t0 = cur_tab(s0);
    let t1 = cur_tab(s1);
    let vh = spec_viewport_height(terminal_height);
    match key.code {
        Key::Char(c) => {
            if c == 'v' {
                with_cur_tab(s0, s1, (BrowserTab {
                    input_mode: InputMode::Visual,
                    selection: Some(
                        Selection {
                            start_line: t0.cursor_line,
                            start_char: t0.cursor_char,
                            end_line: t0.cursor_line,
                            end_char: t0.cursor_char,
                        },
                    ),
                    ..t0
                })) && r is Stay
            } else if c == 'd' {
                if t0.selected_link_index < tab_links(t0).len() {
                    let resolved = crate::network::spec_resolve_url(
                        t0.url_input@,
                        tab_links(t0)[t0.selected_link_index as int].url,
                    );
                    &&& t1.download_prompt is Some
                    &&& t1.download_prompt->0.url@ == resolved
                    &&& t1.status_message@ == "Download file? (y/n)"@
                    &&& t1 == (BrowserTab {
                        download_prompt: t1.download_prompt,
                        status_message: t1.status_message,
                        ..t0
                    })
                    &&& with_cur_tab(s0, s1, t1)
                    &&& r is Stay
                } else {
                    s1 == s0 && r is Stay
                }
            } else if (c == 'y' || c == 'Y') && t0.download_prompt is Some {
                &&& with_cur_tab(s0, s1, (BrowserTab { download_prompt: None, ..t0 }))
                &&& r is StartDownload
                &&& r->StartDownload_0 == t0.download_prompt->0.url
            } else if (c == 'n' || c == 'N') && t0.download_prompt is Some {
                with_cur_tab(s0, s1, (BrowserTab { download_prompt: None, ..t0 }))
                    && r is Stay
            } else if c == 'n' {
                &&& s1.tabs@.len() == s0.tabs@.len() + 1
                &&& s1.tabs@.subrange(0, s0.tabs@.len() as int) == s0.tabs@
                &&& s1.tabs@.last().id == s0.id_counter
                &&& s1.tabs@.last().url_input@ == "https://www.rust-lang.org"@
                &&& s1.active_tab_index == s0.tabs@.len()
                &&& s1.id_counter == crate::app::sat_inc(s0.id_counter)
                &&& s1.i2p_mode == s0.i2p_mode
                &&& r is Stay
            } else if c == 't' {
                if t0.selected_link_index < tab_links(t0).len() {
                    let resolved = crate::network::spec_resolve_url(
                        t0.url_input@,
                        tab_links(t0)[t0.selected_link_index as int].url,
                    );
                    &&& s1.tabs@.len() == s0.tabs@.len() + 1
                    &&& s1.tabs@.subrange(0, s0.tabs@.len() as int) == s0.tabs@
                    &&& s1.tabs@.last().id == s0.id_counter
                    &&& s1.tabs@.last().url_input@ == resolved
                    &&& s1.active_tab_index == s0.tabs@.len()
                    &&& s1.id_counter == crate::app::sat_inc(s0.id_counter)
                    &&& s1.i2p_mode == s0.i2p_mode
                    &&& r is Submit
                } else {
                    s1 == s0 && r is Stay
                }
            } else if c == 'w' {
                &&& (s0.tabs@.len() == 1 ==> s1 == s0)
                &&& (s0.tabs@.len() > 1 ==> s1.tabs@ == s0.tabs@.remove(
                    s0.active_tab_index as int,
                ) && s1.id_counter == s0.id_counter && s1.i2p_mode == s0.i2p_mode)
                &&& r is Stay
            } else if c == ']' {
                &&& s1 == (BrowserState { active_tab_index: s1.active_tab_index, ..s0 })
                &&& s1.active_tab_index == (s0.active_tab_index + 1) as int % (
                s0.tabs@.len() as int)
                &&& r is Stay
            } else if c == '[' {
                &&& s1 == (BrowserState { active_tab_index: s1.active_tab_index, ..s0 })
                &&& s1.active_tab_index == (if s0.active_tab_index > 0 {
                    (s0.active_tab_index - 1) as int
                } else {
                    s0.tabs@.len() - 1
                })
                &&& r is Stay
            } else if c == 'q' {
                s1 == s0 && r is Quit
            } else if c == 'e' {
                &&& t1.status_message@ == "EDIT MODE - Type URL and press Enter"@
                &&& t1 == (BrowserTab {
                    input_mode: InputMode::Editing,
                    status_message: t1.status_message,
                    ..t0
                })
                &&& with_cur_tab(s0, s1, t1)
                &&& r is Stay
            } else if c == '/' {
                &&& t1.status_message@ == "SEARCH MODE - Type query and press Enter"@
                &&& t1.search_state is Some
                &&& t1.search_state->0.query@.len() == 0
                &&& t1.search_state->0.matches@.len() == 0
                &&& t1.search_state->0.current_match_index == 0
                &&& t1 == (BrowserTab {
                    input_mode: InputMode::Search,
                    search_state: t1.search_state,
                    status_message: t1.status_message,
                    ..t0
                })
                &&& with_cur_tab(s0, s1, t1)
                &&& r is Stay
            } else if c == '>' || c == '<' {
                match t0.search_state {
                    None => s1 == s0 && r is Stay,
                    Some(st) => {
                        if st.matches@.len() == 0 {
                            s1 == s0 && r is Stay
                        } else {
                            let cur = if st.current_match_index < st.matches@.len() {
                                st.current_match_index as int
                            } else {
                                0
                            };
                            let stepped = if c == '>' {
                                (cur + 1) % st.matches@.len() as int
                            } else {
                                if cur > 0 {
                                    cur - 1
                                } else {
                                    st.matches@.len() - 1
                                }
                            };
                            let m = st.matches@[stepped];
                            &&& t1.search_state is Some
                            &&& t1.search_state->0.current_match_index == stepped
                            &&& t1.search_state->0.query == st.query
                            &&& t1.search_state->0.matches == st.matches
                            &&& t1.scroll == spec_autoscroll(
                                m.line_index as nat,
                                t0.scroll as nat,
                                vh,
                            )
                            &&& t1 == (BrowserTab {
                                search_state: t1.search_state,
                                scroll: t1.scroll,
                                ..t0
                            })
                            &&& with_cur_tab(s0, s1, t1)
                            &&& r is Stay
                        }
                    },
                }
            } else if c == 'V' {
                let sv = !t0.is_source_view;
                &&& t1.is_source_view == sv
                &&& t1.status_message@ == (if sv {
                    "Viewing Source"@
                } else {
                    "Viewing Rendered"@
                })
                &&& (sv ==> tab_lines(t1) =~~= spec_source_lines(
                    t0.html_source@,
                ).map_values(|x: Seq<char>| plain_line(x)) && tab_links(t1).len() == 0)
                &&& (!sv ==> tab_lines(t1) == spec_layout(
                    t0.document,
                    spec_content_width(terminal_width),
                ).lines && tab_links(t1) == spec_layout(
                    t0.document,
                    spec_content_width(terminal_width),
                ).links)
                &&& t1 == (BrowserTab {
                    is_source_view: sv,
                    status_message: t1.status_message,
                    rendered_content: t1.rendered_content,
                    link_regions: t1.link_regions,
                    ..t0
                })
                &&& with_cur_tab(s0, s1, t1)
                &&& r is Stay
            } else if c == 'h' {
                with_cur_tab(s0, s1, (BrowserTab {
                    cursor_char: sat_dec(t0.cursor_char),
                    ..t0
                })) && r is Stay
            } else if c == 'l' {
                let w = line_w(t0, t0.cursor_line as int);
                let cc: usize = if t0.cursor_char + 1 <= w {
                    (t0.cursor_char + 1) as usize
                } else {
                    w as usize
                };
                with_cur_tab(s0, s1, (BrowserTab { cursor_char: cc, ..t0 })) && r is Stay
            } else if c == 'k' {
                let cl = sat_dec(t0.cursor_line);
                let sc: usize = if cl < t0.scroll {
                    cl
                } else {
                    t0.scroll
                };
                with_cur_tab(s0, s1, (BrowserTab {
                    cursor_line: cl,
                    scroll: sc,
                    ..t0
                })) && r is Stay
            } else if c == 'j' {
                let last: usize = sat_dec(tab_lines(t0).len() as usize);
                let cl: usize = if t0.cursor_line + 1 <= last {
                    (t0.cursor_line + 1) as usize
                } else {
                    last
                };
                let sc = if cl >= t0.scroll + vh {
                    spec_autoscroll(cl as nat, t0.scroll as nat, vh)
                } else {
                    t0.scroll as nat
                };
                t1.scroll == sc && t1 == (BrowserTab {
                    cursor_line: cl,
                    scroll: t1.scroll,
                    ..t0
                }) && with_cur_tab(s0, s1, t1) && r is Stay
            } else if c == 'p' {
                s1 == (BrowserState { i2p_mode: !s0.i2p_mode, ..s0 }) && r is Stay
            } else {
                s1 == s0 && r is Stay
            }
        },
        Key::Esc => {
            match t0.download_state {
                Some(d) => {
                    if d.status is Completed || d.status is Failed {
                        &&& t1.status_message@ == "Ready"@
                        &&& t1 == (BrowserTab {
                            download_state: None,
                            status_message: t1.status_message,
                            ..t0
                        })
                        &&& with_cur_tab(s0, s1, t1)
                        &&& r is Stay
                    } else {
                        s1 == s0 && r is Stay
                    }
                },
                None => s1 == s0 && r is Stay,
            }
        },
        Key::Down => with_cur_tab(s0, s1, (BrowserTab {
            scroll: crate::app::sat_inc(t0.scroll),
            ..t0
        })) && r is Stay,
        Key::Up => with_cur_tab(s0, s1, (BrowserTab {
            scroll: sat_dec(t0.scroll),
            ..t0
        })) && r is Stay,
        Key::Backspace | Key::Left => {
            if t0.history@.len() > 0 {
                &&& t1.url_input == t0.history@.last()
                &&& t1 == (BrowserTab {
                    url_input: t1.url_input,
                    history: t1.history,
                    ..t0
                })
                &&& t1.history@ == t0.history@.drop_last()
                &&& with_cur_tab(s0, s1, t1)
                &&& r is Submit
            } else {
                s1 == s0 && r is Stay
            }
        },
        Key::Tab | Key::BackTab => {
            let len = tab_links(t0).len() as int;
            if len == 0 {
                s1 == s0 && r is Stay
            } else {
                let stepped = if key.code == Key::Tab {
                    (crate::app::sat_inc(t0.selected_link_index) as int) % len
                } else {
                    if t0.selected_link_index > 0 {
                        t0.selected_link_index - 1
                    } else {
                        len - 1
                    }
                };
                let sc = if 0 <= stepped < len {
                    spec_autoscroll(
                        tab_links(t0)[stepped].line_index,
                        t0.scroll as nat,
                        vh,
                    )
                } else {
                    t0.scroll as nat
                };
                &&& t1.selected_link_index == stepped
                &&& t1.scroll == sc
                &&& t1 == (BrowserTab {
                    selected_link_index: t1.selected_link_index,
                    scroll: t1.scroll,
                    ..t0
                })
                &&& with_cur_tab(s0, s1, t1)
                &&& r is Stay
            }
        },
        Key::Enter => {
            if t0.selected_link_index < tab_links(t0).len() {
                let resolved = crate::network::spec_resolve_url(
                    t0.url_input@,
                    tab_links(t0)[t0.selected_link_index as int].url,
                );
                &&& t1.url_input@ == resolved
                &&& t1.history@ == (if t0.url_input@.len() > 0 {
                    t0.history@.push(t0.url_input)
                } else {
                    t0.history@
                })
                &&& t1 == (BrowserTab {
                    url_input: t1.url_input,
                    history: t1.history,
                    selected_link_index: 0,
                    ..t0
                })
                &&& with_cur_tab(s0, s1, t1)
                &&& r is Submit
            } else {
                s1 == s0 && r is Stay
            }
        },
    }
}

/// Handles one key in normal mode: scrolling, cursor movement, tab
/// management, link navigation with autoscroll, and the mode switches.
#[verifier::rlimit(100)]
pub fn handle_normal_mode(
    state: &mut BrowserState,
    key: KeyInput,
    terminal_width: u16,
    terminal_height: u16,
) -> (r: UiAction)
    requires
        crate::app::state_wf(*old(state)),
    ensures
        crate::app::state_wf(*final(state)),
        normal_step(*old(state), *final(state), key, terminal_width, terminal_height, r),
{
    let idx = state.active_tab_index;
    let vh: usize = (terminal_height.saturating_sub(crate::constants::UI_HEIGHT_OFFSET)) as usize;
    match key.code {
        Key::Char(c) => {
            if c == 'v' {
                let tab = &mut state.tabs[idx];
                tab.enter_visual_mode();
                UiAction::Stay
            } else if c == 'd' {
                let sel = state.tabs[idx].selected_link_index;
                if sel < state.tabs[idx].link_regions.len() {
                    let target = state.tabs[idx].link_regions[sel].url.clone();
                    let resolved = crate::network::resolve_url(
                        state.tabs[idx].url_input.as_str(),
                        target.as_str(),
                    );
                    let tab = &mut state.tabs[idx];
                    tab.initiate_download_request(resolved);
                }
                UiAction::Stay
            } else if (c == 'y' || c == 'Y') && state.tabs[idx].download_prompt.is_some() {
                let tab = &mut state.tabs[idx];
                let mut prompt = None;
                core::mem::swap(&mut prompt, &mut tab.download_prompt);
                UiAction::StartDownload(prompt.unwrap().url)
            } else if (c == 'n' || c == 'N') && state.tabs[idx].download_prompt.is_some() {
                let tab = &mut state.tabs[idx];
                tab.download_prompt = None;
                UiAction::Stay
            } else if c == 'n' {
                state.add_tab(None);
                UiAction::Stay
            } else if c == 't' {
                let sel = state.tabs[idx].selected_link_index;
                if sel < state.tabs[idx].link_regions.len() {
                    let target = state.tabs[idx].link_regions[sel].url.clone();
                    let resolved = crate::network::resolve_url(
                        state.tabs[idx].url_input.as_str(),
                        target.as_str(),
                    );
                    state.open_link_in_new_tab(resolved);
                    UiAction::Submit
                } else {
                    UiAction::Stay
                }
            } else if c == 'w' {
                state.close_tab();
                UiAction::Stay
            } else if c == ']' {
                let len = state.tabs.len();
                state.active_tab_index = (state.active_tab_index + 1) % len;
                UiAction::Stay
            } else if c == '[' {
                if state.active_tab_index > 0 {
                    state.active_tab_index = state.active_tab_index - 1;
                } else {
                    state.active_tab_index = state.tabs.len() - 1;
                }
                UiAction::Stay
            } else if c == 'q' {
                UiAction::Quit
            } else if c == 'e' {
                let tab = &mut state.tabs[idx];
                tab.input_mode = InputMode::Editing;
                tab.status_message = string_from("EDIT MODE - Type URL and press Enter");
                UiAction::Stay
            } else if c == '/' {
                let tab = &mut state.tabs[idx];
                tab.input_mode = InputMode::Search;
                tab.search_state = Some(
                    crate::models::SearchState {
                        query: String::new(),
                        matches: Vec::new(),
                        current_match_index: 0,
                    },
                );
                tab.status_message = string_from("SEARCH MODE - Type query and press Enter");
                UiAction::Stay
            } else if c == '>' || c == '<' {
                let has_matches = match &state.tabs[idx].search_state {
                    Some(st) => st.matches.len() > 0,
                    None => false,
                };
                if has_matches {
                    let tab = &mut state.tabs[idx];
                    if c == '>' {
                        tab.next_search_match();
                    } else {
                        tab.previous_search_match();
                    }
                    let target_line = match &tab.search_state {
                        Some(st) => {
                            if st.current_match_index < st.matches.len() {
                                Some(st.matches[st.current_match_index].line_index)
                            } else {
                                None
                            }
                        },
                        None => None,
                    };
                    match target_line {
                        Some(line) => {
                            tab.scroll_line_into_view(line, vh);
                        },
                        None => {},
                    }
                }
                UiAction::Stay
            } else if c == 'V' {
                let tab = &mut state.tabs[idx];
                tab.is_source_view = !tab.is_source_view;
                tab.status_message = if tab.is_source_view {
                    string_from("Viewing Source")
                } else {
                    string_from("Viewing Rendered")
                };
                tab.render_tab(terminal_width);
                UiAction::Stay
            } else if c == 'h' {
                let tab = &mut state.tabs[idx];
                tab.cursor_char = tab.cursor_char.saturating_sub(1);
                UiAction::Stay
            } else if c == 'l' {
                let w = line_width_at(&state.tabs[idx], state.tabs[idx].cursor_line);
                let tab = &mut state.tabs[idx];
                let cc = if tab.cursor_char < w {
                    tab.cursor_char + 1
                } else {
                    w
                };
                tab.cursor_char = cc;
                UiAction::Stay
            } else if c == 'k' {
                let tab = &mut state.tabs[idx];
                let cl = tab.cursor_line.saturating_sub(1);
                tab.cursor_line = cl;
                if cl < tab.scroll {
                    tab.scroll = cl;
                }
                UiAction::Stay
            } else if c == 'j' {
                let tab = &mut state.tabs[idx];
                let last = tab.rendered_content.len().saturating_sub(1);
                let cl = if tab.cursor_line < last {
                    tab.cursor_line + 1
                } else {
                    last
                };
                tab.cursor_line = cl;
                if cl >= tab.scroll && cl - tab.scroll >= vh {
                    tab.scroll = crate::links::autoscroll(cl, tab.scroll, vh);
                }
                UiAction::Stay
            } else if c == 'p' {
                state.i2p_mode = !state.i2p_mode;
                UiAction::Stay
            } else {
                UiAction::Stay
            }
        },
        Key::Esc => {
            let clearable = match &state.tabs[idx].download_state {
                Some(d) => match d.status {
                    crate::models::DownloadStatus::Completed => true,
                    crate::models::DownloadStatus::Failed(_) => true,
                    crate::models::DownloadStatus::Active => false,
                },
                None => false,
            };
            if clearable {
                let tab = &mut state.tabs[idx];
                tab.download_state = None;
                tab.status_message = string_from("Ready");
            }
            UiAction::Stay
        },
        Key::Down => {
            let tab = &mut state.tabs[idx];
            tab.scroll = tab.scroll.saturating_add(1);
            UiAction::Stay
        },
        Key::Up => {
            let tab = &mut state.tabs[idx];
            tab.scroll = tab.scroll.saturating_sub(1);
            UiAction::Stay
        },
        Key::Backspace | Key::Left => {
            if state.tabs[idx].history.len() > 0 {
                let tab = &mut state.tabs[idx];
                let popped = tab.history.pop();
                match popped {
                    Some(previous_url) => {
                        tab.url_input = previous_url;
                        UiAction::Submit
                    },
                    None => UiAction::Stay,
                }
            } else {
                UiAction::Stay
            }
        },
        Key::Tab | Key::BackTab => {
            let len = state.tabs[idx].link_regions.len();
            if len == 0 {
                UiAction::Stay
            } else {
                let tab = &mut state.tabs[idx];
                let stepped = if key.code == Key::Tab {
                    tab.selected_link_index.saturating_add(1) % len
                } else {
                    if tab.selected_link_index > 0 {
                        tab.selected_link_index - 1
                    } else {
                        len - 1
                    }
                };
                tab.selected_link_index = stepped;
                if stepped < len {
                    let line = tab.link_regions[stepped].line_index;
                    tab.scroll = crate::links::autoscroll(line, tab.scroll, vh);
                }
                UiAction::Stay
            }
        },
        Key::Enter => {
            let sel = state.tabs[idx].selected_link_index;
            if sel < state.tabs[idx].link_regions.len() {
                let target = state.tabs[idx].link_regions[sel].url.clone();
                let resolved = crate::network::resolve_url(
                    state.tabs[idx].url_input.as_str(),
                    target.as_str(),
                );
                let tab = &mut state.tabs[idx];
                if !tab.url_input.as_str().is_empty() {
                    let u = tab.url_input.clone();
                    tab.history.push(u);
                }
                tab.url_input = resolved;
                tab.selected_link_index = 0;
                UiAction::Submit
            } else {
                UiAction::Stay
            }
        },
    }
}

/// Routes a key to the active tab's mode. Only normal mode can quit or
/// touch other tabs; the editing, visual and search handlers work on the
/// current tab alone.
pub fn handle_key_event(
    state: &mut BrowserState,
    key: KeyInput,
    terminal_width: u16,
    terminal_height: u16,
) -> (r: UiAction)
    requires
        crate::app::state_wf(*old(state)),
    ensures
        crate::app::state_wf(*final(state)),
        ({
            let s0 = *old(state);
            let s1 = *final(state);
            match cur_tab(s0).input_mode {
                InputMode::Normal => normal_step(
                    s0,
                    s1,
                    key,
                    terminal_width,
                    terminal_height,
                    r,
                ),
                InputMode::Editing => with_cur_tab(s0, s1, cur_tab(s1)) && editing_step(
                    cur_tab(s0),
                    cur_tab(s1),
                    key,
                    r,
                ),
                InputMode::Visual => with_cur_tab(s0, s1, cur_tab(s1)) && visual_step(
                    cur_tab(s0),
                    cur_tab(s1),
                    key,
                    r,
                ),
                InputMode::Search => with_cur_tab(s0, s1, cur_tab(s1)) && search_step(
                    cur_tab(s0),
                    cur_tab(s1),
                    key,
                    r,
                ),
            }
        }),
{
    let idx = state.active_tab_index;
    let mode = state.tabs[idx].input_mode;
    match mode {
        InputMode::Normal => handle_normal_mode(state, key, terminal_width, terminal_height),
        InputMode::Editing => {
            let tab = &mut state.tabs[idx];
            handle_editing_mode(tab, key)
        },
        InputMode::Visual => {
            let tab = &mut state.tabs[idx];
            handle_visual_mode(tab, key)
        },
        InputMode::Search => {
            let tab = &mut state.tabs[idx];
            handle_search_mode(tab, key)
        },
    }
}

/// Where a click lands in page coordinates: the content row under the
/// tab and URL bars plus the scroll offset, and the column less the
/// border.
pub open spec fn spec_click_line(row: u16, scroll: usize) -> nat {
    crate::text::sat_add((row - crate::constants::UI_ROW_OFFSET) as nat, scroll as nat)
}

pub open spec fn spec_click_x(column: u16) -> nat {
    if column >= 1 {
        (column - 1) as nat
    } else {
        0
    }
}

/// Handles a mouse event in normal interaction: a click inside the
/// download prompt answers it; the wheel scrolls three lines; a left
/// click moves the cursor and follows the link it hits, downloading,
/// opening a new tab with Ctrl, or navigating.
#[verifier::rlimit(100)]
pub fn handle_mouse_event(
    state: &mut BrowserState,
    mouse: MouseInput,
    terminal_width: u16,
    terminal_height: u16,
) -> (r: UiAction)
    requires
        crate::app::state_wf(*old(state)),
    ensures
        crate::app::state_wf(*final(state)),
        ({
            let s0 = *old(state);
            let s1 = *final(state);
            let t0 = cur_tab(s0);
            let t1 = cur_tab(s1);
            let px = terminal_width / 4;
            let py = if terminal_height / 2 >= 4 {
                (terminal_height / 2 - 4) as u16
            } else {
                0
            };
            let pw = terminal_width / 2;
            let inside = t0.download_prompt is Some && px <= mouse.column < px + pw && py
                <= mouse.row < py + 9;
            if inside {
                if mouse.row == py + 6 {
                    if mouse.column < px + pw / 2 {
                        &&& with_cur_tab(s0, s1, (BrowserTab { download_prompt: None, ..t0 }))
                        &&& r is StartDownload
                        &&& r->StartDownload_0 == t0.download_prompt->0.url
                    } else {
                        with_cur_tab(s0, s1, (BrowserTab { download_prompt: None, ..t0 }))
                            && r is Stay
                    }
                } else {
                    s1 == s0 && r is Stay
                }
            } else {
                match mouse.kind {
                    MouseKind::ScrollDown => with_cur_tab(s0, s1, (BrowserTab {
                        scroll: (if t0.scroll + 3 <= usize::MAX {
                            (t0.scroll + 3) as usize
                        } else {
                            usize::MAX
                        }),
                        ..t0
                    })) && r is Stay,
                    MouseKind::ScrollUp => with_cur_tab(s0, s1, (BrowserTab {
                        scroll: (if t0.scroll >= 3 {
                            (t0.scroll - 3) as usize
                        } else {
                            0
                        }),
                        ..t0
                    })) && r is Stay,
                    MouseKind::LeftDown => {
                        if mouse.row >= crate::constants::UI_ROW_OFFSET {
                            let line = spec_click_line(mouse.row, t0.scroll);
                            let x = spec_click_x(mouse.column);
                            let tc = (BrowserTab {
                                cursor_line: line as usize,
                                cursor_char: x as usize,
                                ..t0
                            });
                            match crate::links::spec_hit_test(tab_links(t0), line, x) {
                                None => with_cur_tab(s0, s1, tc) && r is Stay,
                                Some(h) => {
                                    let resolved = crate::network::spec_resolve_url(
                                        t0.url_input@,
                                        tab_links(t0)[h].url,
                                    );
                                    if mouse.ctrl {
                                        &&& s1.tabs@.len() == s0.tabs@.len() + 1
                                        &&& s1.tabs@.subrange(0, s0.tabs@.len() as int)
                                            == s0.tabs@.update(s0.active_tab_index as int, tc)
                                        &&& s1.tabs@.last().url_input@ == resolved
                                        &&& s1.tabs@.last().id == s0.id_counter
                                        &&& s1.active_tab_index == s0.tabs@.len()
                                        &&& r is Submit
                                    } else if crate::network::spec_downloadable(
                                        crate::network::lower_of(resolved),
                                    ) {
                                        &&& t1.download_prompt is Some
                                        &&& t1.download_prompt->0.url@ == resolved
                                        &&& t1.status_message@ == "Download file? (y/n)"@
                                        &&& t1 == (BrowserTab {
                                            download_prompt: t1.download_prompt,
                                            status_message: t1.status_message,
                                            ..tc
                                        })
                                        &&& with_cur_tab(s0, s1, t1)
                                        &&& r is Stay
                                    } else {
                                        &&& t1.url_input@ == resolved
                                        &&& t1.history@ == (if t0.url_input@.len() > 0 {
                                            t0.history@.push(t0.url_input)
                                        } else {
                                            t0.history@
                                        })
                                        &&& t1 == (BrowserTab {
                                            url_input: t1.url_input,
                                            history: t1.history,
                                            ..tc
                                        })
                                        &&& with_cur_tab(s0, s1, t1)
                                        &&& r is Submit
                                    }
                                },
                            }
                        } else {
                            s1 == s0 && r is Stay
                        }
                    },
                }
            }
        }),
{
    let idx = state.active_tab_index;
    let px = terminal_width / 4;
    let py = (terminal_height / 2).saturating_sub(4);
    let pw = terminal_width / 2;
    let has_prompt = state.tabs[idx].download_prompt.is_some();
    if has_prompt && mouse.column >= px && mouse.column < px + pw && mouse.row >= py && mouse.row
        < py + 9 {
        if mouse.row == py + 6 {
            if mouse.column < px + pw / 2 {
                let tab = &mut state.tabs[idx];
                let mut prompt = None;
                core::mem::swap(&mut prompt, &mut tab.download_prompt);
                return UiAction::StartDownload(prompt.unwrap().url);
            } else {
                let tab = &mut state.tabs[idx];
                tab.download_prompt = None;
                return UiAction::Stay;
            }
        } else {
            return UiAction::Stay;
        }
    }
    match mouse.kind {
        MouseKind::ScrollDown => {
            let tab = &mut state.tabs[idx];
            tab.scroll = tab.scroll.saturating_add(3);
            UiAction::Stay
        },
        MouseKind::ScrollUp => {
            let tab = &mut state.tabs[idx];
            tab.scroll = tab.scroll.saturating_sub(3);
            UiAction::Stay
        },
        MouseKind::LeftDown => {
            if mouse.row >= crate::constants::UI_ROW_OFFSET {
                let visual_line = (mouse.row - crate::constants::UI_ROW_OFFSET) as usize;
                let real_line = visual_line.saturating_add(state.tabs[idx].scroll);
                let click_x: usize = if mouse.column >= 1 {
                    (mouse.column - 1) as usize
                } else {
                    0
                };
                {
                    let tab = &mut state.tabs[idx];
                    tab.cursor_line = real_line;
                    tab.cursor_char = click_x;
                }
                let hit = crate::links::hit_test(&state.tabs[idx].link_regions, real_line, click_x);
                match hit {
                    Some(h) => {
                        let target = state.tabs[idx].link_regions[h].url.clone();
                        let resolved = crate::network::resolve_url(
                            state.tabs[idx].url_input.as_str(),
                            target.as_str(),
                        );
                        if mouse.ctrl {
                            state.open_link_in_new_tab(resolved);
                            UiAction::Submit
                        } else if crate::network::is_downloadable_file(resolved.as_str()) {
                            let tab = &mut state.tabs[idx];
                            tab.initiate_download_request(resolved);
                            proof {
                                assert(state.tabs@ =~= old(state).tabs@.update(
                                    idx as int,
                                    state.tabs@[idx as int],
                                ));
                            }
                            UiAction::Stay
                        } else {
                            let tab = &mut state.tabs[idx];
                            if !tab.url_input.as_str().is_empty() {
                                let u = tab.url_input.clone();
                                tab.history.push(u);
                            }
                            tab.url_input = resolved;
                            proof {
                                assert(state.tabs@ =~= old(state).tabs@.update(
                                    idx as int,
                                    state.tabs@[idx as int],
                                ));
                            }
                            UiAction::Submit
                        }
                    },
                    None => UiAction::Stay,
                }
            } else {
                UiAction::Stay
            }
        },
    }
}

/// The first tab with the given id, scanning from `from`: network
/// responses are routed by tab id, not by position.
pub open spec fn spec_find_tab(tabs: Seq<BrowserTab>, id: int, from: int) -> Option<int>
    decreases tabs.len() - from,
{
    if from < 0 || from >= tabs.len() {
        None
    } else if tabs[from].id == id {
        Some(from)
    } else {
        spec_find_tab(tabs, id, from + 1)
    }
}

/// The tab id a response is addressed to.
pub open spec fn spec_response_id(response: NetworkResponse) -> int {
    match response {
        NetworkResponse::Success(id, _, _) => id as int,
        NetworkResponse::Error(id, _) => id as int,
        NetworkResponse::Loading(id) => id as int,
        NetworkResponse::Info(id, _) => id as int,
        NetworkResponse::DownloadProgress(id, _, _) => id as int,
        NetworkResponse::DownloadFinished(id, _) => id as int,
    }
}

use crate::network::NetworkResponse;
use crate::models::{Download, DownloadStatus};
use crate::dom::DomNode;
use crate::text::dec_str;

/// Finds the tab a response belongs to.
fn find_tab_index(tabs: &Vec<BrowserTab>, id: usize) -> (r: Option<usize>)
    ensures
        match r {
            Some(i) => i < tabs@.len() && spec_find_tab(tabs@, id as int, 0) == Some(i as int),
            None => spec_find_tab(tabs@, id as int, 0) is None,
        },
{
    let n = tabs.len();
    let mut i: usize = 0;
    while i < n
        invariant
            i <= n,
            n == tabs@.len(),
            spec_find_tab(tabs@, id as int, 0) == spec_find_tab(tabs@, id as int, i as int),
        decreases n - i,
    {
        if tabs[i].id == id {
            return Some(i);
        }
        i = i + 1;
    }
    None
}

/// The status line shown while a download runs.
pub open spec fn spec_progress_message(downloaded: u64, total: Option<u64>) -> Seq<char> {
    match total {
        Some(t) => {
            if t > 0 {
                let raised = if downloaded * 100 > u64::MAX {
                    u64::MAX as int
                } else {
                    downloaded * 100
                };
                "Downloading: "@ + dec_str(raised / t as int) + "%"@
            } else {
                "Downloading: "@ + dec_str(downloaded as int) + " bytes"@
            }
        },
        None => "Downloading: "@ + dec_str(downloaded as int) + " bytes"@,
    }
}

/// Applies a network response to the tab it addresses: new content is
/// stored and laid out afresh with the scroll reset, errors render an
/// error page, and download progress updates the tab's download state.
/// A response whose id matches no tab is dropped.
#[verifier::rlimit(100)]
pub fn handle_network_event(
    state: &mut BrowserState,
    response: NetworkResponse,
    document: Option<DomNode>,
    terminal_width: u16,
)
    requires
        crate::app::state_wf(*old(state)),
        response is Success ==> document is Some,
    ensures
        crate::app::state_wf(*final(state)),
        ({
            let s0 = *old(state);
            let s1 = *final(state);
            match spec_find_tab(s0.tabs@, spec_response_id(response), 0) {
                None => s1 == s0,
                Some(j) => {
                    let t0 = s0.tabs@[j];
                    let t1 = s1.tabs@[j];
                    &&& s1.tabs@ == s0.tabs@.update(j, t1)
                    &&& s1.active_tab_index == s0.active_tab_index
                    &&& s1.id_counter == s0.id_counter
                    &&& s1.i2p_mode == s0.i2p_mode
                    &&& match response {
                        NetworkResponse::Success(_, title, html) => {
                            &&& t1.page_title == title
                            &&& t1.html_source == html
                            &&& t1.document == document->0
                            &&& t1.scroll == 0
                            &&& t1.status_message@ == "Loaded"@
                            &&& (t0.is_source_view ==> tab_lines(t1) =~~= spec_source_lines(
                                html@,
                            ).map_values(|x: Seq<char>| plain_line(x)) && tab_links(t1).len()
                                == 0)
                            &&& (!t0.is_source_view ==> tab_lines(t1) == spec_layout(
                                document->0,
                                spec_content_width(terminal_width),
                            ).lines && tab_links(t1) == spec_layout(
                                document->0,
                                spec_content_width(terminal_width),
                            ).links)
                            &&& t1 == (BrowserTab {
                                page_title: t1.page_title,
                                html_source: t1.html_source,
                                document: t1.document,
                                scroll: 0,
                                status_message: t1.status_message,
                                rendered_content: t1.rendered_content,
                                link_regions: t1.link_regions,
                                ..t0
                            })
                        },
                        NetworkResponse::Error(_, msg) => {
                            &&& t1.page_title@ == "Error"@
                            &&& t1.html_source@ == "<h1>Error</h1><hr><p style='color:red'>"@
                                + msg@ + "</p>"@
                            &&& t1.scroll == 0
                            &&& t1.status_message@ == "Error"@
                            &&& t1.download_state == (match t0.download_state {
                                Some(d) => Some(
                                    Download { status: DownloadStatus::Failed(msg), ..d },
                                ),
                                None => None::<Download>,
                            })
                            &&& (!t0.is_source_view ==> tab_lines(t1) == spec_layout(
                                t1.document,
                                spec_content_width(terminal_width),
                            ).lines && tab_links(t1) == spec_layout(
                                t1.document,
                                spec_content_width(terminal_width),
                            ).links)
                            &&& t1 == (BrowserTab {
                                page_title: t1.page_title,
                                html_source: t1.html_source,
                                document: t1.document,
                                scroll: 0,
                                status_message: t1.status_message,
                                rendered_content: t1.rendered_content,
                                link_regions: t1.link_regions,
                                download_state: t1.download_state,
                                ..t0
                            })
                        },
                        NetworkResponse::Loading(_) => {
                            &&& t1.page_title@ == "Loading..."@
                            &&& t1.status_message@ == "Fetching..."@
                            &&& t1 == (BrowserTab {
                                page_title: t1.page_title,
                                status_message: t1.status_message,
                                ..t0
                            })
                        },
                        NetworkResponse::Info(_, msg) => {
                            t1 == (BrowserTab { status_message: msg, ..t0 })
                        },
                        NetworkResponse::DownloadProgress(id, downloaded, total) => {
                            &&& t1.download_state is Some
                            &&& t1.download_state->0.id == id
                            &&& t1.download_state->0.filename@ == "Downloading..."@
                            &&& t1.download_state->0.bytes_downloaded == downloaded
                            &&& t1.download_state->0.total_size == total
                            &&& t1.download_state->0.status == DownloadStatus::Active
                            &&& t1.status_message@ == spec_progress_message(downloaded, total)
                            &&& t1 == (BrowserTab {
                                download_state: t1.download_state,
                                status_message: t1.status_message,
                                ..t0
                            })
                        },
                        NetworkResponse::DownloadFinished(_, filename) => {
                            &&& t1.download_state == (match t0.download_state {
                                Some(d) => Some(
                                    Download {
                                        status: DownloadStatus::Completed,
                                        filename: filename,
                                        ..d
                                    },
                                ),
                                None => None::<Download>,
                            })
                            &&& t1.status_message@ == "Download complete: "@ + filename@
                            &&& t1 == (BrowserTab {
                                download_state: t1.download_state,
                                status_message: t1.status_message,
                                ..t0
                            })
                        },
                    }
                },
            }
        }),
{
    let target_id: usize = match &response {
        NetworkResponse::Success(id, _, _) => *id,
        NetworkResponse::Error(id, _) => *id,
        NetworkResponse::Loading(id) => *id,
        NetworkResponse::Info(id, _) => *id,
        NetworkResponse::DownloadProgress(id, _, _) => *id,
        NetworkResponse::DownloadFinished(id, _) => *id,
    };
    let found = find_tab_index(&state.tabs, target_id);
    let j = match found {
        Some(j) => j,
        None => {
            return ;
        },
    };
    match response {
        NetworkResponse::Success(_, title, html) => {
            let doc = document.unwrap();
            let tab = &mut state.tabs[j];
            tab.page_title = title;
            tab.html_source = html;
            tab.document = doc;
            tab.scroll = 0;
            tab.status_message = string_from("Loaded");
            tab.render_tab(terminal_width);
        },
        NetworkResponse::Error(_, msg) => {
            let html = crate::app::error_html(msg.as_str());
            let doc = crate::app::error_document(msg.as_str());
            let tab = &mut state.tabs[j];
            let mut failed: Option<Download> = None;
            core::mem::swap(&mut failed, &mut tab.download_state);
            tab.download_state = match failed {
                Some(d) => Some(Download { status: DownloadStatus::Failed(msg), ..d }),
                None => None,
            };
            tab.page_title = string_from("Error");
            tab.html_source = html;
            tab.document = doc;
            tab.scroll = 0;
            tab.status_message = string_from("Error");
            tab.render_tab(terminal_width);
        },
        NetworkResponse::Loading(_) => {
            let tab = &mut state.tabs[j];
            tab.page_title = string_from("Loading...");
            tab.status_message = string_from("Fetching...");
        },
        NetworkResponse::Info(_, msg) => {
            let tab = &mut state.tabs[j];
            tab.status_message = msg;
        },
        NetworkResponse::DownloadProgress(id, downloaded, total) => {
            let message = progress_message(downloaded, total);
            let tab = &mut state.tabs[j];
            tab.download_state = Some(
                Download {
                    id,
                    filename: string_from("Downloading..."),
                    bytes_downloaded: downloaded,
                    total_size: total,
                    status: DownloadStatus::Active,
                },
            );
            tab.status_message = message;
        },
        NetworkResponse::DownloadFinished(_, filename) => {
            let mut message = string_from("Download complete: ");
            message.append(filename.as_str());
            let tab = &mut state.tabs[j];
            let mut finished: Option<Download> = None;
            core::mem::swap(&mut finished, &mut tab.download_state);
            tab.download_state = match finished {
                Some(d) => Some(
                    Download { status: DownloadStatus::Completed, filename: filename, ..d },
                ),
                None => None,
            };
            tab.status_message = message;
        },
    }
}

/// Builds the running-download status line.
fn progress_message(downloaded: u64, total: Option<u64>) -> (r: String)
    ensures
        r@ == spec_progress_message(downloaded, total),
{
    match total {
        Some(t) => {
            if t > 0 {
                let raised = match downloaded.checked_mul(100) {
                    Some(v) => v,
                    None => u64::MAX,
                };
                let pct = raised / t;
                let mut m = string_from("Downloading: ");
                let d = crate::text::u64_to_string(pct);
                m.append(d.as_str());
                m.append("%");
                m
            } else {
                let mut m = string_from("Downloading: ");
                let d = crate::text::u64_to_string(downloaded);
                m.append(d.as_str());
                m.append(" bytes");
                m
            }
        },
        None => {
            let mut m = string_from("Downloading: ");
            let d = crate::text::u64_to_string(downloaded);
            m.append(d.as_str());
            m.append(" bytes");
            m
        },
    }
}

} // verus!
