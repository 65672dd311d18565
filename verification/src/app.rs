use vstd::prelude::*;
use crate::dom::DomNode;
use crate::line::{spans_text, Line, SpanM, Style, StyledSpan};
use crate::links::{autoscroll, spec_autoscroll};
use crate::models::{
    Download, DownloadPrompt, InputMode, LinkRegion, SearchMatch, SearchState, Selection,
};
use crate::renderer::{line_run, spec_layout, strip_cr, RegionM};
use crate::search::{search_lines, spec_search};
use crate::selection::{buffer_texts, spec_extract};
use crate::text::{str_chars, string_from};

verus! {

/// `n + 1`, stopping at the top of `usize`.
pub open spec fn sat_inc(n: usize) -> usize {
    if n == usize::MAX {
        usize::MAX
    } else {
        (n + 1) as usize
    }
}

/// `n - 1`, stopping at zero.
pub open spec fn sat_dec(n: usize) -> usize {
    if n == 0 {
        0
    } else {
        (n - 1) as usize
    }
}

/// The text of each source line: the buffer a source view shows, one
/// line per literal line of the HTML text.
pub open spec fn spec_source_lines(t: Seq<char>) -> Seq<Seq<char>>
    decreases t.len() via spec_source_lines_dec
{
    if t.len() == 0 {
        Seq::empty()
    } else {
        let nl = line_run(t) as int;
        let first = seq![strip_cr(t.take(nl))];
        if nl == t.len() {
            first
        } else {
            first + spec_source_lines(t.skip(nl + 1))
        }
    }
}

#[via_fn]
proof fn spec_source_lines_dec(t: Seq<char>) {
    crate::renderer::lemma_line_run_le(t);
}

/// A line holding one plainly styled span.
pub open spec fn plain_line(t: Seq<char>) -> Seq<SpanM> {
    seq![SpanM { text: t, style: Style::spec_plain() }]
}

/// Splits text into one plainly styled line per literal line.
fn source_lines(text: &str) -> (r: Vec<Line>)
    ensures
        r@.map_values(|l: Line| l@) =~~= spec_source_lines(text@).map_values(
            |t: Seq<char>| plain_line(t),
        ),
{
    let chars = str_chars(text);
    let n = chars.len();
    let ghost t = text@;
    let mut r: Vec<Line> = Vec::new();
    let mut pos: usize = 0;
    proof {
        assert(t.skip(0) =~= t);
        assert(r@.map_values(|l: Line| l@) =~= Seq::<Seq<SpanM>>::empty());
    }
    loop
        invariant_except_break
            pos <= n,
            n == t.len(),
            chars@ == t,
            spec_source_lines(t).map_values(|x: Seq<char>| plain_line(x)) =~~= r@.map_values(
                |l: Line| l@,
            ) + spec_source_lines(t.skip(pos as int)).map_values(|x: Seq<char>| plain_line(x)),
        ensures
            r@.map_values(|l: Line| l@) =~~= spec_source_lines(t).map_values(
                |x: Seq<char>| plain_line(x),
            ),
        decreases n - pos,
    {
        if pos == n {
            proof {
                assert(t.skip(pos as int).len() == 0);
                assert(spec_source_lines(t.skip(pos as int)).map_values(
                    |x: Seq<char>| plain_line(x),
                ) =~= Seq::<Seq<SpanM>>::empty());
            }
            break ;
        }
        let ghost rem = t.skip(pos as int);
        let rl = BrowserTab::line_len_at(chars.as_slice(), pos);
        let piece_end = if rl > 0 && chars[pos + rl - 1] == '\r' {
            pos + rl - 1
        } else {
            pos + rl
        };
        proof {
            assert(rem.take(rl as int) =~= t.subrange(pos as int, pos + rl));
            assert(strip_cr(rem.take(rl as int)) =~= t.subrange(pos as int, piece_end as int));
        }
        let piece = vstd::slice::slice_subrange(chars.as_slice(), pos, piece_end);
        let text_s = crate::text::chars_string(piece);
        let mut spans: Vec<StyledSpan> = Vec::new();
        spans.push(StyledSpan { text: text_s, style: Style::plain() });
        let ghost before = r@;
        r.push(Line { spans });
        proof {
            assert(r@.map_values(|l: Line| l@) =~~= before.map_values(|l: Line| l@) + seq![
                plain_line(strip_cr(rem.take(rl as int))),
            ]);
            assert((seq![strip_cr(rem.take(rl as int))] + spec_source_lines(rem.skip(rl + 1)))
                .map_values(|x: Seq<char>| plain_line(x)) =~= seq![
                plain_line(strip_cr(rem.take(rl as int))),
            ] + spec_source_lines(rem.skip(rl + 1)).map_values(|x: Seq<char>| plain_line(x)));
            assert(seq![strip_cr(rem.take(rl as int))].map_values(|x: Seq<char>| plain_line(x))
                =~= seq![plain_line(strip_cr(rem.take(rl as int)))]);
        }
        if pos + rl == n {
            proof {
                assert(spec_source_lines(rem).map_values(|x: Seq<char>| plain_line(x)) =~= seq![
                    plain_line(strip_cr(rem.take(rl as int))),
                ]);
            }
            pos = n;
        } else {
            proof {
                assert(rem.skip(rl + 1) =~= t.skip(pos + rl + 1));
            }
            pos = pos + rl + 1;
        }
    }
    r
}

/// One browsing tab: the fetched page, its laid-out buffer and link
/// regions, and every interaction state the modes use.
pub struct BrowserTab {
    pub id: usize,
    pub url_input: String,
    pub rendered_content: Vec<Line>,
    pub link_regions: Vec<LinkRegion>,
    pub page_title: String,
    pub scroll: usize,
    pub history: Vec<String>,
    pub selected_link_index: usize,
    pub input_mode: InputMode,
    pub status_message: String,
    pub html_source: String,
    pub is_source_view: bool,
    pub document: DomNode,
    pub cursor_line: usize,
    pub cursor_char: usize,
    pub selection: Option<Selection>,
    pub search_state: Option<SearchState>,
    pub download_state: Option<Download>,
    pub download_prompt: Option<DownloadPrompt>,
}

/// The laid-out lines of a tab, as values.
pub open spec fn tab_lines(tab: BrowserTab) -> Seq<Seq<SpanM>> {
    tab.rendered_content@.map_values(|l: Line| l@)
}

/// The link regions of a tab, as values.
pub open spec fn tab_links(tab: BrowserTab) -> Seq<RegionM> {
    tab.link_regions@.map_values(|r: LinkRegion| r@)
}

impl BrowserTab {
    /// A fresh tab showing the built-in help page, rendered at the
    /// default hundred-column width.
    pub fn new(id: usize, initial_url: String) -> (tab: BrowserTab)
        ensures
            tab.id == id,
            tab.url_input == initial_url,
            tab_lines(tab) == spec_layout(tab.document, 100).lines,
            tab_links(tab) == spec_layout(tab.document, 100).links,
            tab.page_title@ == "New Tab"@,
            tab.scroll == 0,
            tab.history@.len() == 0,
            tab.selected_link_index == 0,
            tab.input_mode == InputMode::Normal,
            tab.status_message@ == "Ready"@,
            tab.html_source@.len() == 0,
            tab.is_source_view == false,
            tab.cursor_line == 0,
            tab.cursor_char == 0,
            tab.selection is None,
            tab.search_state is None,
            tab.download_state is None,
            tab.download_prompt is None,
    {
        let document = help_document();
        let rend = crate::renderer::layout(&document, 100);
        BrowserTab {
            id,
            url_input: initial_url,
            rendered_content: rend.lines,
            link_regions: rend.links,
            page_title: string_from("New Tab"),
            scroll: 0,
            history: Vec::new(),
            selected_link_index: 0,
            input_mode: InputMode::Normal,
            status_message: string_from("Ready"),
            html_source: String::new(),
            is_source_view: false,
            document,
            cursor_line: 0,
            cursor_char: 0,
            selection: None,
            search_state: None,
            download_state: None,
            download_prompt: None,
        }
    }

    /// Puts the tab into visual mode, anchoring a selection at the cursor.
    pub fn enter_visual_mode(&mut self)
        ensures
            *final(self) == (BrowserTab {
                input_mode: InputMode::Visual,
                selection: Some(
                    Selection {
                        start_line: old(self).cursor_line,
                        start_char: old(self).cursor_char,
                        end_line: old(self).cursor_line,
                        end_char: old(self).cursor_char,
                    },
                ),
                ..*old(self)
            }),
    {
        self.input_mode = InputMode::Visual;
        self.selection = Some(
            Selection {
                start_line: self.cursor_line,
                start_char: self.cursor_char,
                end_line: self.cursor_line,
                end_char: self.cursor_char,
            },
        );
    }

    /// The text the current selection covers, empty without a selection.
    pub fn extract_text_from_selection(&self) -> (r: String)
        ensures
            match self.selection {
                Some(sel) => r@ == spec_extract(buffer_texts(self.rendered_content@), sel),
                None => r@.len() == 0,
            },
    {
        match &self.selection {
            Some(sel) => sel.extract_text(&self.rendered_content),
            None => String::new(),
        }
    }

    /// Recomputes the search state for a query over the current buffer.
    pub fn perform_search(&mut self, query: &str)
        ensures
            ({
                let st = final(self).search_state->0;
                &&& final(self).search_state is Some
                &&& st.query@ == query@
                &&& st.matches@ == spec_search(
                    buffer_texts(old(self).rendered_content@),
                    query@,
                )
                &&& st.current_match_index == 0
                &&& *final(self) == (BrowserTab {
                    search_state: final(self).search_state,
                    ..*old(self)
                })
            }),
    {
        let matches = search_lines(&self.rendered_content, query);
        self.search_state = Some(
            SearchState { query: string_from(query), matches, current_match_index: 0 },
        );
    }

    /// Steps to the next match, cyclically; without matches nothing moves.
    pub fn next_search_match(&mut self)
        ensures
            ({
                match old(self).search_state {
                    None => *final(self) == *old(self),
                    Some(st) => {
                        if st.matches@.len() == 0 {
                            *final(self) == *old(self)
                        } else {
                            let cur = if st.current_match_index < st.matches@.len() {
                                st.current_match_index as int
                            } else {
                                0
                            };
                            let nxt = (cur + 1) % st.matches@.len() as int;
                            &&& final(self).search_state is Some
                            &&& final(self).search_state->0.current_match_index == nxt
                            &&& final(self).search_state->0.query == st.query
                            &&& final(self).search_state->0.matches == st.matches
                            &&& *final(self) == (BrowserTab {
                                search_state: final(self).search_state,
                                ..*old(self)
                            })
                        }
                    },
                }
            }),
    {
        match &mut self.search_state {
            None => {},
            Some(st) => {
                let len = st.matches.len();
                if len > 0 {
                    let cur = if st.current_match_index < len {
                        st.current_match_index
                    } else {
                        0
                    };
                    st.current_match_index = crate::links::next_link_index(cur, len);
                }
            },
        }
    }

    /// Steps to the previous match, cyclically; without matches nothing
    /// moves.
    pub fn previous_search_match(&mut self)
        ensures
            ({
                match old(self).search_state {
                    None => *final(self) == *old(self),
                    Some(st) => {
                        if st.matches@.len() == 0 {
                            *final(self) == *old(self)
                        } else {
                            let cur = if st.current_match_index < st.matches@.len() {
                                st.current_match_index as int
                            } else {
                                0
                            };
                            let prv = if cur > 0 {
                                cur - 1
                            } else {
                                st.matches@.len() - 1
                            };
                            &&& final(self).search_state is Some
                            &&& final(self).search_state->0.current_match_index == prv
                            &&& final(self).search_state->0.query == st.query
                            &&& final(self).search_state->0.matches == st.matches
                            &&& *final(self) == (BrowserTab {
                                search_state: final(self).search_state,
                                ..*old(self)
                            })
                        }
                    },
                }
            }),
    {
        match &mut self.search_state {
            None => {},
            Some(st) => {
                let len = st.matches.len();
                if len > 0 {
                    let cur = if st.current_match_index < len {
                        st.current_match_index
                    } else {
                        0
                    };
                    st.current_match_index = crate::links::previous_link_index(cur, len);
                }
            },
        }
    }

    /// Leaves search mode and drops the search state.
    pub fn clear_search(&mut self)
        ensures
            final(self).search_state is None,
            final(self).input_mode == InputMode::Normal,
            final(self).status_message@ == "Ready"@,
            *final(self) == (BrowserTab {
                search_state: None,
                input_mode: InputMode::Normal,
                status_message: final(self).status_message,
                ..*old(self)
            }),
    {
        self.search_state = None;
        self.input_mode = InputMode::Normal;
        self.status_message = string_from("Ready");
    }

    /// Asks the user whether to download the given URL.
    pub fn initiate_download_request(&mut self, url: String)
        ensures
            final(self).download_prompt is Some,
            final(self).download_prompt->0.url == url,
            final(self).status_message@ == "Download file? (y/n)"@,
            *final(self) == (BrowserTab {
                download_prompt: final(self).download_prompt,
                status_message: final(self).status_message,
                ..*old(self)
            }),
    {
        self.download_prompt = Some(DownloadPrompt { url });
        self.status_message = string_from("Download file? (y/n)");
    }

    /// Scrolls the viewport so the given line is visible, per the
    /// autoscroll rule.
    pub fn scroll_line_into_view(&mut self, line_index: usize, viewport_height: usize)
        ensures
            *final(self) == (BrowserTab {
                scroll: final(self).scroll,
                ..*old(self)
            }),
            final(self).scroll == spec_autoscroll(
                line_index as nat,
                old(self).scroll as nat,
                viewport_height as nat,
            ),
    {
        self.scroll = autoscroll(line_index, self.scroll, viewport_height);
    }

    /// Lays the tab's page out again for the given terminal width: the
    /// parsed document through the layout engine, or, in source view,
    /// the raw HTML text line by line with no link regions.
    pub fn render_tab(&mut self, width: u16)
        ensures
            ({
                let content_width: nat = if width >= 2 {
                    (width - 2) as nat
                } else {
                    0
                };
                &&& *final(self) == (BrowserTab {
                    rendered_content: final(self).rendered_content,
                    link_regions: final(self).link_regions,
                    ..*old(self)
                })
                &&& (old(self).is_source_view ==> tab_lines(*final(self)) =~~= spec_source_lines(
                    old(self).html_source@,
                ).map_values(|t: Seq<char>| plain_line(t)) && tab_links(*final(self)).len() == 0)
                &&& (!old(self).is_source_view ==> tab_lines(*final(self)) == spec_layout(
                    old(self).document,
                    content_width,
                ).lines && tab_links(*final(self)) == spec_layout(
                    old(self).document,
                    content_width,
                ).links)
            }),
    {
        let content_width: usize = if width >= 2 {
            (width - 2) as usize
        } else {
            0
        };
        if self.is_source_view {
            self.rendered_content = source_lines(self.html_source.as_str());
            self.link_regions = Vec::new();
            proof {
                assert(tab_links(*self) =~= Seq::<RegionM>::empty());
            }
        } else {
            let rend = crate::renderer::layout(&self.document, content_width);
            self.rendered_content = rend.lines;
            self.link_regions = rend.links;
        }
    }

    /// Length helper for `source_lines`.
    fn line_len_at(chars: &[char], from: usize) -> (r: usize)
        requires
            from <= chars@.len(),
        ensures
            r == line_run(chars@.skip(from as int)),
            from + r <= chars@.len(),
    {
        let n = chars.len();
        let mut i: usize = from;
        loop
            invariant_except_break
                from <= i <= n,
                n == chars@.len(),
                line_run(chars@.skip(from as int)) == (i - from) + line_run(
                    chars@.skip(i as int),
                ),
            ensures
                from <= i <= n,
                line_run(chars@.skip(from as int)) == i - from,
            decreases n - i,
        {
            if i == n {
                proof {
                    assert(chars@.skip(i as int).len() == 0);
                }
                break ;
            }
            proof {
                assert(chars@.skip(i as int)[0] == chars@[i as int]);
            }
            if chars[i] == '\n' {
                break ;
            }
            proof {
                assert(chars@.skip(i as int).drop_first() =~= chars@.skip(i + 1));
            }
            i = i + 1;
        }
        i - from
    }
}

/// Builds one element node.
fn el(tag: &str, children: Vec<DomNode>) -> (r: DomNode)
    ensures
        r == (DomNode::Element {
            tag: r->Element_tag,
            href: None::<String>,
            alt: None::<String>,
            hidden: false,
            children: r->Element_children,
        }),
        r->Element_tag@ == tag@,
        r->Element_children == children,
{
    DomNode::Element {
        tag: string_from(tag),
        href: None,
        alt: None,
        hidden: false,
        children,
    }
}

/// Builds one text node.
fn txt(text: &str) -> (r: DomNode)
    ensures
        r is Text,
        r->Text_0@ == text@,
{
    DomNode::Text(string_from(text))
}

/// A paragraph of the help page: a bold key name followed by its
/// explanation.
fn help_entry(key: &str, explanation: &str) -> (r: DomNode) {
    let mut b_children: Vec<DomNode> = Vec::new();
    b_children.push(txt(key));
    let mut p_children: Vec<DomNode> = Vec::new();
    p_children.push(el("b", b_children));
    p_children.push(txt(explanation));
    el("p", p_children)
}

/// A heading of the help page.
fn help_heading(title: &str) -> (r: DomNode) {
    let mut h_children: Vec<DomNode> = Vec::new();
    h_children.push(txt(title));
    el("h1", h_children)
}

/// The built-in help page every new tab shows.
fn help_document() -> (r: DomNode) {
    let mut kids: Vec<DomNode> = Vec::new();
    kids.push(help_heading("NAVIGATION"));
    kids.push(help_entry("Up / Down Arrow:", " Scroll page by 1 line."));
    kids.push(help_entry("Scroll Wheel:", " Scroll page by 3 lines."));
    kids.push(help_entry("Tab:", " Cycle selection through links on the screen."));
    kids.push(help_entry("Enter:", " Open the currently selected link."));
    kids.push(help_entry("Left Click:", " Open the clicked link."));
    kids.push(help_entry("Ctrl + Click:", " Open the clicked link in a New Tab."));
    kids.push(help_entry("Backspace / Left Arrow:", " Go back in history."));
    kids.push(el("hr", Vec::new()));
    kids.push(help_heading("BROWSER CONTROL"));
    kids.push(help_entry("t:", " Open the currently selected link in a New Tab."));
    kids.push(help_entry("n:", " Open a blank New Tab."));
    kids.push(help_entry("w:", " Close the current tab."));
    kids.push(help_entry("[ and ]:", " Switch between Previous / Next tab."));
    kids.push(help_entry("e:", " Enter 'Edit Mode' to type a new URL."));
    kids.push(help_entry("p:", " Toggle i2p proxy mode."));
    kids.push(help_entry("q:", " Quit the browser."));
    kids.push(help_entry("v:", " Toggle Page Source View."));
    kids.push(el("hr", Vec::new()));
    kids.push(help_heading("EDIT MODE (Press 'e')"));
    kids.push(help_entry("Typing:", " Type a URL or a search query."));
    kids.push(help_entry("Enter:", " Submit the request."));
    kids.push(help_entry("Esc:", " Cancel and return to Normal Mode."));
    kids.push(el("hr", Vec::new()));
    kids.push(help_heading("SUPPLEMENTARY NOTES"));
    let mut note: Vec<DomNode> = Vec::new();
    note.push(txt("Weird things may happen on Javascript-heavy sites with anti-AI scraping measures."));
    kids.push(el("p", note));
    el("body", kids)
}

/// The error page shown when a fetch fails.
pub fn error_document(msg: &str) -> (r: DomNode) {
    let mut kids: Vec<DomNode> = Vec::new();
    kids.push(help_heading("Error"));
    kids.push(el("hr", Vec::new()));
    let mut p_children: Vec<DomNode> = Vec::new();
    p_children.push(txt(msg));
    kids.push(el("p", p_children));
    el("body", kids)
}

/// The raw text a failed fetch records as the page source.
pub fn error_html(msg: &str) -> (r: String)
    ensures
        r@ == "<h1>Error</h1><hr><p style='color:red'>"@ + msg@ + "</p>"@,
{
    let mut r = string_from("<h1>Error</h1><hr><p style='color:red'>");
    r.append(msg);
    r.append("</p>");
    r
}

/// The pure browser state: the open tabs and which one is active, the
/// id counter for network-request routing, and the proxy toggle.
pub struct BrowserState {
    pub tabs: Vec<BrowserTab>,
    pub active_tab_index: usize,
    pub id_counter: usize,
    pub i2p_mode: bool,
}

/// The browser always shows one of its tabs.
pub open spec fn state_wf(s: BrowserState) -> bool {
    s.tabs@.len() > 0 && s.active_tab_index < s.tabs@.len()
}

impl BrowserState {
    /// A browser with one tab, about to show the default start page.
    pub fn new() -> (s: BrowserState)
        ensures
            state_wf(s),
            s.tabs@.len() == 1,
            s.active_tab_index == 0,
            s.id_counter == 1,
            s.i2p_mode == false,
            s.tabs@[0].id == 0,
            s.tabs@[0].url_input@ == "https://www.rust-lang.org"@,
    {
        let initial = BrowserTab::new(0, string_from("https://www.rust-lang.org"));
        let mut tabs: Vec<BrowserTab> = Vec::new();
        tabs.push(initial);
        BrowserState { tabs, active_tab_index: 0, id_counter: 1, i2p_mode: false }
    }

    /// Opens a new tab on the given URL (the default start page when
    /// none is given) and switches to it.
    pub fn add_tab(&mut self, url: Option<String>)
        requires
            state_wf(*old(self)),
        ensures
            state_wf(*final(self)),
            final(self).tabs@.len() == old(self).tabs@.len() + 1,
            final(self).tabs@.subrange(0, old(self).tabs@.len() as int) == old(self).tabs@,
            final(self).tabs@.last().id == old(self).id_counter,
            final(self).tabs@.last().url_input@ == (match url {
                Some(u) => u@,
                None => "https://www.rust-lang.org"@,
            }),
            final(self).active_tab_index == old(self).tabs@.len(),
            final(self).id_counter == sat_inc(old(self).id_counter),
            final(self).i2p_mode == old(self).i2p_mode,
    {
        let start_url = match url {
            Some(u) => u,
            None => string_from("https://www.rust-lang.org"),
        };
        let new_tab = BrowserTab::new(self.id_counter, start_url);
        self.tabs.push(new_tab);
        self.active_tab_index = self.tabs.len() - 1;
        self.id_counter = self.id_counter.saturating_add(1);
        proof {
            assert(final(self).tabs@.subrange(0, old(self).tabs@.len() as int) =~= old(
                self,
            ).tabs@);
        }
    }

    /// Closes the active tab, unless it is the last one; the active
    /// index stays on the same position, clamped to the new end.
    pub fn close_tab(&mut self)
        requires
            state_wf(*old(self)),
        ensures
            state_wf(*final(self)),
            old(self).tabs@.len() == 1 ==> *final(self) == *old(self),
            old(self).tabs@.len() > 1 ==> ({
                &&& final(self).tabs@ == old(self).tabs@.remove(old(self).active_tab_index as int)
                &&& final(self).active_tab_index == (if old(self).active_tab_index + 1
                    == old(self).tabs@.len() && old(self).active_tab_index > 0 {
                    (old(self).active_tab_index - 1) as usize
                } else {
                    old(self).active_tab_index
                })
                &&& final(self).id_counter == old(self).id_counter
                &&& final(self).i2p_mode == old(self).i2p_mode
            }),
    {
        if self.tabs.len() > 1 {
            self.tabs.remove(self.active_tab_index);
            if self.active_tab_index >= self.tabs.len() {
                self.active_tab_index = self.tabs.len() - 1;
            }
        }
    }

    /// Opens a URL in a new tab and switches to it; the caller then
    /// submits the request.
    pub fn open_link_in_new_tab(&mut self, url: String)
        requires
            state_wf(*old(self)),
        ensures
            state_wf(*final(self)),
            final(self).tabs@.len() == old(self).tabs@.len() + 1,
            final(self).tabs@.subrange(0, old(self).tabs@.len() as int) == old(self).tabs@,
            final(self).tabs@.last().id == old(self).id_counter,
            final(self).tabs@.last().url_input == url,
            final(self).active_tab_index == old(self).tabs@.len(),
            final(self).id_counter == sat_inc(old(self).id_counter),
            final(self).i2p_mode == old(self).i2p_mode,
    {
        let new_tab = BrowserTab::new(self.id_counter, url);
        self.tabs.push(new_tab);
        self.active_tab_index = self.tabs.len() - 1;
        self.id_counter = self.id_counter.saturating_add(1);
        proof {
            assert(final(self).tabs@.subrange(0, old(self).tabs@.len() as int) =~= old(
                self,
            ).tabs@);
        }
    }

    /// Rewrites the active tab's address into the URL to fetch and
    /// returns it: what the network side then requests.
    pub fn prepare_submit(&mut self) -> (target: String)
        requires
            state_wf(*old(self)),
        ensures
            state_wf(*final(self)),
            target@ == crate::network::spec_normalize_target(
                old(self).tabs@[old(self).active_tab_index as int].url_input@,
            ),
            final(self).tabs@ == old(self).tabs@.update(
                old(self).active_tab_index as int,
                final(self).tabs@[old(self).active_tab_index as int],
            ),
            final(self).tabs@[old(self).active_tab_index as int] == (BrowserTab {
                url_input: final(self).tabs@[old(self).active_tab_index as int].url_input,
                ..old(self).tabs@[old(self).active_tab_index as int]
            }),
            final(self).tabs@[old(self).active_tab_index as int].url_input@ == target@,
            final(self).active_tab_index == old(self).active_tab_index,
            final(self).id_counter == old(self).id_counter,
            final(self).i2p_mode == old(self).i2p_mode,
    {
        let idx = self.active_tab_index;
        let tab = &mut self.tabs[idx];
        let target = crate::network::normalize_target_url(tab.url_input.as_str());
        tab.url_input = crate::text::string_from(target.as_str());
        target
    }
}

} // verus!
