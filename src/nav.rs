//! Page navigation: the tabs of the monitoring tool and of the Web3 tool,
//! and how key presses move between them.

use vstd::prelude::*;

verus! {

/// Number of main tabs of the monitoring tool.
pub const MAIN_TAB_COUNT: usize = 4;

/// Number of tabs of the Web3 tool.
pub const WEB3_TAB_COUNT: usize = 2;

/// A key press, as far as navigation tells keys apart.
#[derive(Debug, Clone, Copy, PartialEq, Eq, Structural)]
pub enum Key {
    Char(char),
    Tab,
    BackTab,
    Enter,
    Esc,
    Up,
    Down,
    Other,
}

/// Pages of the monitoring tool.
#[derive(Debug, Clone, Copy, PartialEq, Eq, Structural)]
pub enum Page {
    /// Operating system, kernel and host.
    System,
    /// CPU, memory and disk gauges.
    Metrics,
    /// Table of processes.
    Processes,
    /// Details of the process with this id.
    SingleProcess(u32),
    /// Per-interface network history.
    Network,
}

/// The main tab at `index`; an index past the last tab is clamped to it.
pub open spec fn page_at(index: int) -> Page {
    if index <= 0 {
        Page::System
    } else if index == 1 {
        Page::Metrics
    } else if index == 2 {
        Page::Processes
    } else {
        Page::Network
    }
}

/// `index` clamped to the valid main tabs.
pub open spec fn clamp_tab(index: int) -> int {
    if index < MAIN_TAB_COUNT {
        index
    } else {
        MAIN_TAB_COUNT - 1
    }
}

/// The views of a list of titles.
pub open spec fn title_views(v: Seq<&str>) -> Seq<Seq<char>> {
    v.map_values(|t: &str| t@)
}

impl Page {
    /// Titles of the main tabs, in tab order; a process's own page is no tab.
    pub fn titles() -> (r: Vec<&'static str>)
        ensures
            title_views(r@) == seq!["System"@, "Metrics"@, "Processes"@, "Network"@],
            r@.len() == MAIN_TAB_COUNT,
    {
        let r = vec!["System", "Metrics", "Processes", "Network"];
        assert(title_views(r@) =~= seq!["System"@, "Metrics"@, "Processes"@, "Network"@]);
        r
    }

    /// The main tab at `index`; an index past the last tab gives the last
    /// one, `Network`.
    pub fn from_index(index: usize) -> (r: Self)
        ensures
            r == page_at(index as int),
            index >= MAIN_TAB_COUNT ==> r == Page::Network,
    {
        match index {
            0 => Page::System,
            1 => Page::Metrics,
            2 => Page::Processes,
            _ => Page::Network,
        }
    }
}

/// The tab that a digit key selects: `1` the first, each next digit the next
/// tab, clamped to the last; no tab for any other character.
pub open spec fn digit_tab(c: char, count: nat) -> Option<nat> {
    if '1' <= c && c <= '9' {
        let i = (c as int - '1' as int) as nat;
        Some(if i < count { i } else { (count - 1) as nat })
    } else {
        None
    }
}

/// The tab a digit key selects, among `count` tabs.
fn tab_of_digit(c: char, count: usize) -> (r: Option<usize>)
    requires
        count > 0,
    ensures
        r matches Some(i) ==> digit_tab(c, count as nat) == Some(i as nat),
        r is None ==> digit_tab(c, count as nat) is None,
{
    if '1' <= c && c <= '9' {
        let i = (c as u32 - '1' as u32) as usize;
        Some(
            if i < count {
                i
            } else {
                count - 1
            },
        )
    } else {
        None
    }
}

/// Navigation state of the monitoring tool.
pub struct NavigationState {
    /// False once the user has asked to quit.
    pub render: bool,
    /// Page on screen.
    pub current_page: Page,
    /// Selected main tab.
    pub tab_index: usize,
    /// Row of the process table under the cursor.
    pub table_cursor: usize,
    /// Number of rows of the process table.
    pub process_count: usize,
    /// Process of the row under the cursor, if known.
    pub selected_pid: Option<u32>,
}

/// State `s` on main tab `i`.
pub open spec fn on_tab(s: NavigationState, i: int) -> NavigationState {
    NavigationState { tab_index: i as usize, current_page: page_at(i), ..s }
}

/// The state after key `key` in state `s`.
pub open spec fn after_key(s: NavigationState, key: Key) -> NavigationState {
    match key {
        Key::Char('q') => NavigationState { render: false, ..s },
        Key::Tab => on_tab(s, (s.tab_index + 1) % (MAIN_TAB_COUNT as int)),
        Key::BackTab => on_tab(
            s,
            if s.tab_index == 0 {
                MAIN_TAB_COUNT - 1
            } else {
                s.tab_index - 1
            },
        ),
        Key::Char(c) => match digit_tab(c, MAIN_TAB_COUNT as nat) {
            Some(i) => on_tab(s, i as int),
            None => s,
        },
        Key::Enter => if s.current_page == Page::Processes && s.selected_pid is Some {
            NavigationState { current_page: Page::SingleProcess(s.selected_pid.unwrap()), ..s }
        } else {
            s
        },
        Key::Esc => if s.current_page is SingleProcess {
            NavigationState { current_page: Page::Processes, ..s }
        } else {
            s
        },
        Key::Down => if s.current_page == Page::Processes && s.table_cursor + 1 < s.process_count {
            NavigationState { table_cursor: (s.table_cursor + 1) as usize, ..s }
        } else {
            s
        },
        Key::Up => if s.current_page == Page::Processes && s.table_cursor > 0 {
            NavigationState { table_cursor: (s.table_cursor - 1) as usize, ..s }
        } else {
            s
        },
        Key::Other => s,
    }
}

impl NavigationState {
    /// Well formed: a valid tab, the cursor on a row (or at 0 on an empty
    /// table), and the page of the tab unless a process is inspected from
    /// the process table.
    pub open spec fn wf(&self) -> bool {
        &&& self.tab_index < MAIN_TAB_COUNT
        &&& (self.process_count == 0 ==> self.table_cursor == 0)
        &&& (self.process_count > 0 ==> self.table_cursor < self.process_count)
        &&& match self.current_page {
            Page::SingleProcess(_) => self.tab_index == 2,
            p => p == page_at(self.tab_index as int),
        }
    }

    /// The first tab, nothing selected, running.
    pub fn new() -> (r: Self)
        ensures
            r.wf(),
            r.render,
            r.current_page == Page::System,
            r.tab_index == 0,
            r.selected_pid is None,
    {
        NavigationState {
            render: true,
            current_page: Page::System,
            tab_index: 0,
            table_cursor: 0,
            process_count: 0,
            selected_pid: None,
        }
    }

    /// Moves to main tab `index`; an index past the last tab selects the
    /// last one.
    pub fn select_tab(&mut self, index: usize)
        requires
            old(self).wf(),
        ensures
            final(self).wf(),
            *final(self) == on_tab(*old(self), clamp_tab(index as int)),
    {
        let i = if index < MAIN_TAB_COUNT {
            index
        } else {
            MAIN_TAB_COUNT - 1
        };
        self.tab_index = i;
        self.current_page = Page::from_index(i);
    }

    /// Moves to the next main tab, from the last to the first.
    pub fn next_tab(&mut self)
        requires
            old(self).wf(),
        ensures
            final(self).wf(),
            *final(self) == on_tab(*old(self), (old(self).tab_index + 1) % (MAIN_TAB_COUNT as int)),
            old(self).tab_index == MAIN_TAB_COUNT - 1 ==> final(self).tab_index == 0,
    {
        let next = (self.tab_index + 1) % MAIN_TAB_COUNT;
        self.select_tab(next);
    }

    /// Moves to the previous main tab, from the first to the last.
    pub fn previous_tab(&mut self)
        requires
            old(self).wf(),
        ensures
            final(self).wf(),
            *final(self) == on_tab(
                *old(self),
                if old(self).tab_index == 0 {
                    MAIN_TAB_COUNT - 1
                } else {
                    old(self).tab_index - 1
                },
            ),
            old(self).tab_index == 0 ==> final(self).tab_index == MAIN_TAB_COUNT - 1,
    {
        let previous = if self.tab_index > 0 {
            self.tab_index - 1
        } else {
            MAIN_TAB_COUNT - 1
        };
        self.select_tab(previous);
    }

    /// Takes in the process ids of a new process table, row by row: the
    /// cursor stays on a row (the last one if the table shrank below it) and
    /// the selected process is the one under the cursor.
    pub fn set_process_rows(&mut self, pids: &Vec<u32>)
        requires
            old(self).wf(),
        ensures
            final(self).wf(),
            final(self).process_count == pids@.len(),
            final(self).table_cursor == (if pids@.len() == 0 {
                0
            } else if old(self).table_cursor < pids@.len() {
                old(self).table_cursor as int
            } else {
                pids@.len() - 1
            }),
            final(self).selected_pid == (if pids@.len() == 0 {
                None
            } else {
                Some(pids@[final(self).table_cursor as int])
            }),
            final(self).current_page == old(self).current_page,
            final(self).tab_index == old(self).tab_index,
            final(self).render == old(self).render,
    {
        let count = pids.len();
        self.process_count = count;
        if count == 0 {
            self.table_cursor = 0;
            self.selected_pid = None;
        } else {
            if self.table_cursor >= count {
                self.table_cursor = count - 1;
            }
            self.selected_pid = Some(pids[self.table_cursor]);
        }
    }

    /// Handles one key press. `q` stops; Tab and Shift-Tab cycle the main
    /// tabs; a digit jumps to its tab; on the process table the arrows move
    /// the cursor and Enter opens the selected process; Esc on a process
    /// returns to the table. Any other key changes nothing.
    pub fn handle_key(&mut self, key: Key)
        requires
            old(self).wf(),
        ensures
            final(self).wf(),
            *final(self) == after_key(*old(self), key),
            old(self).tab_index == MAIN_TAB_COUNT - 1 && key == Key::Tab ==> final(self).tab_index
                == 0,
            old(self).tab_index == 0 && key == Key::BackTab ==> final(self).tab_index
                == MAIN_TAB_COUNT - 1,
            key == Key::Char('2') ==> final(self).tab_index == 1 && final(self).current_page
                == Page::Metrics,
    {
        match key {
            Key::Char('q') => {
                self.render = false;
            },
            Key::Tab => {
                self.next_tab();
            },
            Key::BackTab => {
                self.previous_tab();
            },
            Key::Char(c) => {
                match tab_of_digit(c, MAIN_TAB_COUNT) {
                    Some(i) => {
                        self.select_tab(i);
                    },
                    None => {},
                }
            },
            Key::Enter => {
                if self.current_page == Page::Processes {
                    match self.selected_pid {
                        Some(pid) => {
                            self.current_page = Page::SingleProcess(pid);
                        },
                        None => {},
                    }
                }
            },
            Key::Esc => {
                if let Page::SingleProcess(_) = self.current_page {
                    self.current_page = Page::Processes;
                }
            },
            Key::Down => {
                if self.current_page == Page::Processes && self.table_cursor + 1
                    < self.process_count {
                    self.table_cursor = self.table_cursor + 1;
                }
            },
            Key::Up => {
                if self.current_page == Page::Processes && self.table_cursor > 0 {
                    self.table_cursor = self.table_cursor - 1;
                }
            },
            Key::Other => {},
        }
    }
}

/// Pages of the Web3 tool.
#[derive(Debug, Clone, Copy, PartialEq, Eq, Structural)]
pub enum Web3Page {
    /// Checking an address.
    AddressValidation,
    /// Balance and activity of an account.
    Portfolio,
}

/// The Web3 tab at `index`; an index past the last tab is clamped to it.
pub open spec fn web3_page_at(index: int) -> Web3Page {
    if index >= 1 {
        Web3Page::Portfolio
    } else {
        Web3Page::AddressValidation
    }
}

impl Web3Page {
    /// Titles of the Web3 tabs, in tab order.
    pub fn titles() -> (r: Vec<&'static str>)
        ensures
            title_views(r@) == seq!["Address Validation"@, "Portfolio"@],
            r@.len() == WEB3_TAB_COUNT,
    {
        let r = vec!["Address Validation", "Portfolio"];
        assert(title_views(r@) =~= seq!["Address Validation"@, "Portfolio"@]);
        r
    }

    /// The Web3 tab at `index`; an index past the last tab gives the last
    /// one, `Portfolio`.
    pub fn from_index(index: usize) -> (r: Self)
        ensures
            r == web3_page_at(index as int),
            index >= WEB3_TAB_COUNT ==> r == Web3Page::Portfolio,
    {
        match index {
            0 => Web3Page::AddressValidation,
            _ => Web3Page::Portfolio,
        }
    }
}

/// What the Web3 tool asks of its surroundings after a key press.
#[derive(Debug, Clone, Copy, PartialEq, Eq, Structural)]
pub enum Web3Action {
    /// Nothing beyond a redraw.
    Redraw,
    /// Start fetching the portfolio in the background; its result arrives
    /// later and is never awaited on the loop's thread.
    FetchPortfolio,
}

/// Navigation state of the Web3 tool.
pub struct Web3State {
    /// False once the user has asked to quit.
    pub render: bool,
    /// Page on screen.
    pub current_page: Web3Page,
    /// Selected tab.
    pub tab_index: usize,
}

/// Web3 state `s` on tab `i`.
pub open spec fn on_web3_tab(s: Web3State, i: int) -> Web3State {
    Web3State { tab_index: i as usize, current_page: web3_page_at(i), ..s }
}

/// The Web3 state after key `key` in state `s`.
pub open spec fn web3_after_key(s: Web3State, key: Key) -> Web3State {
    match key {
        Key::Char('q') => Web3State { render: false, ..s },
        Key::Tab => on_web3_tab(s, (s.tab_index + 1) % (WEB3_TAB_COUNT as int)),
        Key::BackTab => on_web3_tab(
            s,
            if s.tab_index == 0 {
                WEB3_TAB_COUNT - 1
            } else {
                s.tab_index - 1
            },
        ),
        Key::Char('1') => on_web3_tab(s, 0),
        Key::Char('2') => on_web3_tab(s, 1),
        _ => s,
    }
}

impl Web3State {
    /// Well formed: a valid tab, whose page is on screen.
    pub open spec fn wf(&self) -> bool {
        &&& self.tab_index < WEB3_TAB_COUNT
        &&& self.current_page == web3_page_at(self.tab_index as int)
    }

    /// The address validation page, running.
    pub fn new() -> (r: Self)
        ensures
            r.wf(),
            r.render,
            r.current_page == Web3Page::AddressValidation,
            r.tab_index == 0,
    {
        Web3State { render: true, current_page: Web3Page::AddressValidation, tab_index: 0 }
    }

    /// Moves to the next tab, from the last to the first.
    pub fn next_tab(&mut self)
        requires
            old(self).wf(),
        ensures
            final(self).wf(),
            *final(self) == on_web3_tab(*old(self), (old(self).tab_index + 1) % (
            WEB3_TAB_COUNT as int)),
    {
        self.tab_index = (self.tab_index + 1) % WEB3_TAB_COUNT;
        self.current_page = Web3Page::from_index(self.tab_index);
    }

    /// Moves to the previous tab, from the first to the last.
    pub fn previous_tab(&mut self)
        requires
            old(self).wf(),
        ensures
            final(self).wf(),
            *final(self) == on_web3_tab(
                *old(self),
                if old(self).tab_index == 0 {
                    WEB3_TAB_COUNT - 1
                } else {
                    old(self).tab_index - 1
                },
            ),
    {
        if self.tab_index > 0 {
            self.tab_index = self.tab_index - 1;
        } else {
            self.tab_index = WEB3_TAB_COUNT - 1;
        }
        self.current_page = Web3Page::from_index(self.tab_index);
    }

    /// Handles one key press that no input field took: `q` stops, Tab and
    /// Shift-Tab cycle the tabs, `1` and `2` jump to their tab, and opening
    /// the portfolio asks for its data. Any other key changes nothing.
    pub fn handle_key(&mut self, key: Key) -> (r: Web3Action)
        requires
            old(self).wf(),
        ensures
            final(self).wf(),
            *final(self) == web3_after_key(*old(self), key),
            key == Key::Char('q') ==> *final(self) == (Web3State { render: false, ..*old(self) }),
            key == Key::Char('2') ==> final(self).tab_index == 1,
            r == (if key == Key::Char('2') {
                Web3Action::FetchPortfolio
            } else {
                Web3Action::Redraw
            }),
    {
        match key {
            Key::Char('q') => {
                self.render = false;
            },
            Key::Tab => {
                self.next_tab();
            },
            Key::BackTab => {
                self.previous_tab();
            },
            Key::Char('1') => {
                self.tab_index = 0;
                self.current_page = Web3Page::AddressValidation;
            },
            Key::Char('2') => {
                self.tab_index = 1;
                self.current_page = Web3Page::Portfolio;
                return Web3Action::FetchPortfolio;
            },
            _ => {},
        }
        Web3Action::Redraw
    }
}

} // verus!
