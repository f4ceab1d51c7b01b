//! The pager engine: decoding keys into commands, the navigation state
//! machine, and the layout of each frame.

use vstd::prelude::*;
use crate::collect::{views_of, Diagnostic};
use crate::text::{decimal, decimal_of};

verus! {

/// The smallest terminal height that the layout assumes.
pub const MIN_ROWS: u16 = 5;

/// Rows taken by the header, the blank line under it and the key legend.
pub const RESERVED_ROWS: u16 = 4;

/// A key, as far as the pager tells keys apart.
#[derive(Clone, Copy, Debug, PartialEq, Eq, Structural)]
pub enum KeyName {
    Left,
    Right,
    Up,
    Down,
    Home,
    End,
    Esc,
    Char(char),
    Other,
}

/// A keyboard event: the key, whether Control was held, and whether the key
/// went down (rather than being repeated or released).
#[derive(Clone, Copy, Debug, PartialEq, Eq, Structural)]
pub struct KeyPress {
    pub code: KeyName,
    pub control: bool,
    pub press: bool,
}

/// What a key asks the pager to do.
#[derive(Clone, Copy, Debug, PartialEq, Eq, Structural)]
pub enum Command {
    Previous,
    Next,
    ScrollUp,
    ScrollDown,
    First,
    Last,
    Quit,
    Ignore,
}

/// The command of a key: Control-C and Escape quit, the arrows move and
/// scroll, Home and End jump; anything else, and any key that is not a press,
/// is ignored.
pub open spec fn command_spec(k: KeyPress) -> Command {
    if !k.press {
        Command::Ignore
    } else if k.control {
        if k.code == KeyName::Char('c') {
            Command::Quit
        } else {
            Command::Ignore
        }
    } else {
        match k.code {
            KeyName::Esc => Command::Quit,
            KeyName::Left => Command::Previous,
            KeyName::Right => Command::Next,
            KeyName::Up => Command::ScrollUp,
            KeyName::Down => Command::ScrollDown,
            KeyName::Home => Command::First,
            KeyName::End => Command::Last,
            _ => Command::Ignore,
        }
    }
}

/// Decodes a keyboard event into a command.
pub fn command_of(k: KeyPress) -> (r: Command)
    ensures
        r == command_spec(k),
{
    if !k.press {
        Command::Ignore
    } else if k.control {
        match k.code {
            KeyName::Char(c) => {
                if c == 'c' {
                    Command::Quit
                } else {
                    Command::Ignore
                }
            },
            _ => Command::Ignore,
        }
    } else {
        match k.code {
            KeyName::Esc => Command::Quit,
            KeyName::Left => Command::Previous,
            KeyName::Right => Command::Next,
            KeyName::Up => Command::ScrollUp,
            KeyName::Down => Command::ScrollDown,
            KeyName::Home => Command::First,
            KeyName::End => Command::Last,
            _ => Command::Ignore,
        }
    }
}

/// Which diagnostic is shown, and how many of its lines are scrolled past.
#[derive(Clone, Copy, Debug, PartialEq, Eq, Structural)]
pub struct NavState {
    pub current_index: usize,
    pub scroll_offset: usize,
}

/// The state after `cmd`, over a buffer of `len` diagnostics.
pub open spec fn next_nav(s: NavState, cmd: Command, len: nat) -> NavState {
    match cmd {
        Command::Previous => if s.current_index > 0 {
            NavState { current_index: (s.current_index - 1) as usize, scroll_offset: 0 }
        } else {
            s
        },
        Command::Next => if s.current_index + 1 < len {
            NavState { current_index: (s.current_index + 1) as usize, scroll_offset: 0 }
        } else {
            s
        },
        Command::First => NavState { current_index: 0, scroll_offset: 0 },
        Command::Last => NavState { current_index: (len - 1) as usize, scroll_offset: 0 },
        Command::ScrollUp => if s.scroll_offset > 0 {
            NavState { scroll_offset: (s.scroll_offset - 1) as usize, ..s }
        } else {
            s
        },
        Command::ScrollDown => if s.scroll_offset < usize::MAX {
            NavState { scroll_offset: (s.scroll_offset + 1) as usize, ..s }
        } else {
            s
        },
        Command::Quit | Command::Ignore => s,
    }
}

/// What the caller does after a command.
#[derive(Clone, Copy, Debug, PartialEq, Eq, Structural)]
pub enum Action {
    /// The state changed: draw the frame again.
    Redraw,
    /// Nothing changed: wait for the next key.
    Stay,
    /// Leave the pager and restore the terminal.
    Exit,
}

/// The action that follows `cmd` in state `s`.
pub open spec fn action_spec(s: NavState, cmd: Command, len: nat) -> Action {
    if cmd == Command::Quit {
        Action::Exit
    } else if next_nav(s, cmd, len) != s {
        Action::Redraw
    } else {
        Action::Stay
    }
}

/// The rows of the viewport: `scroll` lines of `lines` skipped, then `height`
/// rows, blank past the end of the text.
pub open spec fn body_of(lines: Seq<Seq<char>>, scroll: nat, height: nat) -> Seq<Seq<char>> {
    Seq::new(
        height,
        |i: int|
            if scroll + i < lines.len() {
                lines[scroll + i]
            } else {
                Seq::<char>::empty()
            },
    )
}

/// The header text for diagnostic `position` (counted from 1) of `total`.
pub open spec fn header_of(position: nat, total: nat) -> Seq<char> {
    "Displaying Message "@ + decimal_of(position) + " of "@ + decimal_of(total)
}

/// The rows a terminal of `rows` rows leaves for the viewport.
pub open spec fn viewport_spec(rows: u16) -> u16 {
    if rows < MIN_ROWS {
        (MIN_ROWS - RESERVED_ROWS) as u16
    } else {
        (rows - RESERVED_ROWS) as u16
    }
}

/// The viewport height for a terminal of `rows` rows; the height is taken to
/// be at least the minimum, so that the viewport never collapses.
pub fn viewport_height(rows: u16) -> (r: u16)
    ensures
        r == viewport_spec(rows),
        r >= 1,
{
    if rows < MIN_ROWS {
        MIN_ROWS - RESERVED_ROWS
    } else {
        rows - RESERVED_ROWS
    }
}

/// One screen of the pager: the position shown, the buffer's length, and the
/// rows of the viewport.
#[derive(Clone, Debug)]
pub struct Frame {
    pub position: usize,
    pub total: usize,
    pub body: Vec<String>,
}

impl View for Frame {
    type V = (nat, nat, Seq<Seq<char>>);

    open spec fn view(&self) -> (nat, nat, Seq<Seq<char>>) {
        (self.position as nat, self.total as nat, self.body@.map_values(|l: String| l@))
    }
}

impl Frame {
    /// The header line of the frame.
    pub fn header(&self) -> (r: String)
        ensures
            r@ == header_of(self.position as nat, self.total as nat),
    {
        let mut h = String::from_str("Displaying Message ");
        let p = decimal(self.position);
        h.append(p.as_str());
        h.append(" of ");
        let t = decimal(self.total);
        h.append(t.as_str());
        proof {
            reveal_strlit("Displaying Message ");
            reveal_strlit(" of ");
        }
        h
    }
}

impl NavState {
    /// The state after `cmd`, over a buffer of `len` diagnostics.
    pub fn step(self, cmd: Command, len: usize) -> (r: NavState)
        requires
            len > 0,
            self.current_index < len,
        ensures
            r == next_nav(self, cmd, len as nat),
    {
        match cmd {
            Command::Previous => if self.current_index > 0 {
                NavState { current_index: self.current_index - 1, scroll_offset: 0 }
            } else {
                self
            },
            Command::Next => if self.current_index < len - 1 {
                NavState { current_index: self.current_index + 1, scroll_offset: 0 }
            } else {
                self
            },
            Command::First => NavState { current_index: 0, scroll_offset: 0 },
            Command::Last => NavState { current_index: len - 1, scroll_offset: 0 },
            Command::ScrollUp => if self.scroll_offset > 0 {
                NavState { scroll_offset: self.scroll_offset - 1, ..self }
            } else {
                self
            },
            Command::ScrollDown => if self.scroll_offset < usize::MAX {
                NavState { scroll_offset: self.scroll_offset + 1, ..self }
            } else {
                self
            },
            Command::Quit | Command::Ignore => self,
        }
    }
}

/// The rows of the viewport over the lines of one diagnostic.
pub fn viewport_rows(d: &Diagnostic, scroll: usize, height: usize) -> (r: Vec<String>)
    ensures
        r@.map_values(|l: String| l@) == body_of(d@, scroll as nat, height as nat),
{
    let n = d.lines.len();
    let mut rows: Vec<String> = Vec::new();
    let mut i: usize = 0;
    while i < height
        invariant
            i <= height,
            n == d@.len(),
            rows@.len() == i,
            forall|j: int|
                0 <= j < i ==> (#[trigger] rows@[j])@ == body_of(d@, scroll as nat, height as nat)[j],
        decreases height - i,
    {
        if scroll < n && i < n - scroll {
            rows.push(d.lines[scroll + i].clone());
        } else {
            rows.push(String::new());
        }
        i = i + 1;
    }
    assert(rows@.map_values(|l: String| l@) =~= body_of(d@, scroll as nat, height as nat));
    rows
}

/// The pager over a non-empty buffer of diagnostics.
pub struct Pager {
    diagnostics: Vec<Diagnostic>,
    nav: NavState,
}

impl Pager {
    /// The diagnostics shown, as text.
    pub closed spec fn diagnostics_view(&self) -> Seq<Seq<Seq<char>>> {
        views_of(self.diagnostics@)
    }

    /// The navigation state.
    pub closed spec fn nav_state(&self) -> NavState {
        self.nav
    }

    /// The buffer is not empty and the shown diagnostic is one of it.
    pub open spec fn wf(&self) -> bool {
        &&& self.diagnostics_view().len() > 0
        &&& self.nav_state().current_index < self.diagnostics_view().len()
    }

    /// The frame of this pager for a viewport of `height` rows.
    pub open spec fn frame_spec(&self, height: nat) -> (nat, nat, Seq<Seq<char>>) {
        let s = self.nav_state();
        (
            (s.current_index + 1) as nat,
            self.diagnostics_view().len(),
            body_of(self.diagnostics_view()[s.current_index as int], s.scroll_offset as nat, height),
        )
    }

    /// A pager at the first diagnostic, unscrolled; none for an empty buffer.
    pub fn new(diagnostics: Vec<Diagnostic>) -> (r: Option<Pager>)
        ensures
            r is None <==> diagnostics@.len() == 0,
            r matches Some(p) ==> {
                &&& p.wf()
                &&& p.diagnostics_view() == views_of(diagnostics@)
                &&& p.nav_state() == NavState { current_index: 0, scroll_offset: 0 }
            },
    {
        if diagnostics.len() == 0 {
            None
        } else {
            Some(Pager { diagnostics, nav: NavState { current_index: 0, scroll_offset: 0 } })
        }
    }

    /// The number of diagnostics.
    pub fn len(&self) -> (r: usize)
        ensures
            r == self.diagnostics_view().len(),
    {
        self.diagnostics.len()
    }

    /// The navigation state.
    pub fn state(&self) -> (r: NavState)
        ensures
            r == self.nav_state(),
    {
        self.nav
    }

    /// Applies `cmd` and says what the caller does next.
    pub fn handle(&mut self, cmd: Command) -> (r: Action)
        requires
            old(self).wf(),
        ensures
            final(self).wf(),
            final(self).diagnostics_view() == old(self).diagnostics_view(),
            final(self).nav_state() == next_nav(
                old(self).nav_state(),
                cmd,
                old(self).diagnostics_view().len(),
            ),
            r == action_spec(old(self).nav_state(), cmd, old(self).diagnostics_view().len()),
    {
        let before = self.nav;
        let after = before.step(cmd, self.diagnostics.len());
        self.nav = after;
        if cmd == Command::Quit {
            Action::Exit
        } else if after != before {
            Action::Redraw
        } else {
            Action::Stay
        }
    }

    /// Decodes a key and applies its command.
    pub fn handle_key(&mut self, key: KeyPress) -> (r: Action)
        requires
            old(self).wf(),
        ensures
            final(self).wf(),
            final(self).diagnostics_view() == old(self).diagnostics_view(),
            final(self).nav_state() == next_nav(
                old(self).nav_state(),
                command_spec(key),
                old(self).diagnostics_view().len(),
            ),
            r == action_spec(
                old(self).nav_state(),
                command_spec(key),
                old(self).diagnostics_view().len(),
            ),
    {
        let cmd = command_of(key);
        self.handle(cmd)
    }

    /// The frame for a viewport of `height` rows.
    pub fn frame(&self, height: usize) -> (r: Frame)
        requires
            self.wf(),
        ensures
            r@ == self.frame_spec(height as nat),
    {
        let i = self.nav.current_index;
        assert(self.diagnostics@.len() == self.diagnostics_view().len());
        assert(self.diagnostics_view()[i as int] == self.diagnostics@[i as int]@);
        let body = viewport_rows(&self.diagnostics[i], self.nav.scroll_offset, height);
        let n = self.diagnostics.len();
        assert(i < n);
        Frame { position: i + 1, total: n, body }
    }
}

/// Navigation bounds: "previous" on the first diagnostic and "next" on the
/// last do nothing, "first" and "last" land on the ends with the scroll reset,
/// and no command takes the index out of the buffer.
pub proof fn lemma_navigation_bounds(s: NavState, len: nat)
    requires
        0 < len <= usize::MAX,
        s.current_index < len,
    ensures
        s.current_index == 0 ==> next_nav(s, Command::Previous, len) == s,
        s.current_index == len - 1 ==> next_nav(s, Command::Next, len) == s,
        next_nav(s, Command::First, len) == (NavState { current_index: 0, scroll_offset: 0 }),
        next_nav(s, Command::Last, len).current_index == len - 1,
        next_nav(s, Command::Last, len).scroll_offset == 0,
        forall|cmd: Command| #[trigger] next_nav(s, cmd, len).current_index < len,
{
}

/// Scroll floor: "scroll up" at offset 0 does nothing and asks for no redraw;
/// elsewhere it goes back exactly one line.
pub proof fn lemma_scroll_floor(s: NavState, len: nat)
    ensures
        s.scroll_offset == 0 ==> next_nav(s, Command::ScrollUp, len) == s,
        s.scroll_offset == 0 ==> action_spec(s, Command::ScrollUp, len) == Action::Stay,
        s.scroll_offset > 0 ==> next_nav(s, Command::ScrollUp, len).scroll_offset
            == s.scroll_offset - 1,
{
}

/// Scroll independence: any command that changes the shown diagnostic leaves
/// the new one unscrolled, whatever the offset was.
pub proof fn lemma_moving_resets_scroll(s: NavState, cmd: Command, len: nat)
    ensures
        next_nav(s, cmd, len).current_index != s.current_index ==> next_nav(
            s,
            cmd,
            len,
        ).scroll_offset == 0,
{
}

/// Quitting: Control-C and Escape quit from any state, and quitting leaves
/// the state and the buffer as they were.
pub proof fn lemma_quit_keeps_state(s: NavState, len: nat)
    ensures
        command_spec(KeyPress { code: KeyName::Char('c'), control: true, press: true })
            == Command::Quit,
        command_spec(KeyPress { code: KeyName::Esc, control: false, press: true })
            == Command::Quit,
        next_nav(s, Command::Quit, len) == s,
        action_spec(s, Command::Quit, len) == Action::Exit,
{
}

/// Idempotent redraw: two pagers with the same buffer and the same state give
/// the same frame, so drawing one state twice draws the same frame twice.
pub proof fn lemma_redraw_idempotent(p: Pager, q: Pager, height: nat)
    requires
        p.diagnostics_view() == q.diagnostics_view(),
        p.nav_state() == q.nav_state(),
    ensures
        p.frame_spec(height) == q.frame_spec(height),
{
}

} // verus!
