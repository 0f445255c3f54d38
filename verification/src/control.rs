//! The view state and how key presses change it.

use crate::process::SortKey;
use crate::text::{pop_char, push_char};
use vstd::prelude::*;

verus! {

/// Shortest time, in milliseconds, that the dashboard waits for a key
/// before it refreshes.
pub const MIN_INTERVAL_MS: u64 = 200;

/// Longest such time.
pub const MAX_INTERVAL_MS: u64 = 3000;

/// The amount by which one key press changes the time.
pub const INTERVAL_STEP_MS: u64 = 200;

/// The time at the start.
pub const INITIAL_INTERVAL_MS: u64 = 1000;

/// A key press, as far as the dashboard tells keys apart. `Char` carries a
/// printable character; every key that has no meaning here is `Other`.
#[derive(Clone, Copy, Debug, PartialEq, Eq, Structural)]
pub enum Key {
    Char(char),
    Enter,
    Escape,
    Backspace,
    Up,
    Down,
    PageUp,
    PageDown,
    Other,
}

/// What the main loop does after a key press.
#[derive(Clone, Copy, Debug, PartialEq, Eq, Structural)]
pub enum Action {
    Continue,
    Quit,
}

/// Filter, panel flags, sort order and refresh time of the dashboard.
#[derive(Clone, Debug)]
pub struct ViewState {
    pub filter_text: String,
    pub filter_mode: bool,
    pub detail_visible: bool,
    pub sort_key: SortKey,
    pub sort_reverse: bool,
    pub refresh_interval_ms: u64,
}

/// The view state as a plain value.
pub struct ViewModel {
    pub filter_text: Seq<char>,
    pub filter_mode: bool,
    pub detail_visible: bool,
    pub sort_key: SortKey,
    pub sort_reverse: bool,
    pub refresh_interval_ms: u64,
}

impl View for ViewState {
    type V = ViewModel;

    open spec fn view(&self) -> ViewModel {
        ViewModel {
            filter_text: self.filter_text@,
            filter_mode: self.filter_mode,
            detail_visible: self.detail_visible,
            sort_key: self.sort_key,
            sort_reverse: self.sort_reverse,
            refresh_interval_ms: self.refresh_interval_ms,
        }
    }
}

/// The view state together with the highlighted row of the table.
#[derive(Clone, Debug)]
pub struct Session {
    pub view: ViewState,
    pub selection: Option<usize>,
}

/// A session as a plain value.
pub struct SessionModel {
    pub view: ViewModel,
    pub selection: Option<usize>,
}

impl View for Session {
    type V = SessionModel;

    open spec fn view(&self) -> SessionModel {
        SessionModel { view: self.view@, selection: self.selection }
    }
}

/// The refresh time lies in its range and a whole number of steps away
/// from the time at the start.
pub open spec fn interval_valid(ms: u64) -> bool {
    &&& MIN_INTERVAL_MS <= ms <= MAX_INTERVAL_MS
    &&& (ms - INITIAL_INTERVAL_MS) % (INTERVAL_STEP_MS as int) == 0
}

/// The selection names a row of a table of `len` rows, and is absent
/// exactly when the table is empty.
pub open spec fn selection_valid(selection: Option<usize>, len: usize) -> bool {
    match selection {
        Some(i) => i < len,
        None => len == 0,
    }
}

impl SessionModel {
    /// The session fits a table of `len` rows: the refresh time is valid,
    /// the selection names a row or the table is empty, and no detail panel
    /// is shown without a selected row.
    pub open spec fn wf(self, len: usize) -> bool {
        &&& interval_valid(self.view.refresh_interval_ms)
        &&& selection_valid(self.selection, len)
        &&& (self.selection is None ==> !self.view.detail_visible)
    }
}

/// The session before the first key press: no filter, no panel open, the
/// table ordered by memory, nothing selected.
pub open spec fn initial_session() -> SessionModel {
    SessionModel {
        view: ViewModel {
            filter_text: Seq::empty(),
            filter_mode: false,
            detail_visible: false,
            sort_key: SortKey::Memory,
            sort_reverse: false,
            refresh_interval_ms: INITIAL_INTERVAL_MS,
        },
        selection: None,
    }
}

/// The session after the table was computed anew with `len` rows: a
/// selection beyond the end moves to the last row, a missing one to the
/// first row, and an empty table clears the selection and closes the
/// detail panel.
pub open spec fn synced(s: SessionModel, len: usize) -> SessionModel {
    if len == 0 {
        SessionModel { view: ViewModel { detail_visible: false, ..s.view }, selection: None }
    } else {
        match s.selection {
            Some(i) => if i < len {
                s
            } else {
                SessionModel { selection: Some((len - 1) as usize), ..s }
            },
            None => SessionModel {
                view: ViewModel { detail_visible: false, ..s.view },
                selection: Some(0),
            },
        }
    }
}

/// One row up, from the first row round to the last.
pub open spec fn moved_up(selection: Option<usize>, len: usize) -> Option<usize> {
    if len == 0 {
        selection
    } else {
        match selection {
            Some(i) => if i == 0 {
                Some((len - 1) as usize)
            } else {
                Some((i - 1) as usize)
            },
            None => Some(0),
        }
    }
}

/// One row down, from the last row round to the first.
pub open spec fn moved_down(selection: Option<usize>, len: usize) -> Option<usize> {
    if len == 0 {
        selection
    } else {
        match selection {
            Some(i) => if i + 1 >= len {
                Some(0)
            } else {
                Some((i + 1) as usize)
            },
            None => Some(0),
        }
    }
}

/// `page` rows up, stopping at the first row.
pub open spec fn paged_up(selection: Option<usize>, len: usize, page: usize) -> Option<usize> {
    if len == 0 {
        selection
    } else {
        match selection {
            Some(i) => if page >= i {
                Some(0)
            } else {
                Some((i - page) as usize)
            },
            None => Some(0),
        }
    }
}

/// `page` rows down, stopping at the last row.
pub open spec fn paged_down(selection: Option<usize>, len: usize, page: usize) -> Option<usize> {
    if len == 0 {
        selection
    } else {
        match selection {
            Some(i) => if i + page >= len {
                Some((len - 1) as usize)
            } else {
                Some((i + page) as usize)
            },
            None => Some(0),
        }
    }
}

/// The first row of a table that has one.
pub open spec fn moved_first(selection: Option<usize>, len: usize) -> Option<usize> {
    if len == 0 {
        selection
    } else {
        Some(0)
    }
}

/// The last row of a table that has one.
pub open spec fn moved_last(selection: Option<usize>, len: usize) -> Option<usize> {
    if len == 0 {
        selection
    } else {
        Some((len - 1) as usize)
    }
}

/// Choosing a sort key: the key that is already active turns the order
/// round, another key becomes active in its own direction.
pub open spec fn with_sort_key(v: ViewModel, key: SortKey) -> ViewModel {
    if v.sort_key == key {
        ViewModel { sort_reverse: !v.sort_reverse, ..v }
    } else {
        ViewModel { sort_key: key, sort_reverse: false, ..v }
    }
}

/// One step shorter, not below the shortest time.
pub open spec fn shorter(ms: u64) -> u64 {
    if ms >= MIN_INTERVAL_MS + INTERVAL_STEP_MS {
        (ms - INTERVAL_STEP_MS) as u64
    } else {
        ms
    }
}

/// One step longer, not above the longest time.
pub open spec fn longer(ms: u64) -> u64 {
    if ms + INTERVAL_STEP_MS <= MAX_INTERVAL_MS {
        (ms + INTERVAL_STEP_MS) as u64
    } else {
        ms
    }
}

/// The sort key that a command character chooses.
pub open spec fn sort_key_of(c: char) -> Option<SortKey> {
    if c == 'p' {
        Some(SortKey::Pid)
    } else if c == 'n' {
        Some(SortKey::Name)
    } else if c == 'm' {
        Some(SortKey::Memory)
    } else if c == 'c' {
        Some(SortKey::Cpu)
    } else {
        None
    }
}

/// The session after a character typed outside filter mode.
pub open spec fn after_command(s: SessionModel, c: char, len: usize) -> SessionModel {
    if c == 's' {
        SessionModel {
            view: ViewModel { filter_mode: true, detail_visible: false, ..s.view },
            ..s
        }
    } else if c == 'f' {
        SessionModel { selection: moved_first(s.selection, len), ..s }
    } else if c == 'l' {
        SessionModel { selection: moved_last(s.selection, len), ..s }
    } else if c == '-' {
        SessionModel {
            view: ViewModel {
                refresh_interval_ms: shorter(s.view.refresh_interval_ms),
                ..s.view
            },
            ..s
        }
    } else if c == '+' {
        SessionModel {
            view: ViewModel {
                refresh_interval_ms: longer(s.view.refresh_interval_ms),
                ..s.view
            },
            ..s
        }
    } else {
        match sort_key_of(c) {
            Some(key) => SessionModel { view: with_sort_key(s.view, key), ..s },
            None => s,
        }
    }
}

/// The session after Backspace in filter mode: the last character of the
/// filter text goes, and on an empty text filter mode ends and the detail
/// panel closes.
pub open spec fn after_backspace(s: SessionModel) -> SessionModel {
    if s.view.filter_text.len() > 0 {
        SessionModel {
            view: ViewModel { filter_text: s.view.filter_text.drop_last(), ..s.view },
            ..s
        }
    } else {
        SessionModel {
            view: ViewModel { filter_mode: false, detail_visible: false, ..s.view },
            ..s
        }
    }
}

/// The session after Enter: the detail panel opens or closes where a row
/// is selected.
pub open spec fn after_enter(s: SessionModel) -> SessionModel {
    if s.selection is Some {
        SessionModel { view: ViewModel { detail_visible: !s.view.detail_visible, ..s.view }, ..s }
    } else {
        s
    }
}

/// Whether the key press ends the program: `q` outside filter mode.
pub open spec fn quits(s: SessionModel, key: Key) -> bool {
    !s.view.filter_mode && key == Key::Char('q')
}

/// The session after one key press, for a table of `len` rows of which
/// `page` are visible at a time.
pub open spec fn step(s: SessionModel, key: Key, len: usize, page: usize) -> SessionModel {
    match key {
        Key::Up => SessionModel { selection: moved_up(s.selection, len), ..s },
        Key::Down => SessionModel { selection: moved_down(s.selection, len), ..s },
        Key::PageUp => SessionModel { selection: paged_up(s.selection, len, page), ..s },
        Key::PageDown => SessionModel { selection: paged_down(s.selection, len, page), ..s },
        Key::Enter => after_enter(s),
        Key::Char(c) => if s.view.filter_mode {
            SessionModel {
                view: ViewModel { filter_text: s.view.filter_text.push(c), ..s.view },
                ..s
            }
        } else {
            after_command(s, c, len)
        },
        Key::Escape => if s.view.filter_mode {
            SessionModel {
                view: ViewModel { filter_mode: false, filter_text: Seq::empty(), ..s.view },
                ..s
            }
        } else {
            s
        },
        Key::Backspace => if s.view.filter_mode {
            after_backspace(s)
        } else {
            s
        },
        Key::Other => s,
    }
}

/// The sort key that a command character chooses, if it chooses one.
pub fn sort_key_for(c: char) -> (r: Option<SortKey>)
    ensures
        r == sort_key_of(c),
{
    if c == 'p' {
        Some(SortKey::Pid)
    } else if c == 'n' {
        Some(SortKey::Name)
    } else if c == 'm' {
        Some(SortKey::Memory)
    } else if c == 'c' {
        Some(SortKey::Cpu)
    } else {
        None
    }
}

impl Session {
    /// The session at the start of the program.
    pub fn new() -> (r: Session)
        ensures
            r@ == initial_session(),
            r@.wf(0),
    {
        Session {
            view: ViewState {
                filter_text: String::new(),
                filter_mode: false,
                detail_visible: false,
                sort_key: SortKey::Memory,
                sort_reverse: false,
                refresh_interval_ms: INITIAL_INTERVAL_MS,
            },
            selection: None,
        }
    }

    /// Whether the session fits a table of `len` rows.
    pub fn fits(&self, len: usize) -> (r: bool)
        ensures
            r == self@.wf(len),
    {
        let ms: u64 = self.view.refresh_interval_ms;
        let interval_ok: bool = MIN_INTERVAL_MS <= ms && ms <= MAX_INTERVAL_MS && (ms
            - MIN_INTERVAL_MS) % INTERVAL_STEP_MS == 0;
        let selection_ok: bool = match self.selection {
            Some(i) => i < len,
            None => len == 0 && !self.view.detail_visible,
        };
        interval_ok && selection_ok
    }

    /// Brings the selection in line with a table that was computed anew and
    /// has `len` rows.
    pub fn sync(&mut self, len: usize)
        ensures
            final(self)@ == synced(old(self)@, len),
            selection_valid(final(self)@.selection, len),
            final(self)@.selection is None ==> !final(self)@.view.detail_visible,
            interval_valid(old(self)@.view.refresh_interval_ms) ==> final(self)@.wf(len),
    {
        if len == 0 {
            self.selection = None;
            self.view.detail_visible = false;
        } else {
            match self.selection {
                Some(i) => {
                    if i >= len {
                        self.selection = Some(len - 1);
                    }
                },
                None => {
                    self.selection = Some(0);
                    self.view.detail_visible = false;
                },
            }
        }
    }

    /// Moves the selection as the key asks; keys that do not move it leave
    /// it alone.
    fn navigate(&mut self, key: Key, len: usize, page: usize)
        requires
            key == Key::Up || key == Key::Down || key == Key::PageUp || key == Key::PageDown,
        ensures
            final(self)@ == step(old(self)@, key, len, page),
    {
        if len == 0 {
            return ;
        }
        let next: usize = match self.selection {
            None => 0,
            Some(i) => match key {
                Key::Up => if i == 0 {
                    len - 1
                } else {
                    i - 1
                },
                Key::Down => if i >= len - 1 {
                    0
                } else {
                    i + 1
                },
                Key::PageUp => if page >= i {
                    0
                } else {
                    i - page
                },
                _ => if i >= len || page >= len - i {
                    len - 1
                } else {
                    i + page
                },
            },
        };
        self.selection = Some(next);
    }

    /// Carries out a character typed outside filter mode.
    fn command(&mut self, c: char, len: usize) -> (action: Action)
        requires
            !old(self)@.view.filter_mode,
        ensures
            final(self)@ == step(old(self)@, Key::Char(c), len, 0),
            action == if c == 'q' {
                Action::Quit
            } else {
                Action::Continue
            },
    {
        if c == 'q' {
            return Action::Quit;
        }
        if c == 's' {
            self.view.filter_mode = true;
            self.view.detail_visible = false;
        } else if c == 'f' {
            if len > 0 {
                self.selection = Some(0);
            }
        } else if c == 'l' {
            if len > 0 {
                self.selection = Some(len - 1);
            }
        } else if c == '-' {
            if self.view.refresh_interval_ms >= MIN_INTERVAL_MS + INTERVAL_STEP_MS {
                self.view.refresh_interval_ms = self.view.refresh_interval_ms - INTERVAL_STEP_MS;
            }
        } else if c == '+' {
            if self.view.refresh_interval_ms <= MAX_INTERVAL_MS - INTERVAL_STEP_MS {
                self.view.refresh_interval_ms = self.view.refresh_interval_ms + INTERVAL_STEP_MS;
            }
        } else {
            match sort_key_for(c) {
                Some(key) => {
                    if self.view.sort_key == key {
                        self.view.sort_reverse = !self.view.sort_reverse;
                    } else {
                        self.view.sort_key = key;
                        self.view.sort_reverse = false;
                    }
                },
                None => {},
            }
        }
        Action::Continue
    }

    /// Carries out one key press for a table of `len` rows of which `page`
    /// are visible at a time, and says whether the program goes on.
    pub fn handle_key(&mut self, key: Key, len: usize, page: usize) -> (action: Action)
        ensures
            final(self)@ == step(old(self)@, key, len, page),
            action == if quits(old(self)@, key) {
                Action::Quit
            } else {
                Action::Continue
            },
            old(self)@.wf(len) ==> final(self)@.wf(len),
            interval_valid(old(self)@.view.refresh_interval_ms) ==> interval_valid(
                final(self)@.view.refresh_interval_ms,
            ),
    {
        match key {
            Key::Up | Key::Down | Key::PageUp | Key::PageDown => {
                self.navigate(key, len, page);
                Action::Continue
            },
            Key::Enter => {
                if self.selection.is_some() {
                    self.view.detail_visible = !self.view.detail_visible;
                }
                Action::Continue
            },
            Key::Char(c) => {
                if self.view.filter_mode {
                    push_char(&mut self.view.filter_text, c);
                    Action::Continue
                } else {
                    self.command(c, len)
                }
            },
            Key::Escape => {
                if self.view.filter_mode {
                    self.view.filter_mode = false;
                    self.view.filter_text = String::new();
                }
                Action::Continue
            },
            Key::Backspace => {
                if self.view.filter_mode {
                    let dropped = pop_char(&mut self.view.filter_text);
                    if dropped.is_none() {
                        self.view.filter_mode = false;
                        self.view.detail_visible = false;
                    }
                }
                Action::Continue
            },
            Key::Other => Action::Continue,
        }
    }

    /// Carries out what the wait for input brought: a key press, or nothing
    /// when the refresh time ran out first.
    pub fn on_event(&mut self, event: Option<Key>, len: usize, page: usize) -> (action: Action)
        ensures
            final(self)@ == match event {
                Some(key) => step(old(self)@, key, len, page),
                None => old(self)@,
            },
            action == match event {
                Some(key) => if quits(old(self)@, key) {
                    Action::Quit
                } else {
                    Action::Continue
                },
                None => Action::Continue,
            },
            old(self)@.wf(len) ==> final(self)@.wf(len),
    {
        match event {
            Some(key) => self.handle_key(key, len, page),
            None => Action::Continue,
        }
    }
}

/// A key press keeps a session fit for its table.
pub proof fn lemma_step_keeps_wf(s: SessionModel, key: Key, len: usize, page: usize)
    requires
        s.wf(len),
    ensures
        step(s, key, len, page).wf(len),
{
}

/// After the table was computed anew the selection names one of its rows,
/// or is absent if and only if the table is empty; without a selection no
/// detail panel is shown. A selection inside the table is kept, one beyond
/// the end of a table with rows moves to the last row, and a session that
/// already fits is left as it is.
pub proof fn lemma_synced_selection(s: SessionModel, len: usize)
    ensures
        selection_valid(synced(s, len).selection, len),
        synced(s, len).selection is None <==> len == 0,
        synced(s, len).selection is None ==> !synced(s, len).view.detail_visible,
        match s.selection {
            Some(j) => {
                &&& j < len ==> synced(s, len) == s
                &&& j >= len && len > 0 ==> synced(s, len).selection == Some((len - 1) as usize)
                    && synced(s, len).view == s.view
            },
            None => true,
        },
        interval_valid(s.view.refresh_interval_ms) ==> synced(s, len).wf(len),
        s.wf(len) ==> synced(s, len) == s,
{
}

/// The character that chooses a sort key.
pub open spec fn key_char(key: SortKey) -> char {
    match key {
        SortKey::Pid => 'p',
        SortKey::Name => 'n',
        SortKey::Memory => 'm',
        SortKey::Cpu => 'c',
    }
}

/// Outside filter mode, pressing the character of the active sort key
/// turns the order round and changes nothing else, and pressing it once
/// more gives the session as it was.
pub proof fn lemma_active_key_twice(s: SessionModel, len: usize, page: usize)
    requires
        !s.view.filter_mode,
    ensures
        ({
            let press = Key::Char(key_char(s.view.sort_key));
            let once = step(s, press, len, page);
            &&& once.view.sort_key == s.view.sort_key
            &&& once.view.sort_reverse == !s.view.sort_reverse
            &&& once.view.filter_text == s.view.filter_text
            &&& once.selection == s.selection
            &&& step(once, press, len, page) == s
        }),
{
}

/// Outside filter mode `+` adds one step to the refresh time and `-`
/// takes one away, and neither leaves the range: at the longest time `+`
/// changes nothing, at the shortest `-` changes nothing.
pub proof fn lemma_interval_press(s: SessionModel, len: usize, page: usize)
    requires
        !s.view.filter_mode,
        interval_valid(s.view.refresh_interval_ms),
    ensures
        ({
            let v = s.view.refresh_interval_ms as int;
            let up = step(s, Key::Char('+'), len, page).view.refresh_interval_ms as int;
            let down = step(s, Key::Char('-'), len, page).view.refresh_interval_ms as int;
            &&& up == if v + INTERVAL_STEP_MS <= MAX_INTERVAL_MS {
                v + INTERVAL_STEP_MS
            } else {
                MAX_INTERVAL_MS as int
            }
            &&& down == if v - INTERVAL_STEP_MS >= MIN_INTERVAL_MS {
                v - INTERVAL_STEP_MS
            } else {
                MIN_INTERVAL_MS as int
            }
        }),
{
}

/// The order is turned round only by choosing the active sort key again:
/// whenever a key press changes the sort key, the order is forward after
/// it, and a key press that turns the order round leaves the sort key.
pub proof fn lemma_sort_direction(s: SessionModel, key: Key, len: usize, page: usize)
    ensures
        step(s, key, len, page).view.sort_key != s.view.sort_key ==> !step(
            s,
            key,
            len,
            page,
        ).view.sort_reverse,
        step(s, key, len, page).view.sort_reverse != s.view.sort_reverse && step(
            s,
            key,
            len,
            page,
        ).view.sort_reverse ==> step(s, key, len, page).view.sort_key == s.view.sort_key,
{
}

/// The session after a run of key presses, one after the other.
pub open spec fn after_keys(s: SessionModel, keys: Seq<Key>, len: usize, page: usize) -> SessionModel
    decreases keys.len(),
{
    if keys.len() == 0 {
        s
    } else {
        step(after_keys(s, keys.drop_last(), len, page), keys.last(), len, page)
    }
}

/// Whatever keys are pressed, and in whatever order, the refresh time stays
/// in its range and a whole number of steps away from the time at the
/// start.
pub proof fn lemma_interval_stays_valid(s: SessionModel, keys: Seq<Key>, len: usize, page: usize)
    requires
        interval_valid(s.view.refresh_interval_ms),
    ensures
        interval_valid(after_keys(s, keys, len, page).view.refresh_interval_ms),
    decreases keys.len(),
{
    if keys.len() > 0 {
        lemma_interval_stays_valid(s, keys.drop_last(), len, page);
    }
}

/// A run of key presses keeps a session fit for its table.
pub proof fn lemma_keys_keep_wf(s: SessionModel, keys: Seq<Key>, len: usize, page: usize)
    requires
        s.wf(len),
    ensures
        after_keys(s, keys, len, page).wf(len),
    decreases keys.len(),
{
    if keys.len() > 0 {
        lemma_keys_keep_wf(s, keys.drop_last(), len, page);
        lemma_step_keeps_wf(after_keys(s, keys.drop_last(), len, page), keys.last(), len, page);
    }
}

} // verus!
