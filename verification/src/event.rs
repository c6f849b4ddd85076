//! What the dashboard does on keys, on the mouse and on the passing of time.

use vstd::prelude::*;

use crate::dashboard::{App, Area, InputLine, InputMode};
use crate::fs_path;
use crate::text;

verus! {

/// The time after which the repositories are read anew, in seconds.
pub const REFRESH_SECONDS: u64 = 10;

/// A key.
#[derive(Debug, Clone, Copy, PartialEq, Eq, Structural)]
pub enum KeyCode {
    Char(char),
    Other,
}

/// Something that happened.
#[derive(Debug, Clone, Copy, PartialEq, Eq, Structural)]
pub enum Event {
    Key(KeyCode),
    /// The mouse did something at a cell; `left_down` if its left button was pressed.
    Mouse { left_down: bool, column: u16, row: u16 },
    /// A moment passed; `elapsed` whole seconds after the repositories were last read.
    Tick { elapsed: u64 },
}

/// What is left to be done about an event.
#[derive(Debug, Clone, Copy, PartialEq, Eq, Structural)]
pub enum Response {
    /// Nothing.
    Handled,
    /// Read the repositories anew, and count the time from then.
    Refresh,
    /// Hand the key to what is open.
    HandleKey,
    /// Hand the mouse to what is open.
    HandleMouse,
    /// List the directories for the line being typed.
    ListDirectory,
}

/// The number of the first area that holds the cell, or how many areas there are.
pub open spec fn hit(areas: Seq<Area>, column: u16, row: u16) -> int
    decreases areas.len(),
{
    if areas.len() == 0 || areas[0].holds(column, row) {
        0
    } else {
        1 + hit(areas.skip(1), column, row)
    }
}

/// Whether nothing is open that takes the keys.
pub open spec fn takes_commands(a: App) -> bool {
    &&& !a.show_action_menu
    &&& a.input_mode == InputMode::Normal
    &&& !a.show_help
    &&& !a.show_delete_confirm
}

/// What a mouse event at a cell is about.
pub enum Target {
    Tab(int),
    AddButton,
    Elsewhere,
}

/// What a mouse event is about: only a press of the left button reaches the tabs and the button.
pub open spec fn target(a: App, left_down: bool, column: u16, row: u16) -> Target {
    if left_down && hit(a.tab_areas@, column, row) < a.tab_areas@.len() {
        Target::Tab(hit(a.tab_areas@, column, row))
    } else if left_down && a.add_tab_area.holds(column, row) {
        Target::AddButton
    } else {
        Target::Elsewhere
    }
}

/// What is left to be done about an event.
pub open spec fn response(a: App, e: Event) -> Response {
    match e {
        Event::Key(k) => if k == KeyCode::Char('r') && takes_commands(a) {
            Response::Refresh
        } else {
            Response::HandleKey
        },
        Event::Mouse { left_down, column, row } => match target(a, left_down, column, row) {
            Target::Tab(_) => Response::Handled,
            Target::AddButton => Response::ListDirectory,
            Target::Elsewhere => Response::HandleMouse,
        },
        Event::Tick { elapsed } => if elapsed >= REFRESH_SECONDS {
            Response::Refresh
        } else {
            Response::Handled
        },
    }
}

/// The line that a repository is added with: it offers the directory that the repository looked
/// at lies in.
pub open spec fn offered_line(active_path: Seq<u8>) -> Seq<char> {
    match fs_path::parent_of(active_path) {
        Some(parent) => text::decoded(parent) + "/"@,
        None => Seq::empty(),
    }
}

/// Whether `b` is the dashboard `a` ready to add a repository.
pub open spec fn adding_repo(a: App, b: App) -> bool {
    &&& b.input_mode == InputMode::AddRepo
    &&& b.input.is_text(offered_line(a.active_path()))
    &&& b.dir_entries@.len() == 0
    &&& b.dir_selected == 0
    &&& b == App {
        input_mode: b.input_mode,
        input: b.input,
        dir_entries: b.dir_entries,
        dir_selected: b.dir_selected,
        ..a
    }
}

/// Whether `b` is the dashboard `a` looking at the tab of that number, if there is one.
pub open spec fn looking_at(a: App, b: App, i: int) -> bool {
    if i < a.tabs@.len() {
        &&& b.active_repo == i
        &&& b == a.with_tabs(b.tabs, b.active_repo)
        &&& b.tabs@ == a.tabs@.update(i, crate::dashboard::seen(a.tabs@[i]))
    } else {
        b == a
    }
}

/// Whether an event turns the dashboard `a` into `b`.
pub open spec fn follows(a: App, e: Event, b: App) -> bool {
    match e {
        Event::Mouse { left_down, column, row } => match target(a, left_down, column, row) {
            Target::Tab(i) => looking_at(a, b, i),
            Target::AddButton => adding_repo(a, b),
            Target::Elsewhere => b == a,
        },
        _ => b == a,
    }
}

proof fn lemma_hit(areas: Seq<Area>, column: u16, row: u16, k: int)
    requires
        0 <= k <= areas.len(),
        forall|i: int| 0 <= i < k ==> !(#[trigger] areas[i]).holds(column, row),
        k < areas.len() ==> areas[k].holds(column, row),
    ensures
        hit(areas, column, row) == k,
    decreases k,
{
    if k > 0 {
        assert(!areas[0].holds(column, row));
        assert forall|i: int| 0 <= i < k - 1 implies !(#[trigger] areas.skip(1)[i]).holds(
            column,
            row,
        ) by {
            assert(areas.skip(1)[i] == areas[i + 1]);
        }
        lemma_hit(areas.skip(1), column, row, k - 1);
    }
}

/// What a click reaches is the first tab drawn over the cell, and no other.
pub proof fn hit_is_the_first_area(areas: Seq<Area>, column: u16, row: u16)
    ensures
        0 <= hit(areas, column, row) <= areas.len(),
        hit(areas, column, row) < areas.len() ==> areas[hit(areas, column, row)].holds(column, row),
        forall|i: int|
            0 <= i < hit(areas, column, row) ==> !(#[trigger] areas[i]).holds(column, row),
    decreases areas.len(),
{
    if areas.len() > 0 && !areas[0].holds(column, row) {
        hit_is_the_first_area(areas.skip(1), column, row);
        assert forall|i: int| 0 <= i < hit(areas, column, row) implies !(
        #[trigger] areas[i]).holds(column, row) by {
            if i > 0 {
                assert(areas.skip(1)[i - 1] == areas[i]);
            }
        }
    }
}

impl App {
    /// The number of the first tab drawn over a cell, or how many were drawn.
    fn tab_at(&self, column: u16, row: u16) -> (k: usize)
        ensures
            k == hit(self.tab_areas@, column, row),
            k <= self.tab_areas@.len(),
    {
        let mut k: usize = 0;
        while k < self.tab_areas.len() && !self.tab_areas[k].contains(column, row)
            invariant
                k <= self.tab_areas@.len(),
                forall|i: int|
                    0 <= i < k ==> !(#[trigger] self.tab_areas@[i]).holds(column, row),
            decreases self.tab_areas@.len() - k,
        {
            k = k + 1;
        }
        proof {
            lemma_hit(self.tab_areas@, column, row, k as int);
        }
        k
    }

    /// Gets ready to add a repository, from the directory that the one looked at lies in.
    pub fn open_add_repo(&mut self)
        requires
            old(self).wf(),
        ensures
            adding_repo(*old(self), *final(self)),
            final(self).wf(),
    {
        self.input_mode = InputMode::AddRepo;
        self.input = InputLine::empty();
        if let Some(parent) = self.tabs[self.active_repo].path.parent() {
            let mut line = parent.display();
            line.append("/");
            self.input = InputLine::from_text(line);
        }
        self.dir_entries = Vec::new();
        self.dir_selected = 0;
    }

    /// Takes an event, and says what is left to be done about it.
    pub fn on_event(&mut self, e: Event) -> (r: Response)
        requires
            old(self).wf(),
        ensures
            r == response(*old(self), e),
            follows(*old(self), e, *final(self)),
            final(self).wf(),
    {
        match e {
            Event::Key(k) => {
                let refresh_key: bool = match k {
                    KeyCode::Char(c) => c == 'r',
                    KeyCode::Other => false,
                };
                if refresh_key && !self.show_action_menu && self.input_mode == InputMode::Normal
                    && !self.show_help && !self.show_delete_confirm {
                    Response::Refresh
                } else {
                    Response::HandleKey
                }
            },
            Event::Mouse { left_down, column, row } => {
                if !left_down {
                    return Response::HandleMouse;
                }
                let k: usize = self.tab_at(column, row);
                if k < self.tab_areas.len() {
                    self.switch_tab(k);
                    Response::Handled
                } else if self.add_tab_area.contains(column, row) {
                    self.open_add_repo();
                    Response::ListDirectory
                } else {
                    Response::HandleMouse
                }
            },
            Event::Tick { elapsed } => {
                if elapsed >= REFRESH_SECONDS {
                    Response::Refresh
                } else {
                    Response::Handled
                }
            },
        }
    }
}

/// Looking at a tab takes the mark of unseen changes from it and leaves all others alone.
pub proof fn looking_at_a_tab_sees_its_changes(a: App, b: App, i: int)
    requires
        looking_at(a, b, i),
        0 <= i < a.tabs@.len(),
    ensures
        b.active_repo == i,
        !b.tabs@[i].state.has_unseen_changes,
        b.tabs@[i].state.data == a.tabs@[i].state.data,
        forall|j: int|
            #![trigger b.tabs@[j]]
            0 <= j < a.tabs@.len() && j != i ==> b.tabs@[j] == a.tabs@[j],
        crate::dashboard::tab_paths(b.tabs@) == crate::dashboard::tab_paths(a.tabs@),
{
    assert(crate::dashboard::tab_paths(b.tabs@) =~= crate::dashboard::tab_paths(a.tabs@));
}

/// Time alone leads to a refresh, and only once enough of it has passed; a key does so only where
/// nothing is open that takes the keys.
pub proof fn refreshes_have_a_cause(a: App, e: Event)
    requires
        response(a, e) == Response::Refresh,
    ensures
        match e {
            Event::Tick { elapsed } => elapsed >= REFRESH_SECONDS,
            Event::Key(k) => k == KeyCode::Char('r') && takes_commands(a),
            Event::Mouse { .. } => false,
        },
{
}

/// A key leads to a refresh exactly where it is `r`, typed keys go nowhere else, and neither the
/// menu nor the help nor the question before a removal is open; every other key, and `r` while a
/// branch or a repository is being typed, is handed to what is open. A key changes nothing by
/// itself.
pub proof fn keys_refresh_or_are_handed_on(a: App, k: KeyCode, b: App)
    requires
        follows(a, Event::Key(k), b),
    ensures
        response(a, Event::Key(k)) == Response::Refresh <==> k == KeyCode::Char('r')
            && a.input_mode == InputMode::Normal && !a.show_action_menu && !a.show_help
            && !a.show_delete_confirm,
        response(a, Event::Key(k)) != Response::Refresh ==> response(a, Event::Key(k))
            == Response::HandleKey,
        a.input_mode == InputMode::AddRepo || a.input_mode == InputMode::BranchName ==> response(
            a,
            Event::Key(k),
        ) == Response::HandleKey,
        b == a,
{
}

/// Time leads to a refresh exactly from ten seconds on, and changes nothing by itself.
pub proof fn time_refreshes_from_ten_seconds_on(a: App, elapsed: u64, b: App)
    requires
        follows(a, Event::Tick { elapsed }, b),
    ensures
        response(a, Event::Tick { elapsed }) == (if elapsed >= 10 {
            Response::Refresh
        } else {
            Response::Handled
        }),
        b == a,
{
}

/// A press of the left button on a cell over which a tab was drawn, and no tab before it, looks at
/// that tab and sees its changes; nothing else changes, and nothing is left to be done. Where
/// there is no such tab any more, nothing happens.
pub proof fn clicks_look_at_the_tab_drawn_there(a: App, column: u16, row: u16, i: int, b: App)
    requires
        follows(a, Event::Mouse { left_down: true, column, row }, b),
        0 <= i < a.tab_areas@.len(),
        a.tab_areas@[i].x <= column < a.tab_areas@[i].x + a.tab_areas@[i].width,
        a.tab_areas@[i].y <= row < a.tab_areas@[i].y + a.tab_areas@[i].height,
        forall|j: int|
            #![trigger a.tab_areas@[j]]
            0 <= j < i ==> !(a.tab_areas@[j].x <= column < a.tab_areas@[j].x
                + a.tab_areas@[j].width && a.tab_areas@[j].y <= row < a.tab_areas@[j].y
                + a.tab_areas@[j].height),
    ensures
        response(a, Event::Mouse { left_down: true, column, row }) == Response::Handled,
        i >= a.tabs@.len() ==> b == a,
        i < a.tabs@.len() ==> {
            &&& b.active_repo == i
            &&& b == App { tabs: b.tabs, active_repo: b.active_repo, ..a }
            &&& b.tabs@.len() == a.tabs@.len()
            &&& !b.tabs@[i].state.has_unseen_changes
            &&& b.tabs@[i].path == a.tabs@[i].path
            &&& b.tabs@[i].state == crate::data::RepoState {
                has_unseen_changes: false,
                ..a.tabs@[i].state
            }
            &&& forall|j: int|
                #![trigger b.tabs@[j]]
                0 <= j < a.tabs@.len() && j != i ==> b.tabs@[j] == a.tabs@[j]
        },
{
    lemma_hit(a.tab_areas@, column, row, i);
}

/// A press of the left button on the button that adds a repository, where no tab was drawn over
/// it, starts to add one: the line offers the directory around the repository looked at, and no
/// directories are listed yet. Nothing else changes, and the directories are to be listed.
pub proof fn the_button_starts_adding(a: App, column: u16, row: u16, b: App)
    requires
        follows(a, Event::Mouse { left_down: true, column, row }, b),
        forall|j: int|
            #![trigger a.tab_areas@[j]]
            0 <= j < a.tab_areas@.len() ==> !(a.tab_areas@[j].x <= column < a.tab_areas@[j].x
                + a.tab_areas@[j].width && a.tab_areas@[j].y <= row < a.tab_areas@[j].y
                + a.tab_areas@[j].height),
        a.add_tab_area.x <= column < a.add_tab_area.x + a.add_tab_area.width,
        a.add_tab_area.y <= row < a.add_tab_area.y + a.add_tab_area.height,
    ensures
        response(a, Event::Mouse { left_down: true, column, row }) == Response::ListDirectory,
        b.input_mode == InputMode::AddRepo,
        b.input.value@ == (match fs_path::parent_of(a.tabs@[a.active_repo as int].path@) {
            Some(parent) => text::decoded(parent) + "/"@,
            None => Seq::<char>::empty(),
        }),
        b.input.cursor == b.input.value@.len(),
        b.dir_entries@.len() == 0,
        b.dir_selected == 0,
        b == (App {
            input_mode: b.input_mode,
            input: b.input,
            dir_entries: b.dir_entries,
            dir_selected: b.dir_selected,
            ..a
        }),
{
    lemma_hit(a.tab_areas@, column, row, a.tab_areas@.len() as int);
}

/// Every other mouse event is handed to what is open, and changes nothing by itself: one that is
/// no press of the left button, and one on a cell over which neither a tab nor the button was
/// drawn.
pub proof fn other_mouse_events_are_handed_on(
    a: App,
    left_down: bool,
    column: u16,
    row: u16,
    b: App,
)
    requires
        follows(a, Event::Mouse { left_down, column, row }, b),
        left_down ==> forall|j: int|
            #![trigger a.tab_areas@[j]]
            0 <= j < a.tab_areas@.len() ==> !(a.tab_areas@[j].x <= column < a.tab_areas@[j].x
                + a.tab_areas@[j].width && a.tab_areas@[j].y <= row < a.tab_areas@[j].y
                + a.tab_areas@[j].height),
        left_down ==> !(a.add_tab_area.x <= column < a.add_tab_area.x + a.add_tab_area.width
            && a.add_tab_area.y <= row < a.add_tab_area.y + a.add_tab_area.height),
    ensures
        response(a, Event::Mouse { left_down, column, row }) == Response::HandleMouse,
        b == a,
{
    if left_down {
        lemma_hit(a.tab_areas@, column, row, a.tab_areas@.len() as int);
    }
}

} // verus!
