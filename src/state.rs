use vstd::prelude::*;
use crate::calendar::{
    CalendarDate, month_length, next_day_of, previous_day_of, next_week_of, previous_week_of,
};
use crate::entry::{entry_fields, split_entry};
use crate::task::{Deadline, Task, TimeOfDay};

verus! {

/// The region of the screen that receives keys.
#[derive(Clone, Copy, Debug, PartialEq, Eq, Structural)]
pub enum Focus {
    TaskList,
    CalendarView,
    TaskDetail,
    NewTaskEntry,
}

/// A key as the terminal reports it.
#[derive(Clone, Copy, Debug, PartialEq, Eq, Structural)]
pub enum Key {
    Char(char),
    Enter,
    Esc,
    Backspace,
    Up,
    Down,
    Left,
    Right,
    Other,
}

/// Whether a key went down, repeats while held, or came up.
#[derive(Clone, Copy, Debug, PartialEq, Eq, Structural)]
pub enum KeyKind {
    Press,
    Repeat,
    Release,
}

/// What the event loop does after a key.
#[derive(Clone, Copy, Debug, PartialEq, Eq, Structural)]
pub enum Action {
    Continue,
    /// Save the tasks and stop.
    Quit,
}

/// The whole state of the interactive session.
pub struct App {
    pub tasks: Vec<Task>,
    pub selected: Option<usize>,
    pub focus: Focus,
    pub cursor: CalendarDate,
    /// Clock time given to the deadline of a new task.
    pub clock: TimeOfDay,
    pub input_buffer: Vec<char>,
    pub input_priority: u8,
}

/// Selection after one step down a list of `len` entries, wrapping to the top.
pub open spec fn next_selection(len: nat, selected: Option<usize>) -> Option<usize> {
    if len == 0 {
        None
    } else {
        match selected {
            None => Some(0),
            Some(i) => if i + 1 >= len {
                Some(0)
            } else {
                Some((i + 1) as usize)
            },
        }
    }
}

/// Selection after one step up a list of `len` entries, wrapping to the bottom.
pub open spec fn previous_selection(len: nat, selected: Option<usize>) -> Option<usize> {
    if len == 0 {
        None
    } else {
        match selected {
            None => Some(0),
            Some(i) => if i == 0 {
                Some((len - 1) as usize)
            } else {
                Some((i - 1) as usize)
            },
        }
    }
}

/// Selection after removing entry `removed`, leaving `len` entries.
pub open spec fn selection_after_delete(len: nat, removed: usize) -> Option<usize> {
    if len == 0 {
        None
    } else if removed >= len {
        Some((removed - 1) as usize)
    } else {
        Some(removed)
    }
}

/// `post` is `pre` with the selected task removed and the selection mended.
pub open spec fn deleted_selected(pre: App, post: App) -> bool {
    match pre.selected {
        None => post == pre,
        Some(i) => {
            &&& post.tasks@ == pre.tasks@.remove(i as int)
            &&& post.selected == selection_after_delete(post.tasks@.len(), i)
            &&& post.focus == pre.focus
            &&& post.cursor == pre.cursor
            &&& post.clock == pre.clock
            &&& post.input_buffer == pre.input_buffer
            &&& post.input_priority == pre.input_priority
        },
    }
}

/// `post` is `pre` with the cursor moved to the date in `to`, or `pre` itself where `to` is
/// `None`.
pub open spec fn cursor_moved(pre: App, post: App, to: Option<(int, int, int)>) -> bool {
    match to {
        Some(d) => post.cursor@ == d && post == (App { cursor: post.cursor, ..pre }),
        None => post == pre,
    }
}

/// The task that committing `pre`'s input creates.
pub open spec fn is_entered_task(pre: App, t: Task) -> bool {
    &&& t.name@ == entry_fields(pre.input_buffer@).0
    &&& t.priority == entry_fields(pre.input_buffer@).1
    &&& !t.completed
    &&& t.deadline == Some(Deadline { date: pre.cursor, time: pre.clock })
}

/// `post` is `pre` after the typed task was appended and the entry form left.
pub open spec fn committed_entry(pre: App, post: App) -> bool {
    &&& post.tasks@.len() == pre.tasks@.len() + 1
    &&& post.tasks@.drop_last() == pre.tasks@
    &&& is_entered_task(pre, post.tasks@.last())
    &&& post.selected == (if pre.selected is None {
        Some(0usize)
    } else {
        pre.selected
    })
    &&& post.focus == Focus::CalendarView
    &&& post.cursor == pre.cursor
    &&& post.clock == pre.clock
    &&& post.input_buffer@.len() == 0
    &&& post.input_priority == 1
}

/// Effect of a key pressed while the task list has focus.
pub open spec fn task_list_key(pre: App, post: App, key: Key) -> bool {
    match key {
        Key::Down => post == (App { selected: next_selection(pre.tasks@.len(), pre.selected), ..pre }),
        Key::Up => post == (App {
            selected: previous_selection(pre.tasks@.len(), pre.selected),
            ..pre
        }),
        Key::Right => post == (App { focus: Focus::CalendarView, ..pre }),
        Key::Enter => post == (App { focus: Focus::TaskDetail, ..pre }),
        Key::Backspace => deleted_selected(pre, post),
        _ => post == pre,
    }
}

/// Effect of a key pressed while the calendar has focus; a move that would leave the supported
/// years does nothing.
pub open spec fn calendar_key(pre: App, post: App, key: Key) -> bool {
    match key {
        Key::Right => cursor_moved(
            pre,
            post,
            if pre.cursor.can_advance() {
                Some(next_day_of(pre.cursor@))
            } else {
                None
            },
        ),
        Key::Left => cursor_moved(
            pre,
            post,
            if pre.cursor.can_retreat() {
                Some(previous_day_of(pre.cursor@))
            } else {
                None
            },
        ),
        Key::Down => cursor_moved(
            pre,
            post,
            if pre.cursor.can_advance() {
                Some(next_week_of(pre.cursor@))
            } else {
                None
            },
        ),
        Key::Up => cursor_moved(
            pre,
            post,
            if pre.cursor.can_retreat() {
                Some(previous_week_of(pre.cursor@))
            } else {
                None
            },
        ),
        Key::Enter => post.input_buffer@.len() == 0 && post == (App {
            focus: Focus::NewTaskEntry,
            input_priority: 1,
            input_buffer: post.input_buffer,
            ..pre
        }),
        Key::Char('t') => post == (App { focus: Focus::TaskList, ..pre }),
        _ => post == pre,
    }
}

/// Effect of a key pressed while the task detail has focus.
pub open spec fn detail_key(pre: App, post: App, key: Key) -> bool {
    match key {
        Key::Esc => post == (App { focus: Focus::TaskList, ..pre }),
        _ => post == pre,
    }
}

/// Effect of a key pressed while the new-task form has focus.
pub open spec fn entry_key(pre: App, post: App, key: Key) -> bool {
    match key {
        Key::Char(c) => post.input_buffer@ == pre.input_buffer@.push(c) && post == (App {
            input_buffer: post.input_buffer,
            ..pre
        }),
        Key::Backspace => post.input_buffer@ == (if pre.input_buffer@.len() == 0 {
            pre.input_buffer@
        } else {
            pre.input_buffer@.drop_last()
        }) && post == (App { input_buffer: post.input_buffer, ..pre }),
        Key::Esc => post.input_buffer@.len() == 0 && post == (App {
            focus: Focus::CalendarView,
            input_priority: 1,
            input_buffer: post.input_buffer,
            ..pre
        }),
        Key::Enter => if pre.input_buffer@.len() == 0 {
            post == pre
        } else {
            committed_entry(pre, post)
        },
        _ => post == pre,
    }
}

/// On a list of one task both navigation steps stay on index 0, and on an empty list the
/// selection stays empty.
pub proof fn lemma_navigation_small_lists(selected: Option<usize>)
    requires
        selected matches Some(i) ==> i == 0,
    ensures
        next_selection(1, selected) == Some(0usize),
        previous_selection(1, selected) == Some(0usize),
        next_selection(0, None) is None,
        previous_selection(0, None) is None,
{
}

/// Deleting the selected last task of a list moves the selection to the new last index, and
/// deleting the only task clears the selection.
pub proof fn lemma_delete_last_task(pre: App, post: App)
    requires
        pre.wf(),
        pre.selected matches Some(i) && i + 1 == pre.tasks@.len(),
        deleted_selected(pre, post),
    ensures
        pre.tasks@.len() == 1 ==> post.selected is None,
        pre.tasks@.len() > 1 ==> (post.selected matches Some(j) && j + 1 == post.tasks@.len()),
{
    assert(pre.tasks@.remove(pre.tasks@.len() - 1).len() == pre.tasks@.len() - 1);
}

impl App {
    /// The selection is `None` exactly when there are no tasks and otherwise a valid index, the
    /// calendar cursor is a valid date, and the input is empty outside the new-task form.
    pub open spec fn wf(&self) -> bool {
        &&& self.cursor.wf()
        &&& (self.selected is None <==> self.tasks@.len() == 0)
        &&& (self.selected matches Some(i) ==> i < self.tasks@.len())
        &&& (self.focus != Focus::NewTaskEntry ==> self.input_buffer@.len() == 0)
        &&& 1 <= self.input_priority <= 5
    }

    /// A session over `tasks`, on the task list, with the first task selected if there is one
    /// and the calendar on `today`.
    pub fn new(tasks: Vec<Task>, today: CalendarDate, clock: TimeOfDay) -> (r: App)
        requires
            today.wf(),
        ensures
            r.wf(),
            r.tasks@ == tasks@,
            r.selected == (if tasks@.len() == 0 {
                None
            } else {
                Some(0usize)
            }),
            r.focus == Focus::TaskList,
            r.cursor == today,
            r.clock == clock,
            r.input_buffer@.len() == 0,
            r.input_priority == 1,
    {
        let selected = if tasks.len() == 0 {
            None
        } else {
            Some(0)
        };
        App {
            tasks,
            selected,
            focus: Focus::TaskList,
            cursor: today,
            clock,
            input_buffer: Vec::new(),
            input_priority: 1,
        }
    }

    /// Number of days of the month the calendar shows.
    pub fn days_in_current_month(&self) -> (r: u32)
        requires
            self.wf(),
        ensures
            r == month_length(self.cursor.year as int, self.cursor.month as int),
    {
        self.cursor.days_in_month()
    }

    /// The task shown in the detail pane.
    pub fn selected_task(&self) -> (r: Option<&Task>)
        requires
            self.wf(),
        ensures
            self.selected is None ==> r is None,
            self.selected matches Some(i) ==> r == Some(&self.tasks@[i as int]),
    {
        match self.selected {
            Some(i) => Some(&self.tasks[i]),
            None => None,
        }
    }

    /// Select the next task, wrapping from the last to the first.
    pub fn next_task(&mut self)
        requires
            old(self).wf(),
        ensures
            *final(self) == (App {
                selected: next_selection(old(self).tasks@.len(), old(self).selected),
                ..*old(self)
            }),
            final(self).wf(),
    {
        let len = self.tasks.len();
        if len == 0 {
            return;
        }
        let selected = match self.selected {
            Some(i) => if i >= len - 1 {
                0
            } else {
                i + 1
            },
            None => 0,
        };
        self.selected = Some(selected);
    }

    /// Select the previous task, wrapping from the first to the last.
    pub fn previous_task(&mut self)
        requires
            old(self).wf(),
        ensures
            *final(self) == (App {
                selected: previous_selection(old(self).tasks@.len(), old(self).selected),
                ..*old(self)
            }),
            final(self).wf(),
    {
        let len = self.tasks.len();
        if len == 0 {
            return;
        }
        let selected = match self.selected {
            Some(i) => if i == 0 {
                len - 1
            } else {
                i - 1
            },
            None => 0,
        };
        self.selected = Some(selected);
    }

    /// Remove the selected task. The selection stays on the same index, which now holds the
    /// task that followed, moves up when the last task was removed, and is cleared when none
    /// is left.
    pub fn delete_task(&mut self)
        requires
            old(self).wf(),
        ensures
            deleted_selected(*old(self), *final(self)),
            final(self).wf(),
    {
        if let Some(index) = self.selected {
            self.tasks.remove(index);
            if self.tasks.len() == 0 {
                self.selected = None;
            } else if index >= self.tasks.len() {
                self.selected = Some(index - 1);
            }
        }
    }

    /// Move the calendar cursor one day forward, unless that leaves the supported years.
    pub fn next_day(&mut self)
        requires
            old(self).wf(),
        ensures
            cursor_moved(
                *old(self),
                *final(self),
                if old(self).cursor.can_advance() {
                    Some(next_day_of(old(self).cursor@))
                } else {
                    None
                },
            ),
            final(self).wf(),
    {
        if self.cursor.year < crate::calendar::MAX_YEAR {
            self.cursor = self.cursor.next_day();
        }
    }

    /// Move the calendar cursor one day back, unless that leaves the supported years.
    pub fn previous_day(&mut self)
        requires
            old(self).wf(),
        ensures
            cursor_moved(
                *old(self),
                *final(self),
                if old(self).cursor.can_retreat() {
                    Some(previous_day_of(old(self).cursor@))
                } else {
                    None
                },
            ),
            final(self).wf(),
    {
        if self.cursor.year > crate::calendar::MIN_YEAR {
            self.cursor = self.cursor.previous_day();
        }
    }

    /// Move the calendar cursor one week forward, unless that leaves the supported years.
    pub fn next_week(&mut self)
        requires
            old(self).wf(),
        ensures
            cursor_moved(
                *old(self),
                *final(self),
                if old(self).cursor.can_advance() {
                    Some(next_week_of(old(self).cursor@))
                } else {
                    None
                },
            ),
            final(self).wf(),
    {
        if self.cursor.year < crate::calendar::MAX_YEAR {
            self.cursor = self.cursor.next_week();
        }
    }

    /// Move the calendar cursor one week back, unless that leaves the supported years.
    pub fn previous_week(&mut self)
        requires
            old(self).wf(),
        ensures
            cursor_moved(
                *old(self),
                *final(self),
                if old(self).cursor.can_retreat() {
                    Some(previous_week_of(old(self).cursor@))
                } else {
                    None
                },
            ),
            final(self).wf(),
    {
        if self.cursor.year > crate::calendar::MIN_YEAR {
            self.cursor = self.cursor.previous_week();
        }
    }
    /// Append the task typed into the form: its name and priority come from the input
    /// (see `entry_fields`), its deadline is the cursor's day at the session's clock time. The
    /// form is then left for the calendar. A first task also becomes the selected one.
    pub fn commit_new_task(&mut self)
        requires
            old(self).wf(),
            old(self).focus == Focus::NewTaskEntry,
        ensures
            committed_entry(*old(self), *final(self)),
            final(self).wf(),
    {
        let (name, priority) = split_entry(&self.input_buffer);
        let task = Task {
            name,
            completed: false,
            deadline: Some(Deadline { date: self.cursor, time: self.clock }),
            priority,
        };
        let ghost before = self.tasks@;
        self.tasks.push(task);
        assert(self.tasks@.drop_last() =~= before);
        if self.selected.is_none() {
            self.selected = Some(0);
        }
        self.input_buffer = Vec::new();
        self.input_priority = 1;
        self.focus = Focus::CalendarView;
    }

    /// Act on one key event: only presses count; `q` asks to quit from any focus, and every
    /// other key acts as the focused region defines.
    pub fn handle_key(&mut self, key: Key, kind: KeyKind) -> (r: Action)
        requires
            old(self).wf(),
        ensures
            final(self).wf(),
            kind != KeyKind::Press ==> r == Action::Continue && *final(self) == *old(self),
            kind == KeyKind::Press && key == Key::Char('q') ==> r == Action::Quit && *final(self)
                == *old(self),
            kind == KeyKind::Press && key != Key::Char('q') ==> r == Action::Continue && match old(
                self,
            ).focus {
                Focus::TaskList => task_list_key(*old(self), *final(self), key),
                Focus::CalendarView => calendar_key(*old(self), *final(self), key),
                Focus::TaskDetail => detail_key(*old(self), *final(self), key),
                Focus::NewTaskEntry => entry_key(*old(self), *final(self), key),
            },
    {
        if kind != KeyKind::Press {
            return Action::Continue;
        }
        if key == Key::Char('q') {
            return Action::Quit;
        }
        match self.focus {
            Focus::TaskList => match key {
                Key::Down => self.next_task(),
                Key::Up => self.previous_task(),
                Key::Right => self.focus = Focus::CalendarView,
                Key::Enter => self.focus = Focus::TaskDetail,
                Key::Backspace => self.delete_task(),
                _ => {},
            },
            Focus::CalendarView => match key {
                Key::Right => self.next_day(),
                Key::Left => self.previous_day(),
                Key::Down => self.next_week(),
                Key::Up => self.previous_week(),
                Key::Enter => {
                    self.input_buffer = Vec::new();
                    self.input_priority = 1;
                    self.focus = Focus::NewTaskEntry;
                },
                Key::Char('t') => self.focus = Focus::TaskList,
                _ => {},
            },
            Focus::TaskDetail => match key {
                Key::Esc => self.focus = Focus::TaskList,
                _ => {},
            },
            Focus::NewTaskEntry => match key {
                Key::Char(c) => self.input_buffer.push(c),
                Key::Backspace => {
                    self.input_buffer.pop();
                },
                Key::Esc => {
                    self.input_buffer = Vec::new();
                    self.input_priority = 1;
                    self.focus = Focus::CalendarView;
                },
                Key::Enter => {
                    if self.input_buffer.len() > 0 {
                        self.commit_new_task();
                    }
                },
                _ => {},
            },
        }
        Action::Continue
    }
}

} // verus!
