//! One interactive session as a state machine: each line the user types is an
//! event that moves the session on and yields the text to show next and what
//! to do with it.

use vstd::prelude::*;
use vstd::string::*;
use crate::task::{add_task, added, mark_outcome, mark_task_done, marked, MarkError, TaskList, TaskView};
use crate::text::{display_tasks, listing, parse_u32, parsed_u32};

verus! {

/// What the session waits for.
#[derive(PartialEq, Eq, Structural, Clone, Copy, Debug)]
pub enum Mode {
    /// A menu choice.
    Menu,
    /// The description of a task to add.
    Description,
    /// The id of a task to mark as done.
    TaskId,
}

/// A menu choice.
#[derive(PartialEq, Eq, Structural, Clone, Copy, Debug)]
pub enum Command {
    Add,
    Complete,
    End,
    Invalid,
}

/// What the caller does after showing a reply's text.
#[derive(PartialEq, Eq, Structural, Clone, Copy, Debug)]
pub enum Action {
    /// Read the next line.
    Continue,
    /// Store the task list and stop.
    SaveAndExit,
    /// The typed id was not a number: stop without storing.
    Abort,
}

/// The text to show after a line, and what to do next.
pub struct Reply {
    pub text: String,
    pub action: Action,
}

/// The task list and what the session waits for.
pub struct Session {
    pub list: TaskList,
    pub mode: Mode,
}

/// The menu choice that a (trimmed) line names.
pub open spec fn command_of(line: Seq<char>) -> Command {
    if line == "1"@ {
        Command::Add
    } else if line == "2"@ {
        Command::Complete
    } else if line == "3"@ {
        Command::End
    } else {
        Command::Invalid
    }
}

/// The main screen: the listing followed by the options.
pub open spec fn menu_screen(s: Seq<TaskView>) -> Seq<char> {
    "ToDo List:\n"@ + listing(s) + "Options:\n1. Add Task to list\n2. Mark Task as Complete\n3. End\n"@
}

/// The message that reports an attempt to mark a task as done.
pub open spec fn mark_message(r: Result<(), MarkError>) -> Seq<char> {
    match r {
        Ok(()) => "Task marked as done."@,
        Err(MarkError::AlreadyDone) => "Task is already marked as done."@,
        Err(MarkError::NotFound) => "Task not found."@,
    }
}

/// What the session waits for after `line`.
pub open spec fn next_mode(mode: Mode, line: Seq<char>) -> Mode {
    match mode {
        Mode::Menu => match command_of(line) {
            Command::Add => Mode::Description,
            Command::Complete => Mode::TaskId,
            _ => Mode::Menu,
        },
        Mode::Description => Mode::Menu,
        Mode::TaskId => if parsed_u32(line) is Some {
            Mode::Menu
        } else {
            Mode::TaskId
        },
    }
}

/// The task list after `line`.
pub open spec fn next_list(mode: Mode, s: Seq<TaskView>, line: Seq<char>) -> Seq<TaskView> {
    match mode {
        Mode::Menu => s,
        Mode::Description => added(s, line),
        Mode::TaskId => match parsed_u32(line) {
            Some(id) => marked(s, id as nat),
            None => s,
        },
    }
}

/// The text shown after `line`.
pub open spec fn reply_text(mode: Mode, s: Seq<TaskView>, line: Seq<char>) -> Seq<char> {
    match mode {
        Mode::Menu => match command_of(line) {
            Command::Add => "Enter task description:\n"@,
            Command::Complete => "Enter the task ID to mark as complete:\n"@,
            Command::End => "Ending now.\n"@,
            Command::Invalid => "Invalid option. Please input option 1 to 3.\n\n"@ + menu_screen(s),
        },
        Mode::Description => menu_screen(added(s, line)),
        Mode::TaskId => match parsed_u32(line) {
            Some(id) => mark_message(mark_outcome(s, id as nat)) + "\n"@ + menu_screen(
                marked(s, id as nat),
            ),
            None => Seq::empty(),
        },
    }
}

/// What the caller does after `line`.
pub open spec fn reply_action(mode: Mode, line: Seq<char>) -> Action {
    match mode {
        Mode::Menu => if command_of(line) == Command::End {
            Action::SaveAndExit
        } else {
            Action::Continue
        },
        Mode::Description => Action::Continue,
        Mode::TaskId => if parsed_u32(line) is Some {
            Action::Continue
        } else {
            Action::Abort
        },
    }
}

/// `t` keeps every task of `s` at its place, with its id and description, and
/// a finished task stays finished.
pub open spec fn extends(s: Seq<TaskView>, t: Seq<TaskView>) -> bool {
    &&& s.len() <= t.len()
    &&& forall|i: int|
        0 <= i < s.len() ==> {
            &&& #[trigger] t[i].id == s[i].id
            &&& t[i].description == s[i].description
            &&& s[i].done ==> t[i].done
        }
}

/// Whatever line the user types, the session only appends tasks or marks them
/// as done: nothing is removed, reordered or reopened.
pub proof fn lemma_step_extends(mode: Mode, s: Seq<TaskView>, line: Seq<char>)
    ensures
        extends(s, next_list(mode, s, line)),
{
    let t = next_list(mode, s, line);
    assert forall|i: int| 0 <= i < s.len() implies {
        &&& #[trigger] t[i].id == s[i].id
        &&& t[i].description == s[i].description
        &&& s[i].done ==> t[i].done
    } by {
        if mode == Mode::Description {
            assert(t[i] == added(s, line)[i]);
        }
    }
}

/// Reads a menu choice; the line is expected without surrounding whitespace.
pub fn parse_command(line: &str) -> (r: Command)
    ensures
        r == command_of(line@),
{
    proof {
        reveal_strlit("1");
        reveal_strlit("2");
        reveal_strlit("3");
    }
    if line.unicode_len() != 1 {
        return Command::Invalid;
    }
    let c = line.get_char(0);
    if c == '1' {
        assert(line@ =~= "1"@);
        Command::Add
    } else if c == '2' {
        assert(line@ =~= "2"@);
        Command::Complete
    } else if c == '3' {
        assert(line@ =~= "3"@);
        Command::End
    } else {
        Command::Invalid
    }
}

impl MarkError {
    /// The message shown for this failure.
    pub fn message(&self) -> (r: &'static str)
        ensures
            r@ == mark_message(Err(*self)),
    {
        match self {
            MarkError::AlreadyDone => "Task is already marked as done.",
            MarkError::NotFound => "Task not found.",
        }
    }
}

/// Appends the main screen for `list`.
fn push_menu_screen(out: &mut String, list: &TaskList)
    ensures
        final(out)@ == old(out)@ + menu_screen(list@),
{
    out.append("ToDo List:\n");
    let shown = display_tasks(list);
    out.append(shown.as_str());
    out.append("Options:\n1. Add Task to list\n2. Mark Task as Complete\n3. End\n");
    assert(final(out)@ =~= old(out)@ + menu_screen(list@));
}

impl Session {
    /// Starts a session on the tasks that were loaded; when nothing could be
    /// loaded, on an empty list.
    pub fn start(loaded: Option<TaskList>) -> (r: Session)
        ensures
            r.mode == Mode::Menu,
            r.list@ == match loaded {
                Some(l) => l@,
                None => Seq::<TaskView>::empty(),
            },
    {
        let list = match loaded {
            Some(l) => l,
            None => TaskList::new(),
        };
        Session { list, mode: Mode::Menu }
    }

    /// The main screen: the listing and the options.
    pub fn screen(&self) -> (r: String)
        ensures
            r@ == menu_screen(self.list@),
    {
        let mut out = String::new();
        push_menu_screen(&mut out, &self.list);
        assert(out@ =~= menu_screen(self.list@));
        out
    }

    /// Handles one line typed by the user, without surrounding whitespace.
    pub fn step(&mut self, line: &str) -> (r: Reply)
        requires
            old(self).mode == Mode::Description ==> old(self).list@.len() < u32::MAX,
        ensures
            final(self).mode == next_mode(old(self).mode, line@),
            final(self).list@ == next_list(old(self).mode, old(self).list@, line@),
            r.text@ == reply_text(old(self).mode, old(self).list@, line@),
            r.action == reply_action(old(self).mode, line@),
    {
        match self.mode {
            Mode::Menu => {
                let command = parse_command(line);
                match command {
                    Command::Add => {
                        self.mode = Mode::Description;
                        Reply { text: String::from_str("Enter task description:\n"), action: Action::Continue }
                    },
                    Command::Complete => {
                        self.mode = Mode::TaskId;
                        Reply {
                            text: String::from_str("Enter the task ID to mark as complete:\n"),
                            action: Action::Continue,
                        }
                    },
                    Command::End => {
                        Reply { text: String::from_str("Ending now.\n"), action: Action::SaveAndExit }
                    },
                    Command::Invalid => {
                        let mut text = String::from_str("Invalid option. Please input option 1 to 3.\n\n");
                        push_menu_screen(&mut text, &self.list);
                        Reply { text, action: Action::Continue }
                    },
                }
            },
            Mode::Description => {
                add_task(&mut self.list, String::from_str(line));
                self.mode = Mode::Menu;
                let mut text = String::new();
                push_menu_screen(&mut text, &self.list);
                assert(text@ =~= reply_text(old(self).mode, old(self).list@, line@));
                Reply { text, action: Action::Continue }
            },
            Mode::TaskId => {
                match parse_u32(line) {
                    None => Reply { text: String::new(), action: Action::Abort },
                    Some(id) => {
                        let outcome = mark_task_done(&mut self.list, id);
                        let mut text = match outcome {
                            Ok(()) => String::from_str("Task marked as done."),
                            Err(e) => String::from_str(e.message()),
                        };
                        text.append("\n");
                        self.mode = Mode::Menu;
                        push_menu_screen(&mut text, &self.list);
                        assert(text@ =~= reply_text(old(self).mode, old(self).list@, line@));
                        Reply { text, action: Action::Continue }
                    },
                }
            },
        }
    }
}

} // verus!
