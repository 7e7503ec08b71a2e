//! State of the status window and the decisions it makes on each event.

use std::convert::Infallible;
use vstd::prelude::*;
use vstd::string::*;

verus! {

/// Responses the window sends back over the IPC link: there are none, so
/// no value of this type can be built.
pub enum IpcResponse {
    Never(Infallible),
}

/// What the embedded terminal reported after it handled a command.
pub enum TerminalAction {
    /// The program in the terminal ended.
    Shutdown,
    /// The program in the terminal asked for a new window title.
    ChangeTitle(String),
    /// Anything else.
    Other,
}

/// An event the window reacts to.
pub enum GuiEvent {
    /// The "Details" button was pressed.
    Toggle,
    /// The IPC link failed with this message.
    IpcError(String),
    /// The patcher sent a new status line.
    SetStatus(String),
    /// The terminal handled a command; `init_backend` tells whether that
    /// command started the terminal's backend.
    TerminalCommand { init_backend: bool, action: TerminalAction },
}

/// What the window must do after an event, besides updating its state.
#[derive(Debug, Clone, Copy, PartialEq, Eq)]
pub struct GuiEffect {
    /// Close the window.
    pub close_window: bool,
    /// Send the terminal its font settings again.
    pub reapply_font: bool,
}

/// The window's state: its title, the status line it shows, and whether the
/// terminal details are shown.
pub struct GuiState {
    pub title: String,
    pub status: String,
    pub expanded: bool,
}

/// The window's state as values.
pub struct GuiView {
    pub title: Seq<char>,
    pub status: Seq<char>,
    pub expanded: bool,
}

impl View for GuiState {
    type V = GuiView;

    open spec fn view(&self) -> GuiView {
        GuiView { title: self.title@, status: self.status@, expanded: self.expanded }
    }
}

/// The state after `event`.
pub open spec fn next_view(s: GuiView, event: GuiEvent) -> GuiView {
    match event {
        GuiEvent::Toggle => GuiView { title: s.title, status: s.status, expanded: !s.expanded },
        GuiEvent::IpcError(message) => GuiView {
            title: s.title,
            status: "IPC ERROR: "@ + message@,
            expanded: s.expanded,
        },
        GuiEvent::SetStatus(status) => GuiView {
            title: s.title,
            status: status@,
            expanded: s.expanded,
        },
        GuiEvent::TerminalCommand { init_backend, action } => match action {
            TerminalAction::ChangeTitle(title) => GuiView {
                title: title@,
                status: s.status,
                expanded: s.expanded,
            },
            _ => s,
        },
    }
}

/// What the window must do after `event`: close when the terminal's program
/// ended, and send the font again after the terminal's backend started.
pub open spec fn effect_of(event: GuiEvent) -> GuiEffect {
    match event {
        GuiEvent::TerminalCommand { init_backend, action } => GuiEffect {
            close_window: action is Shutdown,
            reapply_font: init_backend,
        },
        _ => GuiEffect { close_window: false, reapply_font: false },
    }
}

/// Showing and hiding the details twice leaves the state as it was.
pub proof fn lemma_toggle_twice(s: GuiView)
    ensures
        next_view(next_view(s, GuiEvent::Toggle), GuiEvent::Toggle) == s,
{
}

/// Only the details button shows or hides the terminal details, and it
/// always does.
pub proof fn lemma_only_toggle_changes_details(s: GuiView, event: GuiEvent)
    ensures
        next_view(s, event).expanded != s.expanded <==> event is Toggle,
{
}

/// Only the terminal changes the window title; the status line and the IPC
/// link never do.
pub proof fn lemma_title_follows_terminal(s: GuiView, event: GuiEvent)
    ensures
        next_view(s, event).title != s.title ==> event matches GuiEvent::TerminalCommand {
            action: TerminalAction::ChangeTitle(t),
            ..
        },
{
}

/// A status line from the patcher replaces the shown status word for word,
/// whatever the state (details shown or not), and leaves the title and the
/// details view alone; an IPC failure is shown as `IPC ERROR: ` and its
/// message.
pub proof fn lemma_status_shows_latest(s: GuiView, status: String, message: String)
    ensures
        next_view(s, GuiEvent::SetStatus(status)).status == status@,
        next_view(s, GuiEvent::SetStatus(status)).title == s.title,
        next_view(s, GuiEvent::SetStatus(status)).expanded == s.expanded,
        next_view(s, GuiEvent::IpcError(message)).status == "IPC ERROR: "@ + message@,
        next_view(s, GuiEvent::IpcError(message)).title == s.title,
        next_view(s, GuiEvent::IpcError(message)).expanded == s.expanded,
{
}

/// The font is sent again exactly after a command that started the
/// terminal's backend, and the window closes exactly when the terminal's
/// program ended; no other event asks for either.
pub proof fn lemma_terminal_effects(init_backend: bool, action: TerminalAction, event: GuiEvent)
    ensures
        effect_of(GuiEvent::TerminalCommand { init_backend, action }).reapply_font == init_backend,
        effect_of(GuiEvent::TerminalCommand { init_backend, action }).close_window == (action is Shutdown),
        !(event is TerminalCommand) ==> effect_of(event) == (GuiEffect {
            close_window: false,
            reapply_font: false,
        }),
{
}

/// A title change from the terminal becomes the window title as it is, and
/// nothing else in the state changes.
pub proof fn lemma_title_change(s: GuiView, init_backend: bool, title: String)
    ensures
        next_view(
            s,
            GuiEvent::TerminalCommand { init_backend, action: TerminalAction::ChangeTitle(title) },
        ) == (GuiView { title: title@, status: s.status, expanded: s.expanded }),
{
}

/// When the running executable's path is known the terminal runs exactly
/// that path, on every platform; only when it is unknown does the platform
/// choose a bare executable name, which differs between the platforms.
pub proof fn lemma_backend_program_prefers_known_path(path: Seq<char>, on_windows: bool)
    ensures
        backend_program_spec(Some(path), on_windows) == path,
        backend_program_spec(None, true) == "gmodpatchtool.exe"@,
        backend_program_spec(None, false) == "gmodpatchtool"@,
{
}

/// The program the terminal runs: the running executable when its path is
/// known, else the tool's executable name for the platform.
pub open spec fn backend_program_spec(
    current_exe: Option<Seq<char>>,
    on_windows: bool,
) -> Seq<char> {
    match current_exe {
        Some(path) => path,
        None => if on_windows {
            "gmodpatchtool.exe"@
        } else {
            "gmodpatchtool"@
        },
    }
}

/// The arguments the terminal's program gets: the tool's own arguments after
/// the program name, then the switch that makes it report over IPC.
pub open spec fn backend_args_spec(args: Seq<Seq<char>>) -> Seq<Seq<char>> {
    let passed = if args.len() == 0 {
        args
    } else {
        args.skip(1)
    };
    passed.push("--enable-ipc"@)
}

/// Chooses the program the terminal runs (see `backend_program_spec`).
pub fn backend_program(current_exe: Option<String>, on_windows: bool) -> (program: String)
    ensures
        program@ == backend_program_spec(
            match current_exe {
                Some(p) => Some(p@),
                None => None,
            },
            on_windows,
        ),
        current_exe matches Some(path) ==> program@ == path@,
{
    match current_exe {
        Some(path) => path,
        None => if on_windows {
            String::from_str("gmodpatchtool.exe")
        } else {
            String::from_str("gmodpatchtool")
        },
    }
}

/// Builds the arguments the terminal's program gets from the tool's own
/// command line `args`, program name first (see `backend_args_spec`).
pub fn backend_args(args: &Vec<String>) -> (passed: Vec<String>)
    ensures
        passed.deep_view() == backend_args_spec(args.deep_view()),
{
    let mut passed: Vec<String> = Vec::new();
    let mut i: usize = 1;
    while i < args.len()
        invariant
            1 <= i,
            i <= args.len() || i == 1,
            passed@.len() == i - 1,
            forall|k: int| 0 <= k < passed@.len() ==> #[trigger] passed@[k]@ == args@[k + 1]@,
        decreases args.len() - i,
    {
        passed.push(args[i].clone());
        i = i + 1;
    }
    let switch = String::from_str("--enable-ipc");
    passed.push(switch);
    proof {
        let expected = backend_args_spec(args.deep_view());
        let passed_args = if args.deep_view().len() == 0 {
            args.deep_view()
        } else {
            args.deep_view().skip(1)
        };
        assert(passed_args.len() == passed@.len() - 1);
        assert forall|k: int| 0 <= k < passed@.len() implies passed.deep_view()[k] == expected[k] by {
            if k < passed@.len() - 1 {
                assert(passed_args[k] == args@[k + 1]@);
            }
        }
    }
    assert(passed.deep_view() =~= backend_args_spec(args.deep_view()));
    passed
}

impl GuiState {
    /// The state the window opens with.
    pub fn new() -> (s: Self)
        ensures
            s@ == (GuiView {
                title: "GModPatchTool"@,
                status: "Starting..."@,
                expanded: false,
            }),
    {
        GuiState {
            title: String::from_str("GModPatchTool"),
            status: String::from_str("Starting..."),
            expanded: false,
        }
    }

    /// The window title.
    pub fn title(&self) -> (t: String)
        ensures
            t@ == self.title@,
    {
        self.title.clone()
    }

    /// The label of the button that shows or hides the terminal details.
    pub fn toggle_label(&self) -> (label: String)
        ensures
            label@ == (if self.expanded { "v"@ } else { ">"@ }),
    {
        if self.expanded {
            String::from_str("v")
        } else {
            String::from_str(">")
        }
    }

    /// Applies `event` to the state and says what else the window must do.
    pub fn update(&mut self, event: GuiEvent) -> (effect: GuiEffect)
        ensures
            final(self)@ == next_view(old(self)@, event),
            effect == effect_of(event),
            event matches GuiEvent::SetStatus(status) ==> final(self).status@ == status@,
            event matches GuiEvent::IpcError(message) ==> final(self).status@
                == "IPC ERROR: "@ + message@,
            event matches GuiEvent::TerminalCommand { init_backend, action } ==> {
                &&& effect.reapply_font == init_backend
                &&& effect.close_window == (action is Shutdown)
            },
            !(event is TerminalCommand) ==> !effect.reapply_font && !effect.close_window,
    {
        match event {
            GuiEvent::Toggle => {
                self.expanded = !self.expanded;
                GuiEffect { close_window: false, reapply_font: false }
            },
            GuiEvent::IpcError(message) => {
                self.status = String::from_str("IPC ERROR: ").concat(message.as_str());
                GuiEffect { close_window: false, reapply_font: false }
            },
            GuiEvent::SetStatus(status) => {
                self.status = status;
                GuiEffect { close_window: false, reapply_font: false }
            },
            GuiEvent::TerminalCommand { init_backend, action } => {
                let close_window = match action {
                    TerminalAction::Shutdown => true,
                    TerminalAction::ChangeTitle(title) => {
                        self.title = title;
                        false
                    },
                    TerminalAction::Other => false,
                };
                GuiEffect { close_window, reapply_font: init_backend }
            },
        }
    }
}

} // verus!
