use gmodpatchtool::gui::{
    backend_args, backend_program, GuiEffect, GuiEvent, GuiState, TerminalAction,
};

const NOTHING: GuiEffect = GuiEffect { close_window: false, reapply_font: false };

#[test]
fn window_opens_with_defaults() {
    let s = GuiState::new();
    assert_eq!(s.title, "GModPatchTool");
    assert_eq!(s.status, "Starting...");
    assert!(!s.expanded);
    assert_eq!(s.title(), "GModPatchTool");
    assert_eq!(s.toggle_label(), ">");
}

#[test]
fn toggle_shows_and_hides_details() {
    let mut s = GuiState::new();
    assert_eq!(s.update(GuiEvent::Toggle), NOTHING);
    assert!(s.expanded);
    assert_eq!(s.toggle_label(), "v");
    assert_eq!(s.update(GuiEvent::Toggle), NOTHING);
    assert!(!s.expanded);
    assert_eq!(s.title, "GModPatchTool");
    assert_eq!(s.status, "Starting...");
}

#[test]
fn ipc_error_is_shown_with_prefix() {
    let mut s = GuiState::new();
    let effect = s.update(GuiEvent::IpcError("broken pipe".to_string()));
    assert_eq!(effect, NOTHING);
    assert_eq!(s.status, "IPC ERROR: broken pipe");
}

#[test]
fn status_is_replaced() {
    let mut s = GuiState::new();
    s.update(GuiEvent::SetStatus("Patching...".to_string()));
    assert_eq!(s.status, "Patching...");
    s.update(GuiEvent::SetStatus("Done".to_string()));
    assert_eq!(s.status, "Done");
    assert_eq!(s.title, "GModPatchTool");
    assert!(!s.expanded);
}

#[test]
fn terminal_changes_title() {
    let mut s = GuiState::new();
    let effect = s.update(GuiEvent::TerminalCommand {
        init_backend: false,
        action: TerminalAction::ChangeTitle("bash".to_string()),
    });
    assert_eq!(effect, NOTHING);
    assert_eq!(s.title, "bash");
    assert_eq!(s.title(), "bash");
}

#[test]
fn terminal_shutdown_closes_window() {
    let mut s = GuiState::new();
    let effect = s.update(GuiEvent::TerminalCommand {
        init_backend: false,
        action: TerminalAction::Shutdown,
    });
    assert_eq!(effect, GuiEffect { close_window: true, reapply_font: false });
    assert_eq!(s.title, "GModPatchTool");
}

#[test]
fn backend_start_reapplies_font() {
    let mut s = GuiState::new();
    let effect = s.update(GuiEvent::TerminalCommand {
        init_backend: true,
        action: TerminalAction::Other,
    });
    assert_eq!(effect, GuiEffect { close_window: false, reapply_font: true });
    assert_eq!(s.status, "Starting...");
}

#[test]
fn backend_args_drop_program_name_and_add_switch() {
    let args = vec!["gmodpatchtool".to_string(), "--gui".to_string(), "x".to_string()];
    assert_eq!(backend_args(&args), vec!["--gui", "x", "--enable-ipc"]);
}

#[test]
fn backend_args_without_arguments() {
    assert_eq!(backend_args(&vec!["prog".to_string()]), vec!["--enable-ipc"]);
    assert_eq!(backend_args(&Vec::new()), vec!["--enable-ipc"]);
}

#[test]
fn backend_program_choice() {
    assert_eq!(backend_program(Some("/opt/tool".to_string()), false), "/opt/tool");
    assert_eq!(backend_program(None, true), "gmodpatchtool.exe");
    assert_eq!(backend_program(None, false), "gmodpatchtool");
}
