//! The control vocabulary: commands given on the command line, the control
//! messages they become on the IPC socket, and the responses.
//!
//! Floating-point values travel as their IEEE-754 bit patterns.

use vstd::prelude::*;
use std::path::PathBuf;

verus! {

/// Options for a window created through the control socket.
#[derive(Debug, Clone, PartialEq, Default)]
pub struct WindowOptions {
    /// Working directory of the window's shell.
    pub working_directory: Option<PathBuf>,
    /// Program to run in place of the shell.
    pub command: Option<String>,
    /// Window title.
    pub title: Option<String>,
}

/// Window control commands.
#[derive(Debug, Clone, PartialEq)]
pub enum WindowControl {
    /// Minimize the window
    Minimize,
    /// Maximize the window
    Maximize,
    /// Restore the window from minimized/maximized state
    Restore,
    /// Toggle fullscreen mode
    ToggleFullscreen,
    /// Set fullscreen state
    SetFullscreen { enabled: bool },
    /// Toggle maximized state
    ToggleMaximized,
    /// Focus the window
    Focus,
    /// Set window urgency/highlight
    SetUrgent { urgent: bool },
    /// Set window title
    SetTitle { title: String },
    /// Set window opacity (0-1), as the bit pattern of a double-precision float
    SetOpacity { opacity_bits: u64 },
    /// Set window blur
    SetBlur { blur: bool },
    /// Set window visibility
    SetVisible { visible: bool },
    /// Move window to position
    SetPosition { x: i32, y: i32 },
    /// Resize window
    SetSize { width: u32, height: u32 },
    /// Get window information
    GetInfo,
    /// Close the window
    Close,
    /// Get all window IDs
    ListWindows,
}

/// Terminal control commands.
#[derive(Debug, Clone, PartialEq)]
pub enum TerminalControl {
    /// Send text to the terminal
    SendText { text: String },
    /// Send key sequence to the terminal
    SendKey { key: String, mods: Vec<String> },
    /// Scroll up by lines
    ScrollUp { lines: usize },
    /// Scroll down by lines
    ScrollDown { lines: usize },
    /// Scroll to top
    ScrollToTop,
    /// Scroll to bottom
    ScrollToBottom,
    /// Clear screen
    Clear,
    /// Copy selection to clipboard
    CopySelection,
    /// Paste from clipboard
    Paste,
    /// Get terminal content/lines
    GetContent { start: Option<usize>, end: Option<usize> },
    /// Get terminal size (cols x rows)
    GetSize,
    /// Set terminal size (cols x rows)
    SetSize { cols: usize, rows: usize },
}

/// Configuration control commands.
#[derive(Debug, Clone, PartialEq)]
pub enum ConfigControl {
    /// Reload configuration from file
    Reload,
    /// Get current configuration
    GetConfig,
    /// Set configuration option
    SetOption { option: String, value: String },
    /// Reset configuration option to default
    ResetOption { option: String },
}

/// Session control commands.
#[derive(Debug, Clone, PartialEq)]
pub enum SessionControl {
    /// Create new window
    CreateWindow { options: WindowOptions },
    /// List all windows with their IDs
    ListWindows,
    /// Get active window ID
    GetActiveWindow,
    /// Shutdown the daemon
    Shutdown,
}

/// Cursor control commands.
#[derive(Debug, Clone, PartialEq)]
pub enum CursorControl {
    /// Get cursor position (col, row)
    GetPosition,
    /// Set cursor style
    SetStyle { style: String },
    /// Set cursor blinking
    SetBlinking { blinking: bool },
}

/// Selection control commands.
#[derive(Debug, Clone, PartialEq)]
pub enum SelectionControl {
    /// Get current selection text
    GetText,
    /// Clear selection
    Clear,
    /// Select all
    SelectAll,
}

/// Complete control message.
#[derive(Debug, Clone, PartialEq)]
pub enum ControlMessage {
    Window(WindowControl),
    Terminal(TerminalControl),
    Config(ConfigControl),
    Session(SessionControl),
    Cursor(CursorControl),
    Selection(SelectionControl),
}

/// Control message response.
#[derive(Debug, PartialEq)]
pub enum ControlResponse {
    /// Success response (`Ok` in the wire format)
    Success,
    /// Success with text data
    Text(String),
    /// Success with window info
    WindowInfo {
        id: u64,
        title: String,
        size: (u32, u32),
        position: (i32, i32),
        is_focused: bool,
        is_maximized: bool,
        is_fullscreen: bool,
        is_minimized: bool,
    },
    /// Success with terminal size
    TerminalSize { cols: usize, rows: usize },
    /// Success with cursor position
    CursorPosition { col: usize, row: usize },
    /// Success with window list
    WindowList(Vec<u64>),
    /// Error response
    Error(String),
}

impl Clone for ControlResponse {
    fn clone(&self) -> (r: Self)
        ensures
            match *self {
                ControlResponse::WindowList(ids) => r matches ControlResponse::WindowList(copy)
                    && copy@ == ids@,
                _ => r == *self,
            },
    {
        match self {
            ControlResponse::Success => ControlResponse::Success,
            ControlResponse::Text(t) => ControlResponse::Text(t.clone()),
            ControlResponse::WindowInfo {
                id,
                title,
                size,
                position,
                is_focused,
                is_maximized,
                is_fullscreen,
                is_minimized,
            } => ControlResponse::WindowInfo {
                id: *id,
                title: title.clone(),
                size: (size.0, size.1),
                position: (position.0, position.1),
                is_focused: *is_focused,
                is_maximized: *is_maximized,
                is_fullscreen: *is_fullscreen,
                is_minimized: *is_minimized,
            },
            ControlResponse::TerminalSize { cols, rows } => ControlResponse::TerminalSize {
                cols: *cols,
                rows: *rows,
            },
            ControlResponse::CursorPosition { col, row } => ControlResponse::CursorPosition {
                col: *col,
                row: *row,
            },
            ControlResponse::WindowList(ids) => {
                let copy = ids.clone();
                assert(copy@ =~= ids@);
                ControlResponse::WindowList(copy)
            },
            ControlResponse::Error(e) => ControlResponse::Error(e.clone()),
        }
    }
}

/// Window information structure.
#[derive(Debug, Clone)]
pub struct WindowInfo {
    pub id: u64,
    pub title: String,
    pub working_directory: Option<PathBuf>,
}

/// `cmux control window ...` subcommands.
#[derive(Debug, Clone, PartialEq)]
pub enum WindowCommand {
    Minimize,
    Maximize,
    Restore,
    ToggleFullscreen,
    Fullscreen { enabled: bool },
    ToggleMaximized,
    Focus,
    Urgent { urgent: bool },
    Title { title: String },
    /// Opacity as the bit pattern of a double-precision float.
    Opacity { opacity_bits: u64 },
    Blur { blur: bool },
    Visible { visible: bool },
    Move { x: i32, y: i32 },
    Resize { width: u32, height: u32 },
    Info,
    Close,
    List,
}

/// `cmux control terminal ...` subcommands.
#[derive(Debug, Clone, PartialEq)]
pub enum TerminalCommand {
    Send { text: String },
    Key { key: String },
    ScrollUp { lines: usize },
    ScrollDown { lines: usize },
    ScrollTop,
    ScrollBottom,
    Clear,
    Copy,
    Paste,
    Content { start: Option<usize>, end: Option<usize> },
    Size,
    Resize { cols: usize, rows: usize },
}

/// `cmux control config ...` subcommands.
#[derive(Debug, Clone, PartialEq)]
pub enum ConfigCommand {
    Reload,
    Get,
    SetOption { option: String, value: String },
    Reset { option: String },
}

/// `cmux control session ...` subcommands.
#[derive(Debug, Clone, PartialEq)]
pub enum SessionCommand {
    NewWindow { working_directory: Option<PathBuf>, command: Option<String>, title: Option<String> },
    List,
    Active,
    Shutdown,
}

/// `cmux control cursor ...` subcommands.
#[derive(Debug, Clone, PartialEq)]
pub enum CursorCommand {
    Pos,
    Style { style: String },
    Blink { blinking: bool },
}

/// `cmux control selection ...` subcommands.
#[derive(Debug, Clone, PartialEq)]
pub enum SelectionCommand {
    Get,
    Clear,
    All,
}

/// `cmux control ...` commands.
#[derive(Debug, Clone, PartialEq)]
pub enum ControlCommand {
    Window(WindowCommand),
    Terminal(TerminalCommand),
    Config(ConfigCommand),
    Session(SessionCommand),
    Cursor(CursorCommand),
    Selection(SelectionCommand),
}

/// The window control that a window command asks for.
pub open spec fn window_control_for(cmd: WindowCommand) -> WindowControl {
    match cmd {
        WindowCommand::Minimize => WindowControl::Minimize,
        WindowCommand::Maximize => WindowControl::Maximize,
        WindowCommand::Restore => WindowControl::Restore,
        WindowCommand::ToggleFullscreen => WindowControl::ToggleFullscreen,
        WindowCommand::Fullscreen { enabled } => WindowControl::SetFullscreen { enabled },
        WindowCommand::ToggleMaximized => WindowControl::ToggleMaximized,
        WindowCommand::Focus => WindowControl::Focus,
        WindowCommand::Urgent { urgent } => WindowControl::SetUrgent { urgent },
        WindowCommand::Title { title } => WindowControl::SetTitle { title },
        WindowCommand::Opacity { opacity_bits } => WindowControl::SetOpacity { opacity_bits },
        WindowCommand::Blur { blur } => WindowControl::SetBlur { blur },
        WindowCommand::Visible { visible } => WindowControl::SetVisible { visible },
        WindowCommand::Move { x, y } => WindowControl::SetPosition { x, y },
        WindowCommand::Resize { width, height } => WindowControl::SetSize { width, height },
        WindowCommand::Info => WindowControl::GetInfo,
        WindowCommand::Close => WindowControl::Close,
        WindowCommand::List => WindowControl::ListWindows,
    }
}

/// The terminal control that a terminal command asks for; a key is sent
/// without modifiers.
pub open spec fn terminal_control_matches(cmd: TerminalCommand, c: TerminalControl) -> bool {
    match cmd {
        TerminalCommand::Send { text } => c == TerminalControl::SendText { text },
        TerminalCommand::Key { key } => c matches TerminalControl::SendKey { key: k, mods } && k
            == key && mods@.len() == 0,
        TerminalCommand::ScrollUp { lines } => c == TerminalControl::ScrollUp { lines },
        TerminalCommand::ScrollDown { lines } => c == TerminalControl::ScrollDown { lines },
        TerminalCommand::ScrollTop => c == TerminalControl::ScrollToTop,
        TerminalCommand::ScrollBottom => c == TerminalControl::ScrollToBottom,
        TerminalCommand::Clear => c == TerminalControl::Clear,
        TerminalCommand::Copy => c == TerminalControl::CopySelection,
        TerminalCommand::Paste => c == TerminalControl::Paste,
        TerminalCommand::Content { start, end } => c == TerminalControl::GetContent { start, end },
        TerminalCommand::Size => c == TerminalControl::GetSize,
        TerminalCommand::Resize { cols, rows } => c == TerminalControl::SetSize { cols, rows },
    }
}

/// The configuration control that a config command asks for.
pub open spec fn config_control_for(cmd: ConfigCommand) -> ConfigControl {
    match cmd {
        ConfigCommand::Reload => ConfigControl::Reload,
        ConfigCommand::Get => ConfigControl::GetConfig,
        ConfigCommand::SetOption { option, value } => ConfigControl::SetOption { option, value },
        ConfigCommand::Reset { option } => ConfigControl::ResetOption { option },
    }
}

/// The session control that a session command asks for.
pub open spec fn session_control_for(cmd: SessionCommand) -> SessionControl {
    match cmd {
        SessionCommand::NewWindow { working_directory, command, title } => SessionControl::CreateWindow {
            options: WindowOptions { working_directory, command, title },
        },
        SessionCommand::List => SessionControl::ListWindows,
        SessionCommand::Active => SessionControl::GetActiveWindow,
        SessionCommand::Shutdown => SessionControl::Shutdown,
    }
}

/// The cursor control that a cursor command asks for.
pub open spec fn cursor_control_for(cmd: CursorCommand) -> CursorControl {
    match cmd {
        CursorCommand::Pos => CursorControl::GetPosition,
        CursorCommand::Style { style } => CursorControl::SetStyle { style },
        CursorCommand::Blink { blinking } => CursorControl::SetBlinking { blinking },
    }
}

/// The selection control that a selection command asks for.
pub open spec fn selection_control_for(cmd: SelectionCommand) -> SelectionControl {
    match cmd {
        SelectionCommand::Get => SelectionControl::GetText,
        SelectionCommand::Clear => SelectionControl::Clear,
        SelectionCommand::All => SelectionControl::SelectAll,
    }
}

/// `m` is the control message that command `cmd` asks for.
pub open spec fn is_message_for(cmd: ControlCommand, m: ControlMessage) -> bool {
    match cmd {
        ControlCommand::Window(c) => m == ControlMessage::Window(window_control_for(c)),
        ControlCommand::Terminal(c) => m matches ControlMessage::Terminal(t)
            && terminal_control_matches(c, t),
        ControlCommand::Config(c) => m == ControlMessage::Config(config_control_for(c)),
        ControlCommand::Session(c) => m == ControlMessage::Session(session_control_for(c)),
        ControlCommand::Cursor(c) => m == ControlMessage::Cursor(cursor_control_for(c)),
        ControlCommand::Selection(c) => m == ControlMessage::Selection(selection_control_for(c)),
    }
}

/// Converts a control command into the control message sent to the
/// running instance.
pub fn control_message(command: ControlCommand) -> (m: ControlMessage)
    ensures
        is_message_for(command, m),
{
    match command {
        ControlCommand::Window(cmd) => {
            let window_control = match cmd {
                WindowCommand::Minimize => WindowControl::Minimize,
                WindowCommand::Maximize => WindowControl::Maximize,
                WindowCommand::Restore => WindowControl::Restore,
                WindowCommand::ToggleFullscreen => WindowControl::ToggleFullscreen,
                WindowCommand::Fullscreen { enabled } => WindowControl::SetFullscreen { enabled },
                WindowCommand::ToggleMaximized => WindowControl::ToggleMaximized,
                WindowCommand::Focus => WindowControl::Focus,
                WindowCommand::Urgent { urgent } => WindowControl::SetUrgent { urgent },
                WindowCommand::Title { title } => WindowControl::SetTitle { title },
                WindowCommand::Opacity { opacity_bits } => WindowControl::SetOpacity { opacity_bits },
                WindowCommand::Blur { blur } => WindowControl::SetBlur { blur },
                WindowCommand::Visible { visible } => WindowControl::SetVisible { visible },
                WindowCommand::Move { x, y } => WindowControl::SetPosition { x, y },
                WindowCommand::Resize { width, height } => WindowControl::SetSize { width, height },
                WindowCommand::Info => WindowControl::GetInfo,
                WindowCommand::Close => WindowControl::Close,
                WindowCommand::List => WindowControl::ListWindows,
            };
            ControlMessage::Window(window_control)
        },
        ControlCommand::Terminal(cmd) => {
            let terminal_control = match cmd {
                TerminalCommand::Send { text } => TerminalControl::SendText { text },
                TerminalCommand::Key { key } => TerminalControl::SendKey { key, mods: Vec::new() },
                TerminalCommand::ScrollUp { lines } => TerminalControl::ScrollUp { lines },
                TerminalCommand::ScrollDown { lines } => TerminalControl::ScrollDown { lines },
                TerminalCommand::ScrollTop => TerminalControl::ScrollToTop,
                TerminalCommand::ScrollBottom => TerminalControl::ScrollToBottom,
                TerminalCommand::Clear => TerminalControl::Clear,
                TerminalCommand::Copy => TerminalControl::CopySelection,
                TerminalCommand::Paste => TerminalControl::Paste,
                TerminalCommand::Content { start, end } => TerminalControl::GetContent { start, end },
                TerminalCommand::Size => TerminalControl::GetSize,
                TerminalCommand::Resize { cols, rows } => TerminalControl::SetSize { cols, rows },
            };
            ControlMessage::Terminal(terminal_control)
        },
        ControlCommand::Config(cmd) => {
            let config_control = match cmd {
                ConfigCommand::Reload => ConfigControl::Reload,
                ConfigCommand::Get => ConfigControl::GetConfig,
                ConfigCommand::SetOption { option, value } => ConfigControl::SetOption { option, value },
                ConfigCommand::Reset { option } => ConfigControl::ResetOption { option },
            };
            ControlMessage::Config(config_control)
        },
        ControlCommand::Session(cmd) => {
            let session_control = match cmd {
                SessionCommand::NewWindow { working_directory, command, title } => {
                    let options = WindowOptions { working_directory, command, title };
                    SessionControl::CreateWindow { options }
                },
                SessionCommand::List => SessionControl::ListWindows,
                SessionCommand::Active => SessionControl::GetActiveWindow,
                SessionCommand::Shutdown => SessionControl::Shutdown,
            };
            ControlMessage::Session(session_control)
        },
        ControlCommand::Cursor(cmd) => {
            let cursor_control = match cmd {
                CursorCommand::Pos => CursorControl::GetPosition,
                CursorCommand::Style { style } => CursorControl::SetStyle { style },
                CursorCommand::Blink { blinking } => CursorControl::SetBlinking { blinking },
            };
            ControlMessage::Cursor(cursor_control)
        },
        ControlCommand::Selection(cmd) => {
            let selection_control = match cmd {
                SelectionCommand::Get => SelectionControl::GetText,
                SelectionCommand::Clear => SelectionControl::Clear,
                SelectionCommand::All => SelectionControl::SelectAll,
            };
            ControlMessage::Selection(selection_control)
        },
    }
}

/// Every command becomes the control of the same name, carrying the same
/// arguments: window commands set or query the window, terminal commands
/// act on the terminal (a key goes without modifiers), configuration,
/// session, cursor and selection commands likewise.
pub proof fn lemma_command_becomes_namesake(cmd: ControlCommand, m: ControlMessage)
    requires
        is_message_for(cmd, m),
    ensures
        match cmd {
            ControlCommand::Window(w) => match w {
                WindowCommand::Minimize => m == ControlMessage::Window(WindowControl::Minimize),
                WindowCommand::Maximize => m == ControlMessage::Window(WindowControl::Maximize),
                WindowCommand::Restore => m == ControlMessage::Window(WindowControl::Restore),
                WindowCommand::ToggleFullscreen => m == ControlMessage::Window(
                    WindowControl::ToggleFullscreen,
                ),
                WindowCommand::Fullscreen { enabled: e } => m == ControlMessage::Window(
                    WindowControl::SetFullscreen { enabled: e },
                ),
                WindowCommand::ToggleMaximized => m == ControlMessage::Window(
                    WindowControl::ToggleMaximized,
                ),
                WindowCommand::Focus => m == ControlMessage::Window(WindowControl::Focus),
                WindowCommand::Urgent { urgent: u } => m == ControlMessage::Window(
                    WindowControl::SetUrgent { urgent: u },
                ),
                WindowCommand::Title { title: t } => m == ControlMessage::Window(
                    WindowControl::SetTitle { title: t },
                ),
                WindowCommand::Opacity { opacity_bits: o } => m == ControlMessage::Window(
                    WindowControl::SetOpacity { opacity_bits: o },
                ),
                WindowCommand::Blur { blur: b } => m == ControlMessage::Window(
                    WindowControl::SetBlur { blur: b },
                ),
                WindowCommand::Visible { visible: b } => m == ControlMessage::Window(
                    WindowControl::SetVisible { visible: b },
                ),
                WindowCommand::Move { x: px, y: py } => m == ControlMessage::Window(
                    WindowControl::SetPosition { x: px, y: py },
                ),
                WindowCommand::Resize { width: w2, height: h2 } => m == ControlMessage::Window(
                    WindowControl::SetSize { width: w2, height: h2 },
                ),
                WindowCommand::Info => m == ControlMessage::Window(WindowControl::GetInfo),
                WindowCommand::Close => m == ControlMessage::Window(WindowControl::Close),
                WindowCommand::List => m == ControlMessage::Window(WindowControl::ListWindows),
            },
            ControlCommand::Terminal(t) => match t {
                TerminalCommand::Send { text: x } => m == ControlMessage::Terminal(
                    TerminalControl::SendText { text: x },
                ),
                TerminalCommand::Key { key: k } => m matches ControlMessage::Terminal(
                    TerminalControl::SendKey { key: k2, mods: ms },
                ) && k2 == k && ms@.len() == 0,
                TerminalCommand::ScrollUp { lines: n } => m == ControlMessage::Terminal(
                    TerminalControl::ScrollUp { lines: n },
                ),
                TerminalCommand::ScrollDown { lines: n } => m == ControlMessage::Terminal(
                    TerminalControl::ScrollDown { lines: n },
                ),
                TerminalCommand::ScrollTop => m == ControlMessage::Terminal(
                    TerminalControl::ScrollToTop,
                ),
                TerminalCommand::ScrollBottom => m == ControlMessage::Terminal(
                    TerminalControl::ScrollToBottom,
                ),
                TerminalCommand::Clear => m == ControlMessage::Terminal(TerminalControl::Clear),
                TerminalCommand::Copy => m == ControlMessage::Terminal(
                    TerminalControl::CopySelection,
                ),
                TerminalCommand::Paste => m == ControlMessage::Terminal(TerminalControl::Paste),
                TerminalCommand::Content { start: a, end: b } => m == ControlMessage::Terminal(
                    TerminalControl::GetContent { start: a, end: b },
                ),
                TerminalCommand::Size => m == ControlMessage::Terminal(TerminalControl::GetSize),
                TerminalCommand::Resize { cols: c, rows: r } => m == ControlMessage::Terminal(
                    TerminalControl::SetSize { cols: c, rows: r },
                ),
            },
            ControlCommand::Config(c) => match c {
                ConfigCommand::Reload => m == ControlMessage::Config(ConfigControl::Reload),
                ConfigCommand::Get => m == ControlMessage::Config(ConfigControl::GetConfig),
                ConfigCommand::SetOption { option: o, value: x } => m == ControlMessage::Config(
                    ConfigControl::SetOption { option: o, value: x },
                ),
                ConfigCommand::Reset { option: o } => m == ControlMessage::Config(
                    ConfigControl::ResetOption { option: o },
                ),
            },
            ControlCommand::Session(c) => match c {
                SessionCommand::NewWindow { working_directory: d, command: x, title: t } => m
                    == ControlMessage::Session(
                    SessionControl::CreateWindow {
                        options: WindowOptions { working_directory: d, command: x, title: t },
                    },
                ),
                SessionCommand::List => m == ControlMessage::Session(SessionControl::ListWindows),
                SessionCommand::Active => m == ControlMessage::Session(
                    SessionControl::GetActiveWindow,
                ),
                SessionCommand::Shutdown => m == ControlMessage::Session(SessionControl::Shutdown),
            },
            ControlCommand::Cursor(c) => match c {
                CursorCommand::Pos => m == ControlMessage::Cursor(CursorControl::GetPosition),
                CursorCommand::Style { style: x } => m == ControlMessage::Cursor(
                    CursorControl::SetStyle { style: x },
                ),
                CursorCommand::Blink { blinking: b } => m == ControlMessage::Cursor(
                    CursorControl::SetBlinking { blinking: b },
                ),
            },
            ControlCommand::Selection(c) => match c {
                SelectionCommand::Get => m == ControlMessage::Selection(SelectionControl::GetText),
                SelectionCommand::Clear => m == ControlMessage::Selection(SelectionControl::Clear),
                SelectionCommand::All => m == ControlMessage::Selection(
                    SelectionControl::SelectAll,
                ),
            },
        },
{
}

} // verus!
