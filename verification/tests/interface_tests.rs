use cmux::control::{
    control_message, ConfigCommand, ConfigControl, ControlCommand, ControlMessage, ControlResponse,
    CursorCommand, CursorControl, SelectionCommand, SelectionControl, SessionCommand, SessionControl,
    TerminalCommand, TerminalControl, WindowCommand, WindowControl, WindowOptions,
};
use cmux::text::{decimal_string, push_decimal};
use cmux::ui::{
    BorderRect, FramePart, PaneBorderRenderer, PaneInfo, Rgb, StatusBar, TabBar, TabInfo, TabPart, TabRect,
    Theme, UiRenderer,
};

fn hint_pairs(bar: &StatusBar) -> Vec<(String, String)> {
    bar.hints.clone()
}

fn pairs(items: &[(&str, &str)]) -> Vec<(String, String)> {
    items.iter().map(|(k, a)| (k.to_string(), a.to_string())).collect()
}

#[test]
fn decimal_text_of_numbers() {
    assert_eq!(decimal_string(0), "0");
    assert_eq!(decimal_string(7), "7");
    assert_eq!(decimal_string(1234), "1234");
    assert_eq!(decimal_string(u64::MAX), u64::MAX.to_string());
    let mut s = "n=".to_string();
    push_decimal(&mut s, 905);
    assert_eq!(s, "n=905");
}

#[test]
fn window_commands_become_window_controls() {
    assert_eq!(
        control_message(ControlCommand::Window(WindowCommand::Fullscreen { enabled: true })),
        ControlMessage::Window(WindowControl::SetFullscreen { enabled: true })
    );
    assert_eq!(
        control_message(ControlCommand::Window(WindowCommand::Move { x: -3, y: 9 })),
        ControlMessage::Window(WindowControl::SetPosition { x: -3, y: 9 })
    );
    assert_eq!(
        control_message(ControlCommand::Window(WindowCommand::Resize { width: 800, height: 600 })),
        ControlMessage::Window(WindowControl::SetSize { width: 800, height: 600 })
    );
    let bits = 0.5f64.to_bits();
    assert_eq!(
        control_message(ControlCommand::Window(WindowCommand::Opacity { opacity_bits: bits })),
        ControlMessage::Window(WindowControl::SetOpacity { opacity_bits: bits })
    );
    assert_eq!(
        control_message(ControlCommand::Window(WindowCommand::Title { title: "t".to_string() })),
        ControlMessage::Window(WindowControl::SetTitle { title: "t".to_string() })
    );
    assert_eq!(
        control_message(ControlCommand::Window(WindowCommand::List)),
        ControlMessage::Window(WindowControl::ListWindows)
    );
    assert_eq!(
        control_message(ControlCommand::Window(WindowCommand::Info)),
        ControlMessage::Window(WindowControl::GetInfo)
    );
}

#[test]
fn terminal_commands_become_terminal_controls() {
    assert_eq!(
        control_message(ControlCommand::Terminal(TerminalCommand::Key { key: "Enter".to_string() })),
        ControlMessage::Terminal(TerminalControl::SendKey { key: "Enter".to_string(), mods: vec![] })
    );
    assert_eq!(
        control_message(ControlCommand::Terminal(TerminalCommand::Send { text: "ls\n".to_string() })),
        ControlMessage::Terminal(TerminalControl::SendText { text: "ls\n".to_string() })
    );
    assert_eq!(
        control_message(ControlCommand::Terminal(TerminalCommand::ScrollTop)),
        ControlMessage::Terminal(TerminalControl::ScrollToTop)
    );
    assert_eq!(
        control_message(ControlCommand::Terminal(TerminalCommand::Copy)),
        ControlMessage::Terminal(TerminalControl::CopySelection)
    );
    assert_eq!(
        control_message(ControlCommand::Terminal(TerminalCommand::Content { start: Some(2), end: None })),
        ControlMessage::Terminal(TerminalControl::GetContent { start: Some(2), end: None })
    );
    assert_eq!(
        control_message(ControlCommand::Terminal(TerminalCommand::Resize { cols: 80, rows: 24 })),
        ControlMessage::Terminal(TerminalControl::SetSize { cols: 80, rows: 24 })
    );
}

#[test]
fn other_commands_become_their_controls() {
    assert_eq!(
        control_message(ControlCommand::Config(ConfigCommand::SetOption {
            option: "font".to_string(),
            value: "12".to_string()
        })),
        ControlMessage::Config(ConfigControl::SetOption { option: "font".to_string(), value: "12".to_string() })
    );
    assert_eq!(
        control_message(ControlCommand::Config(ConfigCommand::Reset { option: "font".to_string() })),
        ControlMessage::Config(ConfigControl::ResetOption { option: "font".to_string() })
    );
    assert_eq!(
        control_message(ControlCommand::Config(ConfigCommand::Get)),
        ControlMessage::Config(ConfigControl::GetConfig)
    );
    assert_eq!(
        control_message(ControlCommand::Session(SessionCommand::NewWindow {
            working_directory: None,
            command: Some("htop".to_string()),
            title: Some("top".to_string()),
        })),
        ControlMessage::Session(SessionControl::CreateWindow {
            options: WindowOptions {
                working_directory: None,
                command: Some("htop".to_string()),
                title: Some("top".to_string()),
            }
        })
    );
    assert_eq!(
        control_message(ControlCommand::Session(SessionCommand::Active)),
        ControlMessage::Session(SessionControl::GetActiveWindow)
    );
    assert_eq!(
        control_message(ControlCommand::Cursor(CursorCommand::Blink { blinking: false })),
        ControlMessage::Cursor(CursorControl::SetBlinking { blinking: false })
    );
    assert_eq!(
        control_message(ControlCommand::Cursor(CursorCommand::Pos)),
        ControlMessage::Cursor(CursorControl::GetPosition)
    );
    assert_eq!(
        control_message(ControlCommand::Selection(SelectionCommand::All)),
        ControlMessage::Selection(SelectionControl::SelectAll)
    );
    assert_eq!(
        control_message(ControlCommand::Selection(SelectionCommand::Get)),
        ControlMessage::Selection(SelectionControl::GetText)
    );
}

#[test]
fn responses_clone_to_equal_values() {
    let r = ControlResponse::WindowInfo {
        id: 3,
        title: "x".to_string(),
        size: (10, 20),
        position: (-1, 2),
        is_focused: true,
        is_maximized: false,
        is_fullscreen: false,
        is_minimized: true,
    };
    assert_eq!(r.clone(), r);
    let l = ControlResponse::WindowList(vec![1, 2]);
    assert_eq!(l.clone(), l);
    assert_eq!(ControlResponse::Success.clone(), ControlResponse::Success);
}

#[test]
fn themes_hold_their_colors() {
    let dark = Theme::default();
    assert_eq!(dark.pane_border_active, Rgb::new(88, 166, 255));
    assert_eq!(dark.status_bar_bg, Rgb { r: 13, g: 13, b: 13 });
    assert_eq!(dark.tab_inactive_fg, Rgb::new(139, 139, 139));
    let light = Theme::light();
    assert_eq!(light.pane_border_active, Rgb::new(9, 105, 218));
    assert_eq!(light.status_bar_bg, Rgb::new(246, 248, 250));
    assert_eq!(light.tab_bar_bg, Rgb::new(255, 255, 255));
}

#[test]
fn default_bars_and_borders() {
    let borders = PaneBorderRenderer::default();
    assert_eq!(f32::from_bits(borders.border_width_bits), 2.0);
    assert_eq!(f32::from_bits(borders.title_height_bits), 20.0);
    assert!(borders.show_titles);

    let bar = StatusBar::default();
    assert_eq!(f32::from_bits(bar.height_bits), 24.0);
    assert_eq!(bar.mode_text, "");
    assert_eq!(bar.session_name, "default");
    assert_eq!(bar.window_index, 0);
    assert_eq!(
        hint_pairs(&bar),
        pairs(&[("Cmd+D", "Split"), ("Cmd+W", "Close"), ("Cmd+[", "Prev"), ("Cmd+]", "Next")])
    );

    let tabs = TabBar::default();
    assert_eq!(f32::from_bits(tabs.height_bits), 28.0);
    assert_eq!(tabs.tabs.len(), 1);
    assert_eq!(tabs.tabs[0].title, "cmux");
    assert!(!tabs.tabs[0].is_modified);
    assert_eq!(tabs.active_index, 0);
}

#[test]
fn prefix_mode_switches_hints() {
    let mut ui = UiRenderer::default();
    assert!(ui.enabled);
    ui.set_prefix_mode(true);
    assert_eq!(ui.status_bar.mode_text, "PREFIX");
    assert_eq!(
        hint_pairs(&ui.status_bar),
        pairs(&[
            ("d", "Split V"),
            ("D", "Split H"),
            ("x", "Close"),
            ("n", "Next"),
            ("p", "Prev"),
            ("Esc", "Cancel")
        ])
    );
    ui.set_prefix_mode(false);
    assert_eq!(ui.status_bar.mode_text, "");
    assert_eq!(
        hint_pairs(&ui.status_bar),
        pairs(&[
            ("Cmd+D", "Split"),
            ("Cmd+W", "Close"),
            ("Cmd+[", "Prev"),
            ("Cmd+]", "Next"),
            ("Cmd+B", "Prefix")
        ])
    );
    assert_eq!(ui.status_bar.session_name, "default");
}

#[test]
fn set_active_pane_marks_exactly_one() {
    let mut ui = UiRenderer::default();
    let mut panes: Vec<PaneInfo> = (0..3)
        .map(|i| PaneInfo {
            x_bits: (i as f32 * 10.0).to_bits(),
            y_bits: 0,
            width_bits: 10.0f32.to_bits(),
            height_bits: 10.0f32.to_bits(),
            is_active: true,
            title: format!("p{}", i),
        })
        .collect();
    ui.set_active_pane(1, &mut panes);
    let flags: Vec<bool> = panes.iter().map(|p| p.is_active).collect();
    assert_eq!(flags, vec![false, true, false]);
    assert_eq!(panes[2].title, "p2");
    ui.set_active_pane(9, &mut panes);
    assert!(panes.iter().all(|p| !p.is_active));
}

#[test]
fn default_renderer_holds_default_parts() {
    let ui = UiRenderer::default();
    assert_eq!(ui.theme, Theme::default());
    assert_eq!(ui.pane_borders, PaneBorderRenderer::default());
    assert_eq!(ui.tab_bar.tabs.len(), 1);
    assert_eq!(ui.tab_bar.tabs[0].title, "cmux");
    assert_eq!(f32::from_bits(ui.tab_bar.height_bits), 28.0);
    assert_eq!(ui.status_bar.session_name, "default");
    assert_eq!(ui.status_bar.hints.len(), 4);
}

#[test]
fn text_response_clones_to_equal_text() {
    let r = ControlResponse::Text("hello".to_string());
    assert_eq!(r.clone(), r);
    let e = ControlResponse::Error("bad".to_string());
    assert_eq!(e.clone(), e);
}

fn info(active: bool) -> PaneInfo {
    PaneInfo { x_bits: 0, y_bits: 0, width_bits: 0, height_bits: 0, is_active: active, title: String::new() }
}

#[test]
fn border_plan_lists_each_frame_in_order() {
    let theme = Theme::default();
    let borders = PaneBorderRenderer::default();
    let plan = borders.plan(&[info(false), info(true)], &theme);
    assert_eq!(plan.len(), 10);
    assert_eq!(
        plan[0],
        BorderRect { pane: 0, part: FramePart::Top, color: theme.pane_border_inactive, active: false }
    );
    assert_eq!(plan[4].part, FramePart::Title);
    assert_eq!(
        plan[8],
        BorderRect { pane: 1, part: FramePart::Right, color: theme.pane_border_active, active: true }
    );
    let no_titles = PaneBorderRenderer { show_titles: false, ..borders };
    assert_eq!(no_titles.plan(&[info(true)], &theme).len(), 4);
}

#[test]
fn tab_plan_marks_the_active_tab() {
    let theme = Theme::light();
    let mut bar = TabBar::default();
    bar.tabs.push(TabInfo { title: "b".to_string(), is_modified: false });
    bar.tabs.push(TabInfo { title: "c".to_string(), is_modified: true });
    bar.active_index = 1;
    let plan = bar.plan(&theme);
    assert_eq!(
        plan,
        vec![
            TabRect { tab: 0, part: TabPart::Background, color: theme.tab_bar_bg },
            TabRect { tab: 1, part: TabPart::Background, color: theme.tab_active_bg },
            TabRect { tab: 1, part: TabPart::Indicator, color: theme.accent },
            TabRect { tab: 2, part: TabPart::Background, color: theme.tab_bar_bg },
        ]
    );
}
