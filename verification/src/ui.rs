//! Interface data of the multiplexer: the color theme, pane border and
//! title settings, the status bar with its key hints, and the tab bar.
//!
//! Pixel sizes and positions are single-precision floats in the renderer;
//! here they are held as their IEEE-754 bit patterns.

use vstd::prelude::*;

verus! {

/// An RGB color.
#[derive(Debug, Clone, Copy, PartialEq, Eq, Structural)]
pub struct Rgb {
    pub r: u8,
    pub g: u8,
    pub b: u8,
}

impl Rgb {
    /// A color from its components.
    pub fn new(r: u8, g: u8, b: u8) -> (c: Rgb)
        ensures
            c == (Rgb { r, g, b }),
    {
        Rgb { r, g, b }
    }
}

/// Colors for the UI theme.
#[derive(Debug, Clone, Copy, PartialEq, Eq, Structural)]
pub struct Theme {
    /// Active pane border color.
    pub pane_border_active: Rgb,
    /// Inactive pane border color.
    pub pane_border_inactive: Rgb,
    /// Status bar background.
    pub status_bar_bg: Rgb,
    /// Status bar foreground.
    pub status_bar_fg: Rgb,
    /// Tab bar background.
    pub tab_bar_bg: Rgb,
    /// Active tab background.
    pub tab_active_bg: Rgb,
    /// Active tab foreground.
    pub tab_active_fg: Rgb,
    /// Inactive tab foreground.
    pub tab_inactive_fg: Rgb,
    /// Accent color for highlights.
    pub accent: Rgb,
}

/// The dark theme, the default.
pub open spec fn dark_theme() -> Theme {
    Theme {
        pane_border_active: Rgb { r: 88, g: 166, b: 255 },
        pane_border_inactive: Rgb { r: 68, g: 68, b: 68 },
        status_bar_bg: Rgb { r: 13, g: 13, b: 13 },
        status_bar_fg: Rgb { r: 212, g: 212, b: 212 },
        tab_bar_bg: Rgb { r: 22, g: 22, b: 22 },
        tab_active_bg: Rgb { r: 45, g: 45, b: 45 },
        tab_active_fg: Rgb { r: 255, g: 255, b: 255 },
        tab_inactive_fg: Rgb { r: 139, g: 139, b: 139 },
        accent: Rgb { r: 88, g: 166, b: 255 },
    }
}

/// The light theme.
pub open spec fn light_theme() -> Theme {
    Theme {
        pane_border_active: Rgb { r: 9, g: 105, b: 218 },
        pane_border_inactive: Rgb { r: 208, g: 215, b: 222 },
        status_bar_bg: Rgb { r: 246, g: 248, b: 250 },
        status_bar_fg: Rgb { r: 36, g: 41, b: 47 },
        tab_bar_bg: Rgb { r: 255, g: 255, b: 255 },
        tab_active_bg: Rgb { r: 255, g: 255, b: 255 },
        tab_active_fg: Rgb { r: 36, g: 41, b: 47 },
        tab_inactive_fg: Rgb { r: 88, g: 96, b: 105 },
        accent: Rgb { r: 9, g: 105, b: 218 },
    }
}

impl Default for Theme {
    fn default() -> (t: Self)
        ensures
            t == dark_theme(),
    {
        // Dark theme
        Self {
            pane_border_active: Rgb::new(88, 166, 255),
            pane_border_inactive: Rgb::new(68, 68, 68),
            status_bar_bg: Rgb::new(13, 13, 13),
            status_bar_fg: Rgb::new(212, 212, 212),
            tab_bar_bg: Rgb::new(22, 22, 22),
            tab_active_bg: Rgb::new(45, 45, 45),
            tab_active_fg: Rgb::new(255, 255, 255),
            tab_inactive_fg: Rgb::new(139, 139, 139),
            accent: Rgb::new(88, 166, 255),
        }
    }
}

impl Theme {
    /// Light theme variant.
    pub fn light() -> (t: Self)
        ensures
            t == light_theme(),
    {
        Self {
            pane_border_active: Rgb::new(9, 105, 218),
            pane_border_inactive: Rgb::new(208, 215, 222),
            status_bar_bg: Rgb::new(246, 248, 250),
            status_bar_fg: Rgb::new(36, 41, 47),
            tab_bar_bg: Rgb::new(255, 255, 255),
            tab_active_bg: Rgb::new(255, 255, 255),
            tab_active_fg: Rgb::new(36, 41, 47),
            tab_inactive_fg: Rgb::new(88, 96, 105),
            accent: Rgb::new(9, 105, 218),
        }
    }
}

/// Layout information for a pane on screen, in pixels.
#[derive(Debug, Clone)]
pub struct PaneInfo {
    /// X position, as a float's bit pattern.
    pub x_bits: u32,
    /// Y position, as a float's bit pattern.
    pub y_bits: u32,
    /// Width, as a float's bit pattern.
    pub width_bits: u32,
    /// Height, as a float's bit pattern.
    pub height_bits: u32,
    /// Whether this pane is active.
    pub is_active: bool,
    /// Pane title.
    pub title: String,
}

/// Pane border settings.
#[derive(Debug, Clone, Copy, PartialEq, Eq, Structural)]
pub struct PaneBorderRenderer {
    /// Border width in pixels, as a float's bit pattern.
    pub border_width_bits: u32,
    /// Whether to draw title bars.
    pub show_titles: bool,
    /// Title bar height in pixels, as a float's bit pattern.
    pub title_height_bits: u32,
}

/// The bit pattern of the float 2.0.
pub const F32_TWO_BITS: u32 = 0x40000000;

/// The bit pattern of the float 20.0.
pub const F32_TWENTY_BITS: u32 = 0x41a00000;

/// The bit pattern of the float 24.0.
pub const F32_TWENTY_FOUR_BITS: u32 = 0x41c00000;

/// The bit pattern of the float 28.0.
pub const F32_TWENTY_EIGHT_BITS: u32 = 0x41e00000;

/// The default border settings: 2-pixel borders with 20-pixel title bars.
pub open spec fn default_borders() -> PaneBorderRenderer {
    PaneBorderRenderer {
        border_width_bits: F32_TWO_BITS,
        show_titles: true,
        title_height_bits: F32_TWENTY_BITS,
    }
}

impl Default for PaneBorderRenderer {
    fn default() -> (r: Self)
        ensures
            r == default_borders(),
    {
        Self { border_width_bits: F32_TWO_BITS, show_titles: true, title_height_bits: F32_TWENTY_BITS }
    }
}

/// A key hint: the key and the action it performs.
pub type Hint = (String, String);

/// The hints shown outside prefix mode.
pub open spec fn normal_hints() -> Seq<(Seq<char>, Seq<char>)> {
    seq![
        ("Cmd+D"@, "Split"@),
        ("Cmd+W"@, "Close"@),
        ("Cmd+["@, "Prev"@),
        ("Cmd+]"@, "Next"@),
        ("Cmd+B"@, "Prefix"@),
    ]
}

/// The hints shown in prefix mode.
pub open spec fn prefix_hints() -> Seq<(Seq<char>, Seq<char>)> {
    seq![
        ("d"@, "Split V"@),
        ("D"@, "Split H"@),
        ("x"@, "Close"@),
        ("n"@, "Next"@),
        ("p"@, "Prev"@),
        ("Esc"@, "Cancel"@),
    ]
}

/// The hints shown by a fresh status bar.
pub open spec fn initial_hints() -> Seq<(Seq<char>, Seq<char>)> {
    seq![
        ("Cmd+D"@, "Split"@),
        ("Cmd+W"@, "Close"@),
        ("Cmd+["@, "Prev"@),
        ("Cmd+]"@, "Next"@),
    ]
}

/// The texts of a list of hints.
pub open spec fn hint_texts(hints: Seq<Hint>) -> Seq<(Seq<char>, Seq<char>)> {
    hints.map_values(|h: Hint| (h.0@, h.1@))
}

/// Builds a hint from its key and action.
fn hint(key: &str, action: &str) -> (h: Hint)
    ensures
        h.0@ == key@,
        h.1@ == action@,
{
    (String::from_str(key), String::from_str(action))
}

/// Status bar component.
#[derive(Debug, Clone)]
pub struct StatusBar {
    /// Height in pixels, as a float's bit pattern.
    pub height_bits: u32,
    /// Current mode text.
    pub mode_text: String,
    /// Session name.
    pub session_name: String,
    /// Window index.
    pub window_index: usize,
    /// Keybinding hints: (key, action).
    pub hints: Vec<Hint>,
}

impl StatusBar {
    /// The status bar as it starts: 24 pixels high, no mode text, session
    /// `default`, window 0, the initial hints.
    pub open spec fn is_default(self) -> bool {
        &&& self.height_bits == F32_TWENTY_FOUR_BITS
        &&& self.mode_text@ == Seq::<char>::empty()
        &&& self.session_name@ == "default"@
        &&& self.window_index == 0
        &&& hint_texts(self.hints@) == initial_hints()
    }
}

impl Default for StatusBar {
    fn default() -> (b: Self)
        ensures
            b.is_default(),
    {
        let mut hints: Vec<Hint> = Vec::new();
        hints.push(hint("Cmd+D", "Split"));
        hints.push(hint("Cmd+W", "Close"));
        hints.push(hint("Cmd+[", "Prev"));
        hints.push(hint("Cmd+]", "Next"));
        let b = Self {
            height_bits: F32_TWENTY_FOUR_BITS,
            mode_text: String::new(),
            session_name: String::from_str("default"),
            window_index: 0,
            hints,
        };
        assert(hint_texts(b.hints@) =~= initial_hints());
        b
    }
}

impl StatusBar {
    /// Update the mode text and hints: prefix mode shows `PREFIX` and the
    /// prefix key hints, normal mode no mode text and the shortcut hints.
    pub fn update_hints(&mut self, prefix_mode: bool)
        ensures
            prefix_mode ==> final(self).mode_text@ == "PREFIX"@,
            !prefix_mode ==> final(self).mode_text@ == Seq::<char>::empty(),
            prefix_mode ==> hint_texts(final(self).hints@) == prefix_hints(),
            !prefix_mode ==> hint_texts(final(self).hints@) == normal_hints(),
            final(self).height_bits == old(self).height_bits,
            final(self).session_name == old(self).session_name,
            final(self).window_index == old(self).window_index,
    {
        let mut hints: Vec<Hint> = Vec::new();
        if prefix_mode {
            self.mode_text = String::from_str("PREFIX");
            hints.push(hint("d", "Split V"));
            hints.push(hint("D", "Split H"));
            hints.push(hint("x", "Close"));
            hints.push(hint("n", "Next"));
            hints.push(hint("p", "Prev"));
            hints.push(hint("Esc", "Cancel"));
            assert(hint_texts(hints@) =~= prefix_hints());
        } else {
            self.mode_text = String::new();
            hints.push(hint("Cmd+D", "Split"));
            hints.push(hint("Cmd+W", "Close"));
            hints.push(hint("Cmd+[", "Prev"));
            hints.push(hint("Cmd+]", "Next"));
            hints.push(hint("Cmd+B", "Prefix"));
            assert(hint_texts(hints@) =~= normal_hints());
        }
        self.hints = hints;
    }
}

/// Information about a tab.
#[derive(Debug, Clone)]
pub struct TabInfo {
    /// Tab title.
    pub title: String,
    /// Whether the tab has unsaved changes.
    pub is_modified: bool,
}

/// Tab bar component.
#[derive(Debug, Clone)]
pub struct TabBar {
    /// Height in pixels, as a float's bit pattern.
    pub height_bits: u32,
    /// Tab titles.
    pub tabs: Vec<TabInfo>,
    /// Active tab index.
    pub active_index: usize,
}

impl TabBar {
    /// The tab bar as it starts: 28 pixels high, one unmodified tab named
    /// `cmux`, which is active.
    pub open spec fn is_default(self) -> bool {
        &&& self.height_bits == F32_TWENTY_EIGHT_BITS
        &&& self.tabs@.len() == 1
        &&& self.tabs@[0].title@ == "cmux"@
        &&& !self.tabs@[0].is_modified
        &&& self.active_index == 0
    }
}

impl Default for TabBar {
    fn default() -> (t: Self)
        ensures
            t.is_default(),
    {
        let mut tabs: Vec<TabInfo> = Vec::new();
        tabs.push(TabInfo { title: String::from_str("cmux"), is_modified: false });
        Self { height_bits: F32_TWENTY_EIGHT_BITS, tabs, active_index: 0 }
    }
}

/// The part of a pane's frame that a rectangle draws.
#[derive(Debug, Clone, Copy, PartialEq, Eq, Structural)]
pub enum FramePart {
    Top,
    Bottom,
    Left,
    Right,
    /// The title bar background, drawn more transparent than the border.
    Title,
}

/// One rectangle of the pane borders: which pane, which part of its frame,
/// its color, and whether it is drawn at the active pane's opacity.
#[derive(Debug, Clone, Copy, PartialEq, Eq, Structural)]
pub struct BorderRect {
    pub pane: usize,
    pub part: FramePart,
    pub color: Rgb,
    pub active: bool,
}

/// The border rectangles of pane `i`: top, bottom, left and right, then
/// the title bar where titles are shown; in the active or inactive border
/// color.
pub open spec fn pane_frame(i: usize, active: bool, theme: Theme, show_titles: bool) -> Seq<BorderRect> {
    let color = if active {
        theme.pane_border_active
    } else {
        theme.pane_border_inactive
    };
    let sides = seq![
        BorderRect { pane: i, part: FramePart::Top, color, active },
        BorderRect { pane: i, part: FramePart::Bottom, color, active },
        BorderRect { pane: i, part: FramePart::Left, color, active },
        BorderRect { pane: i, part: FramePart::Right, color, active },
    ];
    if show_titles {
        sides.push(BorderRect { pane: i, part: FramePart::Title, color, active })
    } else {
        sides
    }
}

/// The border rectangles of the first `n` panes, pane by pane.
pub open spec fn border_plan(panes: Seq<PaneInfo>, n: nat, theme: Theme, show_titles: bool) -> Seq<BorderRect>
    decreases n,
{
    if n == 0 {
        Seq::empty()
    } else {
        border_plan(panes, (n - 1) as nat, theme, show_titles) + pane_frame(
            (n - 1) as usize,
            panes[n - 1].is_active,
            theme,
            show_titles,
        )
    }
}

impl PaneBorderRenderer {
    /// The border rectangles to draw for `panes`, in drawing order; the
    /// program places them in pixels.
    pub fn plan(&self, panes: &[PaneInfo], theme: &Theme) -> (r: Vec<BorderRect>)
        ensures
            r@ == border_plan(panes@, panes@.len(), *theme, self.show_titles),
    {
        let mut rects: Vec<BorderRect> = Vec::new();
        let mut i: usize = 0;
        while i < panes.len()
            invariant
                i <= panes@.len(),
                rects@ == border_plan(panes@, i as nat, *theme, self.show_titles),
            decreases panes@.len() - i,
        {
            let active = panes[i].is_active;
            let color = if active {
                theme.pane_border_active
            } else {
                theme.pane_border_inactive
            };
            rects.push(BorderRect { pane: i, part: FramePart::Top, color, active });
            rects.push(BorderRect { pane: i, part: FramePart::Bottom, color, active });
            rects.push(BorderRect { pane: i, part: FramePart::Left, color, active });
            rects.push(BorderRect { pane: i, part: FramePart::Right, color, active });
            if self.show_titles {
                rects.push(BorderRect { pane: i, part: FramePart::Title, color, active });
            }
            proof {
                let n = (i + 1) as nat;
                assert(rects@ =~= border_plan(panes@, (n - 1) as nat, *theme, self.show_titles) + pane_frame(
                    i,
                    panes@[i as int].is_active,
                    *theme,
                    self.show_titles,
                ));
            }
            i = i + 1;
        }
        rects
    }
}

/// Some rectangle of `r` draws part `part` of pane `i`'s frame.
pub open spec fn draws_part(r: Seq<BorderRect>, i: int, part: FramePart) -> bool {
    exists|j: int| 0 <= j < r.len() && (#[trigger] r[j]).pane == i && r[j].part == part
}

/// The facts of [`lemma_border_plan_colors`] about the rectangles `r` of
/// the first `n` panes.
spec fn border_plan_facts(r: Seq<BorderRect>, panes: Seq<PaneInfo>, n: nat, theme: Theme, show_titles: bool) -> bool {
    &&& r.len() == if show_titles {
        5 * n
    } else {
        4 * n
    }
    &&& forall|j: int| 0 <= j < r.len() ==> (#[trigger] r[j]).pane < n && r[j].active
        == panes[r[j].pane as int].is_active && r[j].color == if panes[r[j].pane as int].is_active {
        theme.pane_border_active
    } else {
        theme.pane_border_inactive
    }
    &&& forall|j: int| 0 <= j < r.len() && (#[trigger] r[j]).part == FramePart::Title ==> show_titles
    &&& forall|i: int, q: FramePart| 0 <= i < n && (q != FramePart::Title || show_titles) ==> #[trigger] draws_part(r, i, q)
    &&& forall|j: int, k: int| 0 <= j < k < r.len() ==> (#[trigger] r[j]).pane <= (#[trigger] r[k]).pane
}

/// One more pane: the facts carry over from the first panes' rectangles
/// `p` to `p` followed by the next pane's frame `t`.
#[verifier::rlimit(90)]
#[verifier::spinoff_prover]
proof fn lemma_border_plan_step(
    p: Seq<BorderRect>,
    t: Seq<BorderRect>,
    panes: Seq<PaneInfo>,
    m: nat,
    theme: Theme,
    show_titles: bool,
)
    requires
        m < panes.len(),
        border_plan_facts(p, panes, m, theme, show_titles),
        t.len() == if show_titles {
            5int
        } else {
            4int
        },
        forall|e: int| 0 <= e < t.len() ==> (#[trigger] t[e]).pane == m && t[e].active == panes[m as int].is_active
            && t[e].color == if panes[m as int].is_active {
            theme.pane_border_active
        } else {
            theme.pane_border_inactive
        },
        t[0].part == FramePart::Top,
        t[1].part == FramePart::Bottom,
        t[2].part == FramePart::Left,
        t[3].part == FramePart::Right,
        show_titles ==> t[4].part == FramePart::Title,
    ensures
        border_plan_facts(p + t, panes, m + 1, theme, show_titles),
{
    let r = p + t;
    let n: nat = m + 1;
    let mi = p.len() as int;
    assert forall|j: int| 0 <= j < r.len() implies (#[trigger] r[j]).pane < n && r[j].active
        == panes[r[j].pane as int].is_active && r[j].color == if panes[r[j].pane as int].is_active {
        theme.pane_border_active
    } else {
        theme.pane_border_inactive
    } by {
        if j < mi {
            assert(r[j] == p[j]);
        } else {
            assert(r[j] == t[j - mi]);
        }
    }
    assert forall|j: int| 0 <= j < r.len() && (#[trigger] r[j]).part == FramePart::Title implies show_titles by {
        if j < mi {
            assert(r[j] == p[j]);
        } else {
            assert(r[j] == t[j - mi]);
        }
    }
    assert forall|i: int, q: FramePart| 0 <= i < n && (q != FramePart::Title || show_titles) implies #[trigger] draws_part(
        r,
        i,
        q,
    ) by {
        if i < m {
            assert(draws_part(p, i, q));
            let j = choose|j: int| 0 <= j < p.len() && (#[trigger] p[j]).pane == i && p[j].part == q;
            assert(r[j] == p[j]);
        } else {
            assert(r[mi] == t[0] && r[mi + 1] == t[1] && r[mi + 2] == t[2] && r[mi + 3] == t[3]);
            if show_titles {
                assert(r[mi + 4] == t[4]);
            }
            match q {
                FramePart::Top => assert(r[mi].pane == i && r[mi].part == q),
                FramePart::Bottom => assert(r[mi + 1].pane == i && r[mi + 1].part == q),
                FramePart::Left => assert(r[mi + 2].pane == i && r[mi + 2].part == q),
                FramePart::Right => assert(r[mi + 3].pane == i && r[mi + 3].part == q),
                FramePart::Title => assert(r[mi + 4].pane == i && r[mi + 4].part == q),
            }
        }
    }
    assert forall|j: int, k: int| 0 <= j < k < r.len() implies (#[trigger] r[j]).pane <= (#[trigger] r[k]).pane by {
        if k < mi {
            assert(r[j] == p[j] && r[k] == p[k]);
        } else if j < mi {
            assert(r[j] == p[j] && r[k] == t[k - mi]);
        } else {
            assert(r[j] == t[j - mi] && r[k] == t[k - mi]);
        }
    }
    assert(r.len() == if show_titles {
        5 * n
    } else {
        4 * n
    });
}

/// The facts hold of the rectangles of the first `n` panes.
proof fn lemma_border_plan_facts(panes: Seq<PaneInfo>, n: nat, theme: Theme, show_titles: bool)
    requires
        n <= panes.len(),
        panes.len() <= usize::MAX,
    ensures
        border_plan_facts(border_plan(panes, n, theme, show_titles), panes, n, theme, show_titles),
    decreases n,
{
    if n > 0 {
        let m = (n - 1) as nat;
        lemma_border_plan_facts(panes, m, theme, show_titles);
        let t = pane_frame(m as usize, panes[m as int].is_active, theme, show_titles);
        lemma_border_plan_step(border_plan(panes, m, theme, show_titles), t, panes, m, theme, show_titles);
    } else {
        assert(border_plan_facts(Seq::empty(), panes, 0, theme, show_titles));
    }
}

/// The pane borders draw, pane by pane, the top, bottom, left and right
/// sides of each frame and, where titles are shown, its title bar (and no
/// title bar otherwise); every rectangle of a pane's frame, title bar
/// included, is in the active border color and at the active opacity
/// exactly when that pane is active, and in the inactive color otherwise.
pub proof fn lemma_border_plan_colors(panes: Seq<PaneInfo>, theme: Theme, show_titles: bool, r: Seq<BorderRect>)
    requires
        panes.len() <= usize::MAX,
        r == border_plan(panes, panes.len(), theme, show_titles),
    ensures
        ({
            let n = panes.len();
            &&& r.len() == if show_titles {
                5 * n
            } else {
                4 * n
            }
            &&& forall|j: int| 0 <= j < r.len() ==> (#[trigger] r[j]).pane < n && r[j].active
                == panes[r[j].pane as int].is_active && r[j].color == if panes[r[j].pane as int].is_active {
                theme.pane_border_active
            } else {
                theme.pane_border_inactive
            }
            &&& forall|j: int| 0 <= j < r.len() && (#[trigger] r[j]).part == FramePart::Title ==> show_titles
            &&& forall|i: int, q: FramePart| 0 <= i < n && (q != FramePart::Title || show_titles)
                ==> #[trigger] draws_part(r, i, q)
            &&& forall|j: int, k: int| 0 <= j < k < r.len() ==> (#[trigger] r[j]).pane <= (#[trigger] r[k]).pane
        }),
{
    lemma_border_plan_facts(panes, panes.len(), theme, show_titles);
    assert(border_plan_facts(r, panes, panes.len(), theme, show_titles));
}

/// The part of a tab that a rectangle draws.
#[derive(Debug, Clone, Copy, PartialEq, Eq, Structural)]
pub enum TabPart {
    /// The tab's background.
    Background,
    /// The line under the active tab.
    Indicator,
}

/// One rectangle of the tab bar: which tab, which part, its color.
#[derive(Debug, Clone, Copy, PartialEq, Eq, Structural)]
pub struct TabRect {
    pub tab: usize,
    pub part: TabPart,
    pub color: Rgb,
}

/// The rectangles of tab `i`: its background, in the active tab color if
/// it is the active tab, and then, for the active tab, the indicator line
/// in the accent color.
pub open spec fn tab_rects(i: usize, active_index: usize, theme: Theme) -> Seq<TabRect> {
    if i == active_index {
        seq![
            TabRect { tab: i, part: TabPart::Background, color: theme.tab_active_bg },
            TabRect { tab: i, part: TabPart::Indicator, color: theme.accent },
        ]
    } else {
        seq![TabRect { tab: i, part: TabPart::Background, color: theme.tab_bar_bg }]
    }
}

/// The rectangles of the first `n` tabs, tab by tab.
pub open spec fn tab_plan(n: nat, active_index: usize, theme: Theme) -> Seq<TabRect>
    decreases n,
{
    if n == 0 {
        Seq::empty()
    } else {
        tab_plan((n - 1) as nat, active_index, theme) + tab_rects((n - 1) as usize, active_index, theme)
    }
}

impl TabBar {
    /// The rectangles to draw for the tabs, in drawing order; the program
    /// places them in pixels.
    pub fn plan(&self, theme: &Theme) -> (r: Vec<TabRect>)
        ensures
            r@ == tab_plan(self.tabs@.len(), self.active_index, *theme),
    {
        let mut rects: Vec<TabRect> = Vec::new();
        let mut i: usize = 0;
        while i < self.tabs.len()
            invariant
                i <= self.tabs@.len(),
                rects@ == tab_plan(i as nat, self.active_index, *theme),
            decreases self.tabs@.len() - i,
        {
            if i == self.active_index {
                rects.push(TabRect { tab: i, part: TabPart::Background, color: theme.tab_active_bg });
                rects.push(TabRect { tab: i, part: TabPart::Indicator, color: theme.accent });
            } else {
                rects.push(TabRect { tab: i, part: TabPart::Background, color: theme.tab_bar_bg });
            }
            proof {
                let n = (i + 1) as nat;
                assert(rects@ =~= tab_plan((n - 1) as nat, self.active_index, *theme) + tab_rects(
                    i,
                    self.active_index,
                    *theme,
                ));
            }
            i = i + 1;
        }
        rects
    }
}

/// Some rectangle of `r` is an indicator line.
pub open spec fn draws_indicator(r: Seq<TabRect>) -> bool {
    exists|j: int| 0 <= j < r.len() && (#[trigger] r[j]).part == TabPart::Indicator
}

/// Some rectangle of `r` is the background of tab `i`.
pub open spec fn draws_background(r: Seq<TabRect>, i: int) -> bool {
    exists|j: int| 0 <= j < r.len() && (#[trigger] r[j]).tab == i && r[j].part == TabPart::Background
}

/// The facts of [`lemma_tab_plan_highlights_active`] about the first `n`
/// tabs' rectangles `r`.
spec fn tab_plan_facts(r: Seq<TabRect>, n: nat, active: usize, theme: Theme) -> bool {
    &&& (r.len() == n + if active < n {
            1int
        } else {
            0int
        })
    &&& (forall|j: int| 0 <= j < r.len() ==> (#[trigger] r[j]).tab < n)
    &&& (forall|j: int| 0 <= j < r.len() && (#[trigger] r[j]).part == TabPart::Background ==> r[j].color
            == if r[j].tab == active {
            theme.tab_active_bg
        } else {
            theme.tab_bar_bg
        })
    &&& (forall|j: int| 0 <= j < r.len() && (#[trigger] r[j]).part == TabPart::Indicator ==> r[j].tab
            == active && r[j].color == theme.accent)
    &&& (forall|i: int| 0 <= i < n ==> #[trigger] draws_background(r, i))
    &&& (active < n ==> draws_indicator(r))
    &&& (forall|j: int, k: int| 0 <= j < k < r.len() ==> (#[trigger] r[j]).tab <= (#[trigger] r[k]).tab
            && (r[j].tab == r[k].tab ==> r[j].part == TabPart::Background && r[k].part
            == TabPart::Indicator))
}

/// One more tab: the facts carry over from the first tabs' rectangles `p`
/// to `p` followed by the next tab's rectangles `t`.
#[verifier::rlimit(40)]
proof fn lemma_tab_plan_step(p: Seq<TabRect>, t: Seq<TabRect>, m: nat, active: usize, theme: Theme)
    requires
        tab_plan_facts(p, m, active, theme),
        m == active ==> t == seq![
            TabRect { tab: active, part: TabPart::Background, color: theme.tab_active_bg },
            TabRect { tab: active, part: TabPart::Indicator, color: theme.accent },
        ],
        m != active ==> t.len() == 1 && t[0].tab == m && t[0].part == TabPart::Background && t[0].color
            == theme.tab_bar_bg,
    ensures
        tab_plan_facts(p + t, m + 1, active, theme),
{
    let r = p + t;
    let n = m + 1;
    let mi = p.len() as int;
    assert forall|j: int| 0 <= j < r.len() implies (#[trigger] r[j]).tab < n by {
        if j < mi {
            assert(r[j] == p[j]);
        } else {
            assert(r[j] == t[j - mi]);
        }
    }
    assert forall|j: int| 0 <= j < r.len() && (#[trigger] r[j]).part == TabPart::Background implies r[j].color
        == if r[j].tab == active {
        theme.tab_active_bg
    } else {
        theme.tab_bar_bg
    } by {
        if j < mi {
            assert(r[j] == p[j]);
        } else {
            assert(r[j] == t[j - mi]);
        }
    }
    assert forall|i: int| 0 <= i < n implies #[trigger] draws_background(r, i) by {
        if i < m {
            assert(draws_background(p, i));
            let j = choose|j: int| 0 <= j < p.len() && (#[trigger] p[j]).tab == i && p[j].part
                == TabPart::Background;
            assert(r[j] == p[j]);
        } else {
            assert(r[mi] == t[0]);
        }
    }
    if active < n {
        if active < m {
            assert(draws_indicator(p));
            let j = choose|j: int| 0 <= j < p.len() && (#[trigger] p[j]).part == TabPart::Indicator;
            assert(r[j] == p[j]);
        } else {
            assert(r[mi + 1] == t[1]);
        }
    }
    assert forall|j: int| 0 <= j < r.len() && (#[trigger] r[j]).part == TabPart::Indicator implies r[j].tab
        == active && r[j].color == theme.accent by {
        if j < mi {
            assert(r[j] == p[j]);
        } else {
            assert(r[j] == t[j - mi]);
        }
    }
    assert forall|j: int, k: int| 0 <= j < k < r.len() implies (#[trigger] r[j]).tab <= (#[trigger] r[k]).tab
        && (r[j].tab == r[k].tab ==> r[j].part == TabPart::Background && r[k].part
        == TabPart::Indicator) by {
        if k < mi {
            assert(r[j] == p[j] && r[k] == p[k]);
        } else if j < mi {
            assert(r[j] == p[j] && r[k] == t[k - mi]);
        } else {
            assert(r[j] == t[j - mi] && r[k] == t[k - mi]);
        }
    }
}

/// The facts hold of the rectangles of the first `n` tabs.
proof fn lemma_tab_plan_facts(n: nat, active: usize, theme: Theme)
    requires
        n <= usize::MAX,
    ensures
        tab_plan_facts(tab_plan(n, active, theme), n, active, theme),
    decreases n,
{
    if n > 0 {
        let m = (n - 1) as nat;
        lemma_tab_plan_facts(m, active, theme);
        let t = tab_rects(m as usize, active, theme);
        if m == active {
            assert(t == seq![
                TabRect { tab: active, part: TabPart::Background, color: theme.tab_active_bg },
                TabRect { tab: active, part: TabPart::Indicator, color: theme.accent },
            ]);
        }
        lemma_tab_plan_step(tab_plan(m, active, theme), t, m, active, theme);
    } else {
        assert(tab_plan_facts(Seq::empty(), 0, active, theme));
    }
}

/// The tab bar draws one background per tab, in tab order, the active
/// tab's in the active-tab color and every other in the bar color, and one
/// indicator line in the accent color, under the active tab only, after
/// its background. (With `n + 1` rectangles when the active tab
/// exists, and `n` otherwise, each tab's background occurs once.)
pub proof fn lemma_tab_plan_highlights_active(n: nat, active: usize, theme: Theme, r: Seq<TabRect>)
    requires
        n <= usize::MAX,
        r == tab_plan(n, active, theme),
    ensures
        r.len() == n + if active < n {
            1int
        } else {
            0int
        },
        forall|j: int| 0 <= j < r.len() ==> (#[trigger] r[j]).tab < n,
        forall|j: int| 0 <= j < r.len() && (#[trigger] r[j]).part == TabPart::Background ==> r[j].color
            == if r[j].tab == active {
            theme.tab_active_bg
        } else {
            theme.tab_bar_bg
        },
        forall|j: int| 0 <= j < r.len() && (#[trigger] r[j]).part == TabPart::Indicator ==> r[j].tab
            == active && r[j].color == theme.accent,
        forall|i: int| 0 <= i < n ==> #[trigger] draws_background(r, i),
        active < n ==> draws_indicator(r),
        forall|j: int, k: int| 0 <= j < k < r.len() ==> (#[trigger] r[j]).tab <= (#[trigger] r[k]).tab
            && (r[j].tab == r[k].tab ==> r[j].part == TabPart::Background && r[k].part
            == TabPart::Indicator),
{
    lemma_tab_plan_facts(n, active, theme);
}

/// Complete UI state for the multiplexer.
#[derive(Debug, Clone)]
pub struct UiRenderer {
    /// Current theme.
    pub theme: Theme,
    /// Pane border settings.
    pub pane_borders: PaneBorderRenderer,
    /// Status bar.
    pub status_bar: StatusBar,
    /// Tab bar.
    pub tab_bar: TabBar,
    /// Whether UI is enabled.
    pub enabled: bool,
}

impl Default for UiRenderer {
    fn default() -> (u: Self)
        ensures
            u.theme == dark_theme(),
            u.pane_borders == default_borders(),
            u.status_bar.is_default(),
            u.tab_bar.is_default(),
            u.enabled,
    {
        Self {
            theme: Theme::default(),
            pane_borders: PaneBorderRenderer::default(),
            status_bar: StatusBar::default(),
            tab_bar: TabBar::default(),
            enabled: true,
        }
    }
}

impl UiRenderer {
    /// Update the status bar mode.
    pub fn set_prefix_mode(&mut self, active: bool)
        ensures
            active ==> final(self).status_bar.mode_text@ == "PREFIX"@,
            !active ==> final(self).status_bar.mode_text@ == Seq::<char>::empty(),
            active ==> hint_texts(final(self).status_bar.hints@) == prefix_hints(),
            !active ==> hint_texts(final(self).status_bar.hints@) == normal_hints(),
            final(self).theme == old(self).theme,
            final(self).enabled == old(self).enabled,
    {
        self.status_bar.update_hints(active);
    }

    /// Mark the pane at `index` active and every other pane inactive.
    pub fn set_active_pane(&mut self, index: usize, panes: &mut [PaneInfo])
        ensures
            final(panes)@.len() == old(panes)@.len(),
            forall|i: int| 0 <= i < final(panes)@.len() ==> (#[trigger] final(panes)@[i]).is_active == (i
                == index),
            forall|i: int| 0 <= i < final(panes)@.len() ==> final(panes)@[i] == (PaneInfo {
                is_active: final(panes)@[i].is_active,
                ..old(panes)@[i]
            }),
    {
        let mut i: usize = 0;
        while i < panes.len()
            invariant
                i <= panes@.len(),
                panes@.len() == old(panes)@.len(),
                forall|j: int| 0 <= j < i ==> (#[trigger] panes@[j]).is_active == (j == index),
                forall|j: int| 0 <= j < panes@.len() ==> panes@[j] == (PaneInfo {
                    is_active: panes@[j].is_active,
                    ..old(panes)@[j]
                }),
            decreases panes@.len() - i,
        {
            panes[i].is_active = i == index;
            i = i + 1;
        }
    }
}

} // verus!
