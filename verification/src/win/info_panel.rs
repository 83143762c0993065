//! The settings panel: the messages to it, what it shows, and what the user does in it.

use crate::app::config::AppConfig;
use crate::win::winapi::Rect;
use vstd::prelude::*;

verus! {

/// What the user asked for in the panel.
#[derive(Clone, Copy, Debug, PartialEq, Eq, Structural)]
pub enum PanelAction {
    /// Restart the client's interface.
    ReloadUx,
    /// Leave the screens after a game.
    PlayAgain,
    /// Collect finished missions and open free chests.
    AutoLoot,
    /// End the program.
    Quit,
}

/// What the panel shows.
#[derive(Debug)]
pub struct PanelContent {
    pub connection: String,
    pub phase: String,
    pub premade: String,
    pub last_game: String,
}

/// What a `PanelContent` holds.
pub struct ContentView {
    pub connection: Seq<char>,
    pub phase: Seq<char>,
    pub premade: Seq<char>,
    pub last_game: Seq<char>,
}

impl View for PanelContent {
    type V = ContentView;

    open spec fn view(&self) -> ContentView {
        ContentView {
            connection: self.connection@,
            phase: self.phase@,
            premade: self.premade@,
            last_game: self.last_game@,
        }
    }
}

/// A panel that shows nothing.
pub open spec fn no_content() -> ContentView {
    ContentView {
        connection: Seq::empty(),
        phase: Seq::empty(),
        premade: Seq::empty(),
        last_game: Seq::empty(),
    }
}

impl Default for PanelContent {
    fn default() -> (r: Self)
        ensures
            r@ == no_content(),
    {
        PanelContent {
            connection: String::new(),
            phase: String::new(),
            premade: String::new(),
            last_game: String::new(),
        }
    }
}

impl PanelContent {
    /// A copy of the content.
    pub fn copy(&self) -> (r: PanelContent)
        ensures
            r@ == self@,
    {
        PanelContent {
            connection: self.connection.clone(),
            phase: self.phase.clone(),
            premade: self.premade.clone(),
            last_game: self.last_game.clone(),
        }
    }
}

/// A message to the panel.
pub enum PanelMsg {
    /// Show this.
    UpdateContent(PanelContent),
    /// Unfold or fold up.
    Toggle,
    /// Unfold.
    Show,
}

/// What a `PanelMsg` holds.
pub enum PanelMsgView {
    UpdateContent(ContentView),
    Toggle,
    Show,
}

impl View for PanelMsg {
    type V = PanelMsgView;

    open spec fn view(&self) -> PanelMsgView {
        match self {
            PanelMsg::UpdateContent(c) => PanelMsgView::UpdateContent(c@),
            PanelMsg::Toggle => PanelMsgView::Toggle,
            PanelMsg::Show => PanelMsgView::Show,
        }
    }
}

/// The views of some messages.
pub open spec fn msg_views(s: Seq<PanelMsg>) -> Seq<PanelMsgView> {
    Seq::new(s.len(), |i: int| s[i]@)
}

/// A handle on the panel: its content, and the messages that it has not yet read.
pub struct InfoPanel {
    pub queue: Vec<PanelMsg>,
    pub content: PanelContent,
}

impl InfoPanel {
    /// A handle on a panel that shows nothing yet.
    pub fn new() -> (r: InfoPanel)
        ensures
            r.queue@.len() == 0,
            r.content@ == no_content(),
    {
        InfoPanel { queue: Vec::new(), content: PanelContent::default() }
    }

    /// Unfolds the panel or folds it up.
    pub fn toggle(&mut self)
        ensures
            msg_views(final(self).queue@) == msg_views(old(self).queue@).push(
                PanelMsgView::Toggle,
            ),
            final(self).content@ == old(self).content@,
    {
        let ghost before = msg_views(self.queue@);
        self.queue.push(PanelMsg::Toggle);
        assert(msg_views(self.queue@) =~= before.push(PanelMsgView::Toggle));
    }

    /// Changes the content, and has the panel show it.
    pub fn update<F: FnOnce(PanelContent) -> PanelContent>(&mut self, f: F)
        requires
            forall|c: PanelContent| c@ == old(self).content@ ==> call_requires(f, (c,)),
        ensures
            exists|before: PanelContent, after: PanelContent|
                before@ == old(self).content@ && #[trigger] call_ensures(f, (before,), after)
                    && final(self).content@ == after@,
            msg_views(final(self).queue@) == msg_views(old(self).queue@).push(
                PanelMsgView::UpdateContent(final(self).content@),
            ),
    {
        let ghost before = msg_views(self.queue@);
        let current = self.content.copy();
        let changed = f(current);
        self.content = changed;
        let snapshot = self.content.copy();
        self.queue.push(PanelMsg::UpdateContent(snapshot));
        assert(msg_views(self.queue@) =~= before.push(
            PanelMsgView::UpdateContent(self.content@),
        ));
    }

    /// Nothing: the panel ends with its handle.
    pub fn destroy(&mut self)
        ensures
            *final(self) == *old(self),
    {
    }
}

/// What the panel keeps from one turn to the next.
pub struct PanelApp {
    pub content: PanelContent,
    /// Whether the panel is unfolded.
    pub visible: bool,
    /// The opacity that was last applied, in percent.
    pub current_opacity: u8,
}

/// What a `PanelApp` holds.
pub struct PanelAppView {
    pub content: ContentView,
    pub visible: bool,
    pub current_opacity: u8,
}

impl View for PanelApp {
    type V = PanelAppView;

    open spec fn view(&self) -> PanelAppView {
        PanelAppView {
            content: self.content@,
            visible: self.visible,
            current_opacity: self.current_opacity,
        }
    }
}

/// The panel after a message.
pub open spec fn after_message(p: PanelAppView, msg: PanelMsgView) -> PanelAppView {
    match msg {
        PanelMsgView::UpdateContent(content) => PanelAppView { content, ..p },
        PanelMsgView::Toggle => PanelAppView { visible: !p.visible, ..p },
        PanelMsgView::Show => PanelAppView { visible: true, ..p },
    }
}

/// The panel after some messages.
pub open spec fn after_messages(p: PanelAppView, msgs: Seq<PanelMsgView>) -> PanelAppView
    decreases msgs.len(),
{
    if msgs.len() == 0 {
        p
    } else {
        after_message(after_messages(p, msgs.drop_last()), msgs.last())
    }
}

/// The opacity that has to be applied: the one that is wanted, where the panel is unfolded
/// and another one was applied.
pub open spec fn opacity_due(p: PanelAppView, desired: u8) -> Option<u8> {
    if p.visible && desired != p.current_opacity {
        Some(desired)
    } else {
        None
    }
}

/// The panel after an opacity was applied, or could not be.
pub open spec fn after_opacity(p: PanelAppView, desired: u8, applied: bool) -> PanelAppView {
    if applied {
        PanelAppView { current_opacity: desired, ..p }
    } else {
        p
    }
}

impl PanelApp {
    /// The panel at first: unfolded, with no opacity applied.
    pub fn new() -> (r: PanelApp)
        ensures
            r@ == (PanelAppView { content: no_content(), visible: true, current_opacity: 0 }),
    {
        PanelApp { content: PanelContent::default(), visible: true, current_opacity: 0 }
    }

    /// Reads messages. Whether any came, so that the panel has to be drawn anew.
    pub fn read_messages(&mut self, msgs: &Vec<PanelMsg>) -> (r: bool)
        ensures
            final(self)@ == after_messages(old(self)@, msg_views(msgs@)),
            r == (msgs@.len() > 0),
    {
        let ghost start = self@;
        let ghost all = msg_views(msgs@);
        let mut i: usize = 0;
        assert(all.subrange(0, 0) =~= Seq::empty());
        while i < msgs.len()
            invariant
                i <= msgs@.len(),
                all == msg_views(msgs@),
                self@ == after_messages(start, all.subrange(0, i as int)),
            decreases msgs@.len() - i,
        {
            proof {
                let seen = all.subrange(0, i + 1);
                assert(seen.drop_last() =~= all.subrange(0, i as int));
                assert(seen.last() == msgs@[i as int]@);
            }
            match &msgs[i] {
                PanelMsg::UpdateContent(c) => {
                    self.content = c.copy();
                },
                PanelMsg::Toggle => {
                    self.visible = !self.visible;
                },
                PanelMsg::Show => {
                    self.visible = true;
                },
            }
            i += 1;
        }
        assert(all.subrange(0, all.len() as int) =~= all);
        msgs.len() > 0
    }

    /// What the user asks for by closing the panel's window.
    pub fn close_requested(&self, requested: bool) -> (r: Option<PanelAction>)
        ensures
            r == if requested {
                Some(PanelAction::Quit)
            } else {
                None
            },
    {
        if requested {
            Some(PanelAction::Quit)
        } else {
            None
        }
    }

    /// The opacity that has to be applied, where the one that was applied is another. A
    /// folded panel applies none.
    pub fn opacity_to_apply(&self, desired: u8) -> (r: Option<u8>)
        ensures
            r == opacity_due(self@, desired),
    {
        if self.visible && desired != self.current_opacity {
            Some(desired)
        } else {
            None
        }
    }

    /// Remembers an opacity that was applied; one that was not is tried again.
    pub fn opacity_applied(&mut self, desired: u8, applied: bool)
        ensures
            final(self)@ == after_opacity(old(self)@, desired, applied),
    {
        if applied {
            self.current_opacity = desired;
        }
    }
}

/// A message that unfolds or folds up, sent twice, changes nothing; one that unfolds leaves
/// the panel unfolded.
pub proof fn law_toggle_panel_twice(p: PanelAppView)
    ensures
        after_message(after_message(p, PanelMsgView::Toggle), PanelMsgView::Toggle) == p,
        after_message(p, PanelMsgView::Show).visible,
{
}

/// What the panel shows after an update is what the handle holds.
pub proof fn law_update_is_shown(p: PanelAppView, msgs: Seq<PanelMsgView>, content: ContentView)
    ensures
        after_messages(p, msgs.push(PanelMsgView::UpdateContent(content))).content == content,
{
    assert(msgs.push(PanelMsgView::UpdateContent(content)).drop_last() =~= msgs);
}

// ---------------------------------------------------------------------------
// What the panel shows
// ---------------------------------------------------------------------------

/// A row of the settings.
#[derive(Clone, Copy, Debug)]
pub enum SettingRow {
    /// A heading.
    Heading(&'static str),
    /// A switch, by the name of the option.
    Switch(&'static str, SwitchOption),
    /// A number between two limits, with its unit.
    Slider(&'static str, SliderOption, u64, u64, &'static str),
}

/// The options that are switches.
#[derive(Clone, Copy, Debug, PartialEq, Eq, Structural)]
pub enum SwitchOption {
    AutoAccept,
    PremadeChampSelect,
    PremadeIngame,
    AutoHonorSkip,
    MemoryMonitor,
}

/// The options that are numbers.
#[derive(Clone, Copy, Debug, PartialEq, Eq, Structural)]
pub enum SliderOption {
    AcceptDelay,
    MemoryThreshold,
    Opacity,
}

/// What a `SettingRow` holds.
pub enum SettingRowView {
    Heading(Seq<char>),
    Switch(Seq<char>, SwitchOption),
    Slider(Seq<char>, SliderOption, u64, u64, Seq<char>),
}

impl View for SettingRow {
    type V = SettingRowView;

    open spec fn view(&self) -> SettingRowView {
        match self {
            SettingRow::Heading(t) => SettingRowView::Heading(t@),
            SettingRow::Switch(t, o) => SettingRowView::Switch(t@, *o),
            SettingRow::Slider(t, o, lo, hi, unit) => SettingRowView::Slider(
                t@,
                *o,
                *lo,
                *hi,
                unit@,
            ),
        }
    }
}

/// The views of some rows.
pub open spec fn row_views(s: Seq<SettingRow>) -> Seq<SettingRowView> {
    Seq::new(s.len(), |i: int| s[i]@)
}

/// A row under a condition.
pub open spec fn row_if(condition: bool, row: SettingRowView) -> Seq<SettingRowView> {
    if condition {
        seq![row]
    } else {
        Seq::empty()
    }
}

/// The rows of the settings. How long to wait before accepting is shown only where matches
/// are accepted, and how much memory is too much only where memory is looked at.
pub open spec fn settings_of(config: AppConfig) -> Seq<SettingRowView> {
    seq![
        SettingRowView::Heading("对局匹配"@),
        SettingRowView::Switch("自动接受对局"@, SwitchOption::AutoAccept),
    ] + row_if(
        config.auto_accept_enabled,
        SettingRowView::Slider("接受延迟（秒）"@, SliderOption::AcceptDelay, 0, 15, "s"@),
    ) + seq![
        SettingRowView::Heading("战绩分析"@),
        SettingRowView::Switch("选人阶段组黑"@, SwitchOption::PremadeChampSelect),
        SettingRowView::Switch("游戏中组黑"@, SwitchOption::PremadeIngame),
        SettingRowView::Heading("点赞 & 结算"@),
        SettingRowView::Switch("自动跳过点赞"@, SwitchOption::AutoHonorSkip),
        SettingRowView::Heading("内存监控"@),
        SettingRowView::Switch("自动热重载"@, SwitchOption::MemoryMonitor),
    ] + row_if(
        config.memory_monitor,
        SettingRowView::Slider(
            "触发阈值（MB）"@,
            SliderOption::MemoryThreshold,
            500,
            4000,
            " MB"@,
        ),
    ) + seq![
        SettingRowView::Heading("窗口"@),
        SettingRowView::Slider("透明度"@, SliderOption::Opacity, 30, 100, "%"@),
    ]
}

/// The rows of the settings.
pub fn draw_settings_section(config: &AppConfig) -> (r: Vec<SettingRow>)
    ensures
        row_views(r@) == settings_of(*config),
{
    let mut r: Vec<SettingRow> = Vec::new();
    r.push(SettingRow::Heading("对局匹配"));
    r.push(SettingRow::Switch("自动接受对局", SwitchOption::AutoAccept));
    if config.auto_accept_enabled {
        r.push(SettingRow::Slider("接受延迟（秒）", SliderOption::AcceptDelay, 0, 15, "s"));
    }
    r.push(SettingRow::Heading("战绩分析"));
    r.push(SettingRow::Switch("选人阶段组黑", SwitchOption::PremadeChampSelect));
    r.push(SettingRow::Switch("游戏中组黑", SwitchOption::PremadeIngame));
    r.push(SettingRow::Heading("点赞 & 结算"));
    r.push(SettingRow::Switch("自动跳过点赞", SwitchOption::AutoHonorSkip));
    r.push(SettingRow::Heading("内存监控"));
    r.push(SettingRow::Switch("自动热重载", SwitchOption::MemoryMonitor));
    if config.memory_monitor {
        r.push(
            SettingRow::Slider(
                "触发阈值（MB）",
                SliderOption::MemoryThreshold,
                500,
                4000,
                " MB",
            ),
        );
    }
    r.push(SettingRow::Heading("窗口"));
    r.push(SettingRow::Slider("透明度", SliderOption::Opacity, 30, 100, "%"));
    assert(row_views(r@) =~= settings_of(*config));
    r
}

/// Whether the options have to be kept after the user was in the settings.
pub fn settings_changed(before: &AppConfig, after: &AppConfig) -> (r: bool)
    ensures
        r == (*before != *after),
{
    *before != *after
}

/// The connection and the phase, each with a stand-in where it is not known.
pub open spec fn status_rows(content: ContentView) -> (Seq<char>, Seq<char>) {
    (
        if content.connection.len() == 0 {
            "等待中..."@
        } else {
            content.connection
        },
        if content.phase.len() == 0 {
            "—"@
        } else {
            content.phase
        },
    )
}

/// The two rows of the state: the connection and the phase, each with a stand-in where it
/// is not known.
pub fn draw_status_section(content: &PanelContent) -> (r: (String, String))
    ensures
        (r.0@, r.1@) == status_rows(content@),
{
    let connection = if content.connection.as_str().unicode_len() == 0 {
        "等待中...".to_owned()
    } else {
        content.connection.clone()
    };
    let phase = if content.phase.as_str().unicode_len() == 0 {
        "—".to_owned()
    } else {
        content.phase.clone()
    };
    (connection, phase)
}

/// A section that is left out where it is empty.
pub fn optional_section(text: &str) -> (r: Option<String>)
    ensures
        r is None <==> text@.len() == 0,
        r matches Some(s) ==> s@ == text@,
{
    if text.unicode_len() == 0 {
        None
    } else {
        Some(text.to_owned())
    }
}

/// The size of the panel at first, in pixels.
pub const PANEL_WIDTH: i32 = 420;

pub const PANEL_HEIGHT: i32 = 580;

/// A monitor: whether it is the primary one, and the area that is left to windows.
#[derive(Clone, Copy, Debug, PartialEq, Eq, Structural)]
pub struct Monitor {
    pub primary: bool,
    pub work: Rect,
}

/// The area that the panel is centred in: that of the first monitor that is not the primary
/// one. A monitor that cannot be asked counts for nothing.
pub open spec fn panel_area(monitors: Seq<Option<Monitor>>) -> Option<Rect>
    decreases monitors.len(),
{
    if monitors.len() == 0 {
        None
    } else {
        match panel_area(monitors.drop_last()) {
            Some(area) => Some(area),
            None => match monitors.last() {
                Some(m) => if m.primary {
                    None
                } else {
                    Some(m.work)
                },
                None => None,
            },
        }
    }
}

/// The area that the panel is centred in, if there is a second monitor.
pub fn find_secondary_monitor(monitors: &Vec<Option<Monitor>>) -> (r: Option<Rect>)
    ensures
        r == panel_area(monitors@),
{
    let mut r: Option<Rect> = None;
    let mut i: usize = 0;
    assert(monitors@.subrange(0, 0) =~= Seq::empty());
    while i < monitors.len()
        invariant
            i <= monitors@.len(),
            r == panel_area(monitors@.subrange(0, i as int)),
        decreases monitors@.len() - i,
    {
        proof {
            let seen = monitors@.subrange(0, i + 1);
            assert(seen.drop_last() =~= monitors@.subrange(0, i as int));
            assert(seen.last() == monitors@[i as int]);
        }
        if r.is_none() {
            match &monitors[i] {
                Some(m) => {
                    if !m.primary {
                        r = Some(m.work);
                    }
                },
                None => {},
            }
        }
        i += 1;
    }
    assert(monitors@.subrange(0, monitors@.len() as int) =~= monitors@);
    r
}

} // verus!
