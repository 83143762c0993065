//! What the tray menu and the settings panel offer.

use crate::app::config::AppConfig;
use crate::app::event::TrayAction;
use crate::win::info_panel::{
    after_messages, after_opacity, opacity_due, panel_area, settings_of, status_rows, ContentView,
    Monitor, PanelAppView, PanelMsgView, SettingRowView, SliderOption, SwitchOption,
};
use crate::win::tray::{action_of, menu_for, menu_opens, MenuItemView};
use vstd::prelude::*;

verus! {

/// The choice with these words means this, and has this check mark.
pub open spec fn offers(
    config: AppConfig,
    i: int,
    text: Seq<char>,
    checked: bool,
    action: TrayAction,
) -> bool {
    &&& menu_for(config)[i] matches MenuItemView::Choice { id, text: t, checked: c }
    &&& t == text
    &&& c == checked
    &&& action_of(id) == Some(action)
}

/// Every choice of the menu means what its words say, and a switch is marked where its
/// option is on.
pub proof fn law_choices_mean_what_they_say(config: AppConfig)
    ensures
        menu_for(config).len() == 11,
        offers(config, 0, "修复客户端窗口比例"@, false, TrayAction::FixWindow),
        offers(config, 1, "找回一些遗忘的东西"@, false, TrayAction::FindForgottenLoot),
        offers(config, 2, "退出结算页面"@, false, TrayAction::PlayAgain),
        offers(config, 3, "热重载客户端"@, false, TrayAction::ReloadUx),
        offers(
            config,
            5,
            "自动接受对局"@,
            config.auto_accept_enabled,
            TrayAction::ToggleAutoAccept,
        ),
        offers(config, 6, "自动点赞跳过"@, config.auto_honor_skip, TrayAction::ToggleAutoHonor),
        offers(
            config,
            7,
            "选人阶段组队分析"@,
            config.premade_champ_select,
            TrayAction::TogglePremadeChamp,
        ),
        offers(
            config,
            8,
            "内存监控自动重载"@,
            config.memory_monitor,
            TrayAction::ToggleMemoryMonitor,
        ),
        offers(config, 10, "退出程序"@, false, TrayAction::Exit),
{
}

/// A section for the delay is there exactly where matches are accepted, with the limits 0
/// and 15, and one for the memory exactly where it is looked at, with the limits 500 and
/// 4000; the opacity goes from 30 to 100.
pub proof fn law_settings_show_what_counts(config: AppConfig)
    ensures
        ({
            let rows = settings_of(config);
            let delay = SettingRowView::Slider(
                "接受延迟（秒）"@,
                SliderOption::AcceptDelay,
                0,
                15,
                "s"@,
            );
            let memory = SettingRowView::Slider(
                "触发阈值（MB）"@,
                SliderOption::MemoryThreshold,
                500,
                4000,
                " MB"@,
            );
            &&& rows[1] == SettingRowView::Switch("自动接受对局"@, SwitchOption::AutoAccept)
            &&& config.auto_accept_enabled ==> rows[2] == delay
            &&& !config.auto_accept_enabled ==> rows[2] == SettingRowView::Heading("战绩分析"@)
            &&& config.memory_monitor ==> rows[rows.len() - 3] == memory && rows[rows.len() - 4]
                == SettingRowView::Switch("自动热重载"@, SwitchOption::MemoryMonitor)
            &&& !config.memory_monitor ==> rows[rows.len() - 3] == SettingRowView::Switch(
                "自动热重载"@,
                SwitchOption::MemoryMonitor,
            )
            &&& rows.last() == SettingRowView::Slider(
                "透明度"@,
                SliderOption::Opacity,
                30,
                100,
                "%"@,
            )
        }),
{
}

/// The panel goes to the first monitor that is not the primary one; where there is none, to
/// no monitor in particular.
pub proof fn law_panel_goes_to_the_second_monitor(monitors: Seq<Option<Monitor>>)
    ensures
        match panel_area(monitors) {
            Some(area) => exists|i: int|
                0 <= i < monitors.len() && (#[trigger] monitors[i] matches Some(m) && !m.primary
                    && m.work == area) && forall|k: int|
                    0 <= k < i ==> (#[trigger] monitors[k] matches Some(m) ==> m.primary),
            None => forall|k: int|
                0 <= k < monitors.len() ==> (#[trigger] monitors[k] matches Some(m) ==> m.primary),
        },
    decreases monitors.len(),
{
    if monitors.len() > 0 {
        let rest = monitors.drop_last();
        law_panel_goes_to_the_second_monitor(rest);
        assert(forall|i: int|
            #![trigger rest[i]]
            #![trigger monitors[i]]
            0 <= i < rest.len() ==> rest[i] == monitors[i]);
        assert(monitors[monitors.len() - 1] == monitors.last());
        if panel_area(rest) is Some {
            let i = choose|i: int|
                0 <= i < rest.len() && (#[trigger] rest[i] matches Some(m) && !m.primary && m.work
                    == panel_area(rest)->0) && forall|k: int|
                    0 <= k < i ==> (#[trigger] rest[k] matches Some(m) ==> m.primary);
            assert(monitors[i] matches Some(m) && !m.primary);
        }
    }
}

/// Messages are read in their order: what comes last about the content stands, and folding
/// counts every time.
pub proof fn law_messages_in_their_order(
    p: PanelAppView,
    msgs: Seq<PanelMsgView>,
    content: ContentView,
)
    ensures
        after_messages(p, Seq::empty()) == p,
        after_messages(p, msgs.push(PanelMsgView::Toggle)).visible == !after_messages(
            p,
            msgs,
        ).visible,
        after_messages(p, msgs.push(PanelMsgView::Toggle)).content == after_messages(
            p,
            msgs,
        ).content,
        after_messages(p, msgs.push(PanelMsgView::Show)).visible,
        after_messages(p, msgs.push(PanelMsgView::UpdateContent(content))).visible
            == after_messages(p, msgs).visible,
        after_messages(p, msgs).current_opacity == p.current_opacity,
    decreases msgs.len(),
{
    assert(msgs.push(PanelMsgView::Toggle).drop_last() =~= msgs);
    assert(msgs.push(PanelMsgView::Show).drop_last() =~= msgs);
    assert(msgs.push(PanelMsgView::UpdateContent(content)).drop_last() =~= msgs);
    if msgs.len() > 0 {
        law_messages_in_their_order(p, msgs.drop_last(), content);
    }
}

/// The opacity that is wanted is applied until it has been applied, while the panel is
/// unfolded, and then no more.
pub proof fn law_opacity_is_applied_once(p: PanelAppView, desired: u8)
    ensures
        opacity_due(after_opacity(p, desired, true), desired) is None,
        opacity_due(after_opacity(p, desired, false), desired) == opacity_due(p, desired),
        p.visible && p.current_opacity != desired ==> opacity_due(p, desired) == Some(desired),
        !p.visible ==> opacity_due(p, desired) is None,
{
}

/// The connection and the phase are shown as they are, and with a stand-in where they are
/// not known.
pub proof fn law_status_is_shown(content: ContentView)
    ensures
        content.connection.len() > 0 ==> status_rows(content).0 == content.connection,
        content.phase.len() > 0 ==> status_rows(content).1 == content.phase,
        content.connection.len() == 0 ==> status_rows(content).0 == "等待中..."@,
        content.phase.len() == 0 ==> status_rows(content).1 == "—"@,
{
}

/// Every section of the settings has its heading, and each switch the words of the option
/// that it turns, in the same order whatever the options are.
pub proof fn law_switches_mean_what_they_say(config: AppConfig)
    ensures
        ({
            let rows = settings_of(config);
            let at: int = if config.auto_accept_enabled {
                3
            } else {
                2
            };
            &&& rows[0] == SettingRowView::Heading("对局匹配"@)
            &&& rows[at] == SettingRowView::Heading("战绩分析"@)
            &&& rows[at + 1] == SettingRowView::Switch(
                "选人阶段组黑"@,
                SwitchOption::PremadeChampSelect,
            )
            &&& rows[at + 2] == SettingRowView::Switch("游戏中组黑"@, SwitchOption::PremadeIngame)
            &&& rows[at + 3] == SettingRowView::Heading("点赞 & 结算"@)
            &&& rows[at + 4] == SettingRowView::Switch(
                "自动跳过点赞"@,
                SwitchOption::AutoHonorSkip,
            )
            &&& rows[at + 5] == SettingRowView::Heading("内存监控"@)
            &&& rows[at + 6] == SettingRowView::Switch("自动热重载"@, SwitchOption::MemoryMonitor)
            &&& rows[rows.len() - 2] == SettingRowView::Heading("窗口"@)
        }),
{
}

/// The menu opens when the right button is let go over the symbol or its context menu is
/// asked for, whatever the upper half of the parameter says, and at nothing else.
pub proof fn law_what_opens_the_menu(lower: u32, upper: u32)
    requires
        lower < 0x1_0000,
        upper < 0x1_0000,
    ensures
        menu_opens((upper * 0x1_0000 + lower) as u32) <==> lower == 0x0205 || lower == 0x007B,
{
    assert((upper * 0x1_0000 + lower) % 0x1_0000 == lower);
}

} // verus!
