//! The tray menu: what it offers, and what a choice means.

use crate::app::config::AppConfig;
use crate::app::event::TrayAction;
use crate::app::main_loop::toggled;
use vstd::prelude::*;

verus! {

pub const ID_QUIT: usize = 1001;

pub const ID_RELOAD_UX: usize = 1002;

pub const ID_PLAY_AGAIN: usize = 1003;

pub const ID_FIND_LOOT: usize = 1004;

pub const ID_FIX_WINDOW: usize = 1005;

pub const ID_AUTO_ACCEPT: usize = 2001;

pub const ID_AUTO_HONOR: usize = 2002;

pub const ID_PREMADE_CHAMP: usize = 2003;

pub const ID_MEMORY_MONITOR: usize = 2004;

/// The messages for which the menu opens: the right button was released, or a context
/// menu was asked for.
pub const WM_RBUTTONUP: u32 = 0x0205;

pub const WM_CONTEXTMENU: u32 = 0x007B;

/// An entry of the menu.
#[derive(Clone, Copy, Debug)]
pub enum MenuItem {
    /// A choice, with or without a check mark.
    Choice { id: usize, text: &'static str, checked: bool },
    /// A line between choices.
    Separator,
}

/// What a `MenuItem` holds.
pub enum MenuItemView {
    Choice { id: usize, text: Seq<char>, checked: bool },
    Separator,
}

impl View for MenuItem {
    type V = MenuItemView;

    open spec fn view(&self) -> MenuItemView {
        match self {
            MenuItem::Choice { id, text, checked } => MenuItemView::Choice {
                id: *id,
                text: text@,
                checked: *checked,
            },
            MenuItem::Separator => MenuItemView::Separator,
        }
    }
}

/// The views of some entries.
pub open spec fn item_views(s: Seq<MenuItem>) -> Seq<MenuItemView> {
    Seq::new(s.len(), |i: int| s[i]@)
}

/// The menu: what can be done at once, the switches with their check marks, and the end.
pub open spec fn menu_for(config: AppConfig) -> Seq<MenuItemView> {
    seq![
        MenuItemView::Choice { id: ID_FIX_WINDOW, text: "修复客户端窗口比例"@, checked: false },
        MenuItemView::Choice { id: ID_FIND_LOOT, text: "找回一些遗忘的东西"@, checked: false },
        MenuItemView::Choice { id: ID_PLAY_AGAIN, text: "退出结算页面"@, checked: false },
        MenuItemView::Choice { id: ID_RELOAD_UX, text: "热重载客户端"@, checked: false },
        MenuItemView::Separator,
        MenuItemView::Choice {
            id: ID_AUTO_ACCEPT,
            text: "自动接受对局"@,
            checked: config.auto_accept_enabled,
        },
        MenuItemView::Choice {
            id: ID_AUTO_HONOR,
            text: "自动点赞跳过"@,
            checked: config.auto_honor_skip,
        },
        MenuItemView::Choice {
            id: ID_PREMADE_CHAMP,
            text: "选人阶段组队分析"@,
            checked: config.premade_champ_select,
        },
        MenuItemView::Choice {
            id: ID_MEMORY_MONITOR,
            text: "内存监控自动重载"@,
            checked: config.memory_monitor,
        },
        MenuItemView::Separator,
        MenuItemView::Choice { id: ID_QUIT, text: "退出程序"@, checked: false },
    ]
}

/// The menu for the user's options.
pub fn show_tray_menu(config: &AppConfig) -> (r: Vec<MenuItem>)
    ensures
        item_views(r@) == menu_for(*config),
{
    let mut r: Vec<MenuItem> = Vec::new();
    r.push(MenuItem::Choice { id: ID_FIX_WINDOW, text: "修复客户端窗口比例", checked: false });
    r.push(MenuItem::Choice { id: ID_FIND_LOOT, text: "找回一些遗忘的东西", checked: false });
    r.push(MenuItem::Choice { id: ID_PLAY_AGAIN, text: "退出结算页面", checked: false });
    r.push(MenuItem::Choice { id: ID_RELOAD_UX, text: "热重载客户端", checked: false });
    r.push(MenuItem::Separator);
    r.push(
        MenuItem::Choice {
            id: ID_AUTO_ACCEPT,
            text: "自动接受对局",
            checked: config.auto_accept_enabled,
        },
    );
    r.push(
        MenuItem::Choice {
            id: ID_AUTO_HONOR,
            text: "自动点赞跳过",
            checked: config.auto_honor_skip,
        },
    );
    r.push(
        MenuItem::Choice {
            id: ID_PREMADE_CHAMP,
            text: "选人阶段组队分析",
            checked: config.premade_champ_select,
        },
    );
    r.push(
        MenuItem::Choice {
            id: ID_MEMORY_MONITOR,
            text: "内存监控自动重载",
            checked: config.memory_monitor,
        },
    );
    r.push(MenuItem::Separator);
    r.push(MenuItem::Choice { id: ID_QUIT, text: "退出程序", checked: false });
    assert(item_views(r@) =~= menu_for(*config));
    r
}

/// What a choice means.
pub open spec fn action_of(id: usize) -> Option<TrayAction> {
    if id == ID_FIX_WINDOW {
        Some(TrayAction::FixWindow)
    } else if id == ID_FIND_LOOT {
        Some(TrayAction::FindForgottenLoot)
    } else if id == ID_PLAY_AGAIN {
        Some(TrayAction::PlayAgain)
    } else if id == ID_RELOAD_UX {
        Some(TrayAction::ReloadUx)
    } else if id == ID_AUTO_ACCEPT {
        Some(TrayAction::ToggleAutoAccept)
    } else if id == ID_AUTO_HONOR {
        Some(TrayAction::ToggleAutoHonor)
    } else if id == ID_PREMADE_CHAMP {
        Some(TrayAction::TogglePremadeChamp)
    } else if id == ID_MEMORY_MONITOR {
        Some(TrayAction::ToggleMemoryMonitor)
    } else if id == ID_QUIT {
        Some(TrayAction::Exit)
    } else {
        None
    }
}

/// What a choice means; a number that is not in the menu means nothing.
pub fn handle_menu_command(id: usize) -> (r: Option<TrayAction>)
    ensures
        r == action_of(id),
{
    if id == ID_FIX_WINDOW {
        Some(TrayAction::FixWindow)
    } else if id == ID_FIND_LOOT {
        Some(TrayAction::FindForgottenLoot)
    } else if id == ID_PLAY_AGAIN {
        Some(TrayAction::PlayAgain)
    } else if id == ID_RELOAD_UX {
        Some(TrayAction::ReloadUx)
    } else if id == ID_AUTO_ACCEPT {
        Some(TrayAction::ToggleAutoAccept)
    } else if id == ID_AUTO_HONOR {
        Some(TrayAction::ToggleAutoHonor)
    } else if id == ID_PREMADE_CHAMP {
        Some(TrayAction::TogglePremadeChamp)
    } else if id == ID_MEMORY_MONITOR {
        Some(TrayAction::ToggleMemoryMonitor)
    } else if id == ID_QUIT {
        Some(TrayAction::Exit)
    } else {
        None
    }
}

/// The menu opens for the parameter of a tray message.
pub open spec fn menu_opens(parameter: u32) -> bool {
    parameter % 0x1_0000 == WM_RBUTTONUP || parameter % 0x1_0000 == WM_CONTEXTMENU
}

/// Whether the menu opens for the parameter of a tray message, whose lower half says what
/// happened.
pub fn opens_menu(parameter: u32) -> (r: bool)
    ensures
        r == menu_opens(parameter),
{
    let event: u32 = parameter % 0x1_0000;
    event == WM_RBUTTONUP || event == WM_CONTEXTMENU
}

/// Every choice in the menu means something, and no two mean the same.
pub proof fn law_choices_have_meanings(config: AppConfig, i: int, j: int)
    requires
        0 <= i < j < menu_for(config).len(),
        menu_for(config)[i] is Choice,
        menu_for(config)[j] is Choice,
    ensures
        action_of(menu_for(config)[i]->id) is Some,
        action_of(menu_for(config)[j]->id) is Some,
        action_of(menu_for(config)[i]->id) != action_of(menu_for(config)[j]->id),
{
    let m = menu_for(config);
    assert(m.len() == 11);
    assert(m[i] is Choice && m[j] is Choice);
    assert(i == 0 || i == 1 || i == 2 || i == 3 || i == 5 || i == 6 || i == 7 || i == 8 || i == 10);
    assert(j == 0 || j == 1 || j == 2 || j == 3 || j == 5 || j == 6 || j == 7 || j == 8 || j == 10);
}

/// A choice is one of the switches.
pub open spec fn is_switch(id: usize) -> bool {
    id == ID_AUTO_ACCEPT || id == ID_AUTO_HONOR || id == ID_PREMADE_CHAMP || id == ID_MEMORY_MONITOR
}

/// Choosing a switch turns its own check mark around and no other; other choices turn none.
pub proof fn law_switch_turns_its_mark(config: AppConfig, i: int, j: int)
    requires
        0 <= i < menu_for(config).len(),
        0 <= j < menu_for(config).len(),
        menu_for(config)[i] is Choice,
        menu_for(config)[j] is Choice,
    ensures
        ({
            let after = menu_for(toggled(config, action_of(menu_for(config)[i]->id)->0));
            after[j]->checked == (if i == j && is_switch(menu_for(config)[i]->id) {
                !menu_for(config)[j]->checked
            } else {
                menu_for(config)[j]->checked
            })
        }),
{
    let m = menu_for(config);
    assert(m.len() == 11);
    assert(i == 0 || i == 1 || i == 2 || i == 3 || i == 5 || i == 6 || i == 7 || i == 8 || i == 10);
    assert(j == 0 || j == 1 || j == 2 || j == 3 || j == 5 || j == 6 || j == 7 || j == 8 || j == 10);
}

} // verus!
