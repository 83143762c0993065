//! What runs in the background while the client is connected.

use crate::app::config::AppConfig;
use crate::app::event::{AppEvent, AppEventView};
use crate::lcu::api::{text_result, ErrorView, LcuApiError};
use crate::text::{contains, has_infix, lowercase, lowercase_of, str_eq};
use crate::win::winapi::Rect;
use vstd::prelude::*;

verus! {

/// How long to wait between two looks at the client's memory, in seconds.
pub const MEMORY_CHECK_SECS: u64 = 300;

/// How long to wait after a reload before the next one, in seconds.
pub const RELOAD_COOLDOWN_SECS: u64 = 1800;

/// The bits of the floating-point number one: the zoom factor that goes with a position.
pub const ONE_BITS: u64 = 0x3FF0_0000_0000_0000;

/// The client's memory is looked at: the user wants it, and the last reload, if there was
/// one, is long enough ago.
pub open spec fn check_due(config: AppConfig, secs_since_reload: Option<u64>) -> bool {
    config.memory_monitor && (secs_since_reload matches Some(s) ==> s >= RELOAD_COOLDOWN_SECS)
}

/// A phase in which a reload does no harm.
pub open spec fn safe_phase(phase: Seq<char>) -> bool {
    phase == "None"@ || phase == "Lobby"@ || phase == "Matchmaking"@ || phase == "EndOfGame"@
        || phase == ""@
}

/// The client's interface is reloaded: in a safe phase, and where it takes at least as
/// much memory as the user allows. A use of nothing means that it was not measured.
pub open spec fn reload_due(
    phase: Result<Seq<char>, ErrorView>,
    memory_mb: u64,
    threshold_mb: u64,
) -> bool {
    phase is Ok && safe_phase(phase->Ok_0) && memory_mb != 0 && memory_mb >= threshold_mb
}

/// Whether the client's memory is looked at.
pub fn memory_check_due(config: &AppConfig, secs_since_reload: Option<u64>) -> (r: bool)
    ensures
        r == check_due(*config, secs_since_reload),
{
    if !config.memory_monitor {
        return false;
    }
    match secs_since_reload {
        Some(s) => s >= RELOAD_COOLDOWN_SECS,
        None => true,
    }
}

/// Whether a reload does no harm in a phase.
pub fn is_safe_phase(phase: &str) -> (r: bool)
    ensures
        r == safe_phase(phase@),
{
    str_eq(phase, "None") || str_eq(phase, "Lobby") || str_eq(phase, "Matchmaking") || str_eq(
        phase,
        "EndOfGame",
    ) || str_eq(phase, "")
}

/// Whether the client's interface is reloaded.
pub fn memory_reload_due(
    phase: &Result<String, LcuApiError>,
    memory_mb: u64,
    threshold_mb: u64,
) -> (r: bool)
    ensures
        r == reload_due(text_result(*phase), memory_mb, threshold_mb),
{
    match phase {
        Ok(p) => is_safe_phase(p.as_str()) && memory_mb != 0 && memory_mb >= threshold_mb,
        Err(_) => false,
    }
}

/// No two reloads come within half an hour of each other, none comes during champion
/// select or a game, and none comes where the user does not want any.
pub proof fn law_reloads_are_rare_and_safe(
    config: AppConfig,
    secs_since_reload: Option<u64>,
    phase: Seq<char>,
    memory_mb: u64,
)
    requires
        check_due(config, secs_since_reload),
        reload_due(Ok(phase), memory_mb, config.memory_threshold_mb),
    ensures
        config.memory_monitor,
        secs_since_reload matches Some(s) ==> s >= 1800,
        phase != "ChampSelect"@,
        phase != "InProgress"@,
        phase != "GameStart"@,
        phase != "Reconnect"@,
        phase != "ReadyCheck"@,
        memory_mb >= config.memory_threshold_mb,
{
    reveal_strlit("None");
    reveal_strlit("Lobby");
    reveal_strlit("Matchmaking");
    reveal_strlit("EndOfGame");
    reveal_strlit("");
    reveal_strlit("ChampSelect");
    reveal_strlit("InProgress");
    reveal_strlit("GameStart");
    reveal_strlit("Reconnect");
    reveal_strlit("ReadyCheck");
    assert(""@.len() == 0);
    assert("ChampSelect"@.len() == 11);
    assert("InProgress"@.len() == 10);
    assert("GameStart"@.len() == 9);
    assert("Reconnect"@.len() == 9);
    assert("ReadyCheck"@.len() == 10);
    assert("EndOfGame"@[0] == 'E');
    assert("ChampSelect"@[0] == 'C');
    assert("InProgress"@[0] == 'I');
    assert("GameStart"@[0] == 'G');
    assert("Reconnect"@[0] == 'R');
    assert("ReadyCheck"@[0] == 'R');
    assert("None"@[0] == 'N');
    assert("Lobby"@[0] == 'L');
    assert("Matchmaking"@[0] == 'M');
}

/// The memory of a process, with its name.
pub struct ProcessMemory {
    pub name: String,
    pub bytes: u64,
}

/// A name, in lower case, is that of the client's interface.
pub open spec fn is_interface(lower: Seq<char>) -> bool {
    has_infix(lower, "leagueclientux"@)
}

/// Whether a name, in lower case, is that of the client's interface.
pub fn is_interface_process(lower: &str) -> (r: bool)
    ensures
        r == is_interface(lower@),
{
    contains(lower, "leagueclientux")
}

/// The memory in megabytes of the first process that is the client's interface.
pub open spec fn interface_memory(processes: Seq<ProcessMemory>) -> int
    decreases processes.len(),
{
    if processes.len() == 0 {
        0
    } else if is_interface(lowercase_of(processes[0].name@)) {
        processes[0].bytes as int / 1048576
    } else {
        interface_memory(processes.drop_first())
    }
}

/// The memory of the client's interface in megabytes: that of the first process of its
/// name, or nothing where there is none.
pub fn get_lcu_ux_memory_mb(processes: &Vec<ProcessMemory>) -> (r: u64)
    ensures
        (exists|i: int|
            0 <= i < processes@.len() && #[trigger] is_interface(lowercase_of(processes@[i].name@))
                && r == processes@[i].bytes / 1048576 && forall|j: int|
                0 <= j < i ==> !#[trigger] is_interface(lowercase_of(processes@[j].name@))) || (r
            == 0 && forall|j: int|
            0 <= j < processes@.len() ==> !#[trigger] is_interface(
                lowercase_of(processes@[j].name@),
            )),
        r == interface_memory(processes@),
{
    let mut i: usize = 0;
    assert(processes@.skip(0) =~= processes@);
    while i < processes.len()
        invariant
            i <= processes@.len(),
            forall|j: int|
                0 <= j < i ==> !#[trigger] is_interface(lowercase_of(processes@[j].name@)),
            interface_memory(processes@) == interface_memory(processes@.skip(i as int)),
        decreases processes@.len() - i,
    {
        let lower = lowercase(processes[i].name.as_str());
        assert(processes@.skip(i as int)[0] == processes@[i as int]);
        assert(processes@.skip(i as int).drop_first() =~= processes@.skip(i + 1));
        if is_interface_process(lower.as_str()) {
            assert(is_interface(lowercase_of(processes@[i as int].name@)));
            return processes[i].bytes / 1048576;
        }
        i += 1;
    }
    0
}

/// The event for a window, with its zoom factor.
pub open spec fn window_report(rect: Rect, zoom: u64) -> AppEventView {
    AppEventView::WindowRectUpdated {
        x: rect.left,
        y: rect.top,
        width: rect.spec_width() as i32,
        height: rect.spec_height() as i32,
        zoom_scale: zoom,
    }
}

/// What the main loop is told of the client's window: where it is, with the zoom factor for
/// which it was fixed, or one where only its position was looked at.
pub fn window_event(rect: &Rect, zoom: u64) -> (r: AppEvent)
    requires
        rect.measurable(),
    ensures
        r@ == window_report(*rect, zoom),
{
    AppEvent::WindowRectUpdated {
        x: rect.left,
        y: rect.top,
        width: rect.width(),
        height: rect.height(),
        zoom_scale: zoom,
    }
}

} // verus!
