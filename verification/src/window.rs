//! Where and how the main window opens.

use vstd::prelude::*;
use vstd::string::*;

use crate::startup;
use crate::utf8;

verus! {

/// The least width of the main window, in pixels.
pub const MIN_WINDOW_WIDTH: u32 = 900;

/// The least height of the main window, in pixels.
pub const MIN_WINDOW_HEIGHT: u32 = 560;

/// How a window fills its display.
#[derive(Clone, Copy, Debug, PartialEq, Eq, Structural)]
pub enum WindowMode {
    Windowed,
    Maximized,
    Fullscreen,
}

/// How a window fills its display: what it says of itself goes before the kind of
/// bounds that it reports.
pub fn window_mode(fullscreen: bool, maximized: bool, bounds: WindowMode) -> (mode: WindowMode)
    ensures
        mode == mode_of(fullscreen, maximized, bounds),
{
    if fullscreen {
        WindowMode::Fullscreen
    } else if maximized {
        WindowMode::Maximized
    } else {
        bounds
    }
}

pub open spec fn mode_of(fullscreen: bool, maximized: bool, bounds: WindowMode) -> WindowMode {
    if fullscreen {
        WindowMode::Fullscreen
    } else if maximized {
        WindowMode::Maximized
    } else {
        bounds
    }
}

/// A window that was opened in a mode, and has not left it, is saved in that mode.
pub proof fn law_mode_is_saved_as_restored(mode: WindowMode)
    ensures
        mode_of(mode == WindowMode::Fullscreen, mode == WindowMode::Maximized, mode) == mode,
        mode_of(false, false, mode) == mode,
{
}

/// What is known of a display: its identifier, if it has one, and whether any part
/// of the window would be seen on it at the saved bounds.
#[derive(Clone, Debug, PartialEq, Eq)]
pub struct DisplayProbe {
    pub uuid: Option<String>,
    pub shows_window: bool,
}

/// Where a window is restored.
#[derive(Clone, Copy, Debug, PartialEq, Eq, Structural)]
pub enum RestoredOrigin {
    /// Where it was saved.
    Saved,
    /// In the center of the current primary display.
    CenteredOnPrimary,
}

/// Which display a window was saved on, if that is still there, and where the
/// window is restored.
#[derive(Clone, Copy, Debug, PartialEq, Eq, Structural)]
pub struct RestorePlan {
    pub display: Option<usize>,
    pub origin: RestoredOrigin,
}

/// `display` has the identifier `uuid`.
pub open spec fn is_display(display: DisplayProbe, uuid: Seq<char>) -> bool {
    startup::text_of(display.uuid) == Some(uuid)
}

/// Index of the first display with the identifier `uuid`.
pub open spec fn display_with(displays: Seq<DisplayProbe>, uuid: Option<Seq<char>>) -> Option<int>
    decreases displays.len(),
{
    if displays.len() == 0 || uuid is None {
        None
    } else if display_with(displays.drop_last(), uuid) is Some {
        display_with(displays.drop_last(), uuid)
    } else if is_display(displays.last(), uuid->Some_0) {
        Some(displays.len() - 1)
    } else {
        None
    }
}

/// Some part of the window would be seen: on its own display, if that is known,
/// else on any.
pub open spec fn is_seen(displays: Seq<DisplayProbe>, display: Option<int>) -> bool {
    match display {
        Some(index) => displays[index].shows_window,
        None => exists|i: int| 0 <= i < displays.len() && (#[trigger] displays[i]).shows_window,
    }
}

/// The display found is the first with that identifier, and none is found only
/// where no display has it.
pub proof fn law_restored_on_the_saved_display(displays: Seq<DisplayProbe>, uuid: Seq<char>)
    ensures
        match display_with(displays, Some(uuid)) {
            Some(index) => 0 <= index < displays.len() && is_display(displays[index], uuid)
                && forall|j: int| 0 <= j < index ==> !is_display(#[trigger] displays[j], uuid),
            None => forall|j: int|
                0 <= j < displays.len() ==> !is_display(#[trigger] displays[j], uuid),
        },
    decreases displays.len(),
{
    if displays.len() > 0 {
        let front = displays.drop_last();
        law_restored_on_the_saved_display(front, uuid);
        assert forall|j: int| 0 <= j < displays.len() - 1 implies #[trigger] displays[j]
            == front[j] by {}
    }
}

/// Where a window is restored that was saved on the display `uuid`.
pub open spec fn origin_for(displays: Seq<DisplayProbe>, uuid: Option<Seq<char>>) -> RestoredOrigin {
    if is_seen(displays, display_with(displays, uuid)) {
        RestoredOrigin::Saved
    } else {
        RestoredOrigin::CenteredOnPrimary
    }
}

/// Where to restore a window that was saved on the display `uuid`. Display
/// arrangements change: the saved size is kept, but the window is centered on the
/// current primary display where it would not be seen at all.
pub fn restore_plan(uuid: Option<String>, displays: &Vec<DisplayProbe>) -> (plan: RestorePlan)
    ensures
        match plan.display {
            Some(index) => display_with(displays@, startup::text_of(uuid)) == Some(index as int)
                && index < displays.len(),
            None => display_with(displays@, startup::text_of(uuid)) is None,
        },
        plan.origin == origin_for(displays@, startup::text_of(uuid)),
        plan.origin == (if is_seen(displays@, display_with(displays@, startup::text_of(uuid))) {
            RestoredOrigin::Saved
        } else {
            RestoredOrigin::CenteredOnPrimary
        }),
{
    let mut display: Option<usize> = None;
    let mut seen: bool = false;
    let mut i: usize = 0;
    proof {
        assert(displays@.take(0) =~= Seq::empty());
    }
    while i < displays.len()
        invariant
            i <= displays.len(),
            match display {
                Some(index) => display_with(
                    displays@.take(i as int),
                    startup::text_of(uuid),
                ) == Some(index as int) && index < i,
                None => display_with(displays@.take(i as int), startup::text_of(uuid)) is None,
            },
            seen == exists|j: int| 0 <= j < i && (#[trigger] displays@[j]).shows_window,
        decreases displays.len() - i,
    {
        proof {
            assert(displays@.take(i + 1).drop_last() =~= displays@.take(i as int));
            assert(displays@.take(i + 1).last() == displays@[i as int]);
        }
        if display.is_none() {
            if let Some(wanted) = &uuid {
                if let Some(found) = &displays[i].uuid {
                    if utf8::same_text(found.as_str(), wanted.as_str()) {
                        display = Some(i);
                    }
                }
            }
        }
        if displays[i].shows_window {
            seen = true;
        }
        i = i + 1;
    }
    proof {
        assert(displays@.take(displays@.len() as int) =~= displays@);
    }
    let is_seen: bool = match display {
        Some(index) => displays[index].shows_window,
        None => seen,
    };
    let origin = if is_seen {
        RestoredOrigin::Saved
    } else {
        RestoredOrigin::CenteredOnPrimary
    };
    RestorePlan { display, origin }
}

/// How a development build names itself.
#[derive(Clone, Debug, PartialEq, Eq)]
pub struct BuildIdentity {
    pub bundle_id: String,
    pub window_title: String,
}

/// How the main window opens: its size where no saved placement is used, whether
/// one may be used, the app it belongs to, and its title.
#[derive(Clone, Debug, PartialEq, Eq)]
pub struct WindowPlan {
    pub width: u32,
    pub height: u32,
    pub restores_placement: bool,
    pub app_id: String,
    pub title: Option<String>,
}

/// The size of a window that is not restored.
pub open spec fn opening_size(perf_large_window: bool) -> (u32, u32) {
    if perf_large_window {
        (1800u32, 1100u32)
    } else {
        (1100u32, 700u32)
    }
}

/// The name that the window belongs to, and its title.
pub open spec fn window_names(dev_build: Option<BuildIdentity>) -> (Seq<char>, Option<Seq<char>>) {
    match dev_build {
        Some(build) => (build.bundle_id@, Some(build.window_title@)),
        None => ("com.dirijor.diri"@, None),
    }
}

/// A performance run has the larger window, and no window opens smaller than it may
/// become.
pub proof fn law_windows_open_large_enough()
    ensures
        opening_size(true).0 == 1800 && opening_size(true).1 == 1100,
        opening_size(false).0 == 1100 && opening_size(false).1 == 700,
        opening_size(false).0 < opening_size(true).0,
        opening_size(false).1 < opening_size(true).1,
        MIN_WINDOW_WIDTH <= opening_size(false).0,
        MIN_WINDOW_HEIGHT <= opening_size(false).1,
{
}

/// Only a development build has a title, and it goes by its own name.
pub proof fn law_development_builds_go_by_their_own_name(build: BuildIdentity)
    ensures
        window_names(Some(build)).0 == build.bundle_id@,
        window_names(Some(build)).1 == Some(build.window_title@),
        window_names(None).1 is None,
        window_names(None).0 == "com.dirijor.diri"@,
{
}

/// How the main window opens. Previews and performance runs always start from the
/// same place, a development build under its own name.
pub fn window_plan(
    preview: bool,
    perf_large_window: bool,
    dev_build: &Option<BuildIdentity>,
) -> (plan: WindowPlan)
    ensures
        (plan.width, plan.height) == (if perf_large_window {
            (1800u32, 1100u32)
        } else {
            (1100u32, 700u32)
        }),
        (plan.width, plan.height) == opening_size(perf_large_window),
        plan.restores_placement == (!preview && !perf_large_window),
        (plan.app_id@, startup::text_of(plan.title)) == window_names(*dev_build),
        match *dev_build {
            Some(build) => plan.app_id@ == build.bundle_id@ && startup::text_of(plan.title) == Some(
                build.window_title@,
            ),
            None => plan.app_id@ == "com.dirijor.diri"@ && plan.title is None,
        },
{
    let (width, height): (u32, u32) = if perf_large_window {
        (1800, 1100)
    } else {
        (1100, 700)
    };
    let restores_placement: bool = !preview && !perf_large_window;
    match dev_build {
        Some(build) => WindowPlan {
            width,
            height,
            restores_placement,
            app_id: build.bundle_id.clone(),
            title: Some(build.window_title.clone()),
        },
        None => WindowPlan {
            width,
            height,
            restores_placement,
            app_id: "com.dirijor.diri".to_owned(),
            title: None,
        },
    }
}

/// A window is saved as fullscreen if it says so, else as maximized if it says so, and
/// what its bounds say counts only where it says neither.
pub proof fn law_what_a_window_says_goes_before_its_bounds(
    fullscreen: bool,
    maximized: bool,
    bounds: WindowMode,
    other: WindowMode,
)
    ensures
        mode_of(true, maximized, bounds) == WindowMode::Fullscreen,
        mode_of(false, true, bounds) == WindowMode::Maximized,
        mode_of(false, false, bounds) == bounds,
        fullscreen || maximized ==> mode_of(fullscreen, maximized, bounds) == mode_of(
            fullscreen,
            maximized,
            other,
        ),
{
}

/// A window without a saved display has none to be found on. Whether it is seen is
/// decided by its display alone where that was found, and by all of them where not.
pub proof fn law_a_window_is_seen_on_its_own_display(
    displays: Seq<DisplayProbe>,
    others: Seq<DisplayProbe>,
    index: int,
    any: int,
)
    ensures
        display_with(displays, None) is None,
        is_seen(displays, Some(index)) <==> displays[index].shows_window,
        displays[index] == others[index] ==> is_seen(displays, Some(index)) == is_seen(
            others,
            Some(index),
        ),
        0 <= any < displays.len() && displays[any].shows_window ==> is_seen(displays, None),
        is_seen(displays, None) ==> exists|i: int|
            0 <= i < displays.len() && (#[trigger] displays[i]).shows_window,
{
}

/// A window stays where it was saved if its own display, the first of that name, would
/// show it; if that display is gone, or was never known, if any display would. Else it
/// goes to the center of the primary display.
pub proof fn law_an_unseen_window_is_centered_on_the_primary_display(
    displays: Seq<DisplayProbe>,
    uuid: Option<Seq<char>>,
    own: int,
)
    ensures
        (uuid matches Some(name) && 0 <= own < displays.len() && startup::text_of(
            displays[own].uuid,
        ) == Some(name) && forall|j: int|
            0 <= j < own ==> startup::text_of((#[trigger] displays[j]).uuid) != Some(name)) ==> (
        origin_for(displays, uuid) == RestoredOrigin::Saved <==> displays[own].shows_window),
        (uuid matches Some(name) ==> forall|j: int|
            0 <= j < displays.len() ==> startup::text_of((#[trigger] displays[j]).uuid) != Some(
                name,
            )) ==> (origin_for(displays, uuid) == RestoredOrigin::CenteredOnPrimary <==> forall|
            j: int,
        |
            0 <= j < displays.len() ==> !(#[trigger] displays[j]).shows_window),
{
    if let Some(name) = uuid {
        law_restored_on_the_saved_display(displays, name);
        if let Some(found) = display_with(displays, uuid) {
            assert(is_display(displays[found], name));
            if 0 <= own < displays.len() && startup::text_of(displays[own].uuid) == Some(name)
                && forall|j: int|
                0 <= j < own ==> startup::text_of((#[trigger] displays[j]).uuid) != Some(name) {
                if own < found {
                    assert(is_display(displays[own], name));
                }
                if found < own {
                    assert(startup::text_of(displays[found].uuid) == Some(name));
                }
            }
        } else if 0 <= own < displays.len() {
            assert(!is_display(displays[own], name));
        }
    }
}

} // verus!
