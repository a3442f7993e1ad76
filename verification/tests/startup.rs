use diri_app::menus::{effect_of, menus, shortcuts, AppCommand, AppEffect, MenuEntry};
use diri_app::startup::preview_request;
use diri_app::usage_refresh::{
    UsageAction, UsageEvent, UsageRefresh, USAGE_RECONCILE_INTERVAL, USAGE_REFRESH_DEBOUNCE,
};
use diri_app::window::{
    restore_plan, window_mode, window_plan, BuildIdentity, DisplayProbe, RestoredOrigin,
    WindowMode,
};

#[test]
fn the_preview_switch_names_a_scenario() {
    let read = |switch: Option<&str>, scenario: Option<&str>| {
        let request = preview_request(switch.map(str::to_owned), scenario.map(str::to_owned));
        (request.preview, request.scenario)
    };
    assert_eq!(read(None, None), (false, None));
    assert_eq!(read(Some("0"), None), (false, Some("0".to_owned())));
    assert_eq!(read(Some("1"), None), (true, None));
    assert_eq!(read(Some("artifacts"), None), (true, Some("artifacts".to_owned())));
    assert_eq!(read(Some("1"), Some("busy")), (true, Some("busy".to_owned())));
    assert_eq!(read(None, Some("busy")), (false, Some("busy".to_owned())));
}

#[test]
fn changes_are_gathered_until_the_watcher_is_quiet() {
    assert_eq!(USAGE_REFRESH_DEBOUNCE, 2_000);
    assert_eq!(USAGE_RECONCILE_INTERVAL, 30 * 60 * 1_000);
    let mut state = UsageRefresh::default();
    assert_eq!(state.refresh_due(), None);
    assert_eq!(state.handle(UsageEvent::Deadline, 5), UsageAction::Wait);
    assert_eq!(state.handle(UsageEvent::Changed(vec![1, 2]), 10), UsageAction::Wait);
    assert_eq!(state.refresh_due(), Some(2_010));
    assert_eq!(state.handle(UsageEvent::Changed(vec![2, 3]), 500), UsageAction::Wait);
    assert_eq!(state.refresh_due(), Some(2_500));
    assert_eq!(state.handle(UsageEvent::Deadline, 2_499), UsageAction::Wait);
    match state.handle(UsageEvent::Deadline, 2_500) {
        UsageAction::RefreshPaths(mut paths) => {
            paths.sort();
            assert_eq!(paths, vec![1, 2, 3]);
        }
        other => panic!("{other:?}"),
    }
    assert_eq!(state.refresh_due(), None);
}

#[test]
fn a_lost_event_reads_everything() {
    let mut state = UsageRefresh::default();
    state.handle(UsageEvent::Changed(vec![7]), 0);
    state.handle(UsageEvent::Reconcile, 100);
    assert_eq!(state.handle(UsageEvent::Deadline, 2_100), UsageAction::RefreshAll);
    state.handle(UsageEvent::WatcherEnded, 3_000);
    assert_eq!(state.handle(UsageEvent::Deadline, 5_000), UsageAction::RefreshAll);
    state.handle(UsageEvent::Changed(vec![8]), 6_000);
    assert_eq!(state.handle(UsageEvent::ReconcileTick, 6_001), UsageAction::RefreshAll);
    assert_eq!(state.refresh_due(), None);
}

#[test]
fn a_window_is_saved_in_the_mode_it_shows() {
    assert_eq!(window_mode(true, true, WindowMode::Windowed), WindowMode::Fullscreen);
    assert_eq!(window_mode(false, true, WindowMode::Windowed), WindowMode::Maximized);
    assert_eq!(window_mode(false, false, WindowMode::Windowed), WindowMode::Windowed);
    assert_eq!(window_mode(false, false, WindowMode::Fullscreen), WindowMode::Fullscreen);
}

fn probe(uuid: Option<&str>, shows_window: bool) -> DisplayProbe {
    DisplayProbe {
        uuid: uuid.map(str::to_owned),
        shows_window,
    }
}

#[test]
fn a_window_is_restored_where_it_can_be_seen() {
    let displays = vec![probe(None, true), probe(Some("b"), false), probe(Some("b"), true)];
    let plan = restore_plan(Some("b".to_owned()), &displays);
    assert_eq!((plan.display, plan.origin), (Some(1), RestoredOrigin::CenteredOnPrimary));
    let plan = restore_plan(Some("c".to_owned()), &displays);
    assert_eq!((plan.display, plan.origin), (None, RestoredOrigin::Saved));
    let plan = restore_plan(None, &vec![probe(Some("b"), false)]);
    assert_eq!((plan.display, plan.origin), (None, RestoredOrigin::CenteredOnPrimary));
    let plan = restore_plan(None, &vec![]);
    assert_eq!((plan.display, plan.origin), (None, RestoredOrigin::CenteredOnPrimary));
}

#[test]
fn the_main_window_opens_by_plan() {
    let plan = window_plan(false, false, &None);
    assert_eq!((plan.width, plan.height), (1100, 700));
    assert!(plan.restores_placement);
    assert_eq!(plan.app_id, "com.dirijor.diri");
    assert_eq!(plan.title, None);

    let build = BuildIdentity {
        bundle_id: "com.dirijor.diri.dev".to_owned(),
        window_title: "diri (dev)".to_owned(),
    };
    let plan = window_plan(false, true, &Some(build));
    assert_eq!((plan.width, plan.height), (1800, 1100));
    assert!(!plan.restores_placement);
    assert_eq!(plan.app_id, "com.dirijor.diri.dev");
    assert_eq!(plan.title, Some("diri (dev)".to_owned()));
    assert!(!window_plan(true, false, &None).restores_placement);
}

#[test]
fn quitting_hiding_and_closing_are_bound() {
    let bound = |command: AppCommand| {
        shortcuts()
            .iter()
            .find(|shortcut| shortcut.command == command)
            .map(|shortcut| shortcut.keys)
    };
    assert_eq!(bound(AppCommand::OpenLauncher), Some("cmd-n"));
    assert_eq!(bound(AppCommand::Quit), Some("cmd-q"));
    assert_eq!(bound(AppCommand::HideApp), Some("cmd-h"));
    assert_eq!(bound(AppCommand::CloseSession), Some("cmd-w"));
    assert_eq!(bound(AppCommand::ReopenSession), Some("cmd-shift-t"));
    assert_eq!(shortcuts().len(), 5);
    assert_eq!(effect_of(AppCommand::Quit), Some(AppEffect::Quit));
    assert_eq!(effect_of(AppCommand::HideApp), Some(AppEffect::Hide));
    assert_eq!(effect_of(AppCommand::CloseWindow), Some(AppEffect::CloseActiveWindow));
    assert_eq!(effect_of(AppCommand::CloseSession), Some(AppEffect::CloseActiveWindow));
    assert_eq!(effect_of(AppCommand::Paste), None);
}

#[test]
fn the_menus_are_complete() {
    let menus = menus();
    let titles: Vec<&str> = menus.iter().map(|menu| menu.title).collect();
    assert_eq!(titles, vec!["diri", "File", "Edit", "Window"]);
    assert_eq!(menus[0].entries.len(), 5);
    assert_eq!(menus[0].entries[0], MenuEntry::Services("Services"));
    assert_eq!(menus[0].entries[4], MenuEntry::Command("Quit diri", AppCommand::Quit));
    assert_eq!(
        menus[2].entries,
        vec![
            MenuEntry::SystemCommand("Copy", AppCommand::CopySelection),
            MenuEntry::SystemCommand("Paste", AppCommand::Paste),
        ]
    );
    assert_eq!(menus[3].entries.len(), 3);
}
