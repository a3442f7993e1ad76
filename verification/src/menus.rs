//! The application menus and their shortcuts.
//!
//! Standard macOS app behaviors route through the application menu: without one,
//! quitting, hiding, closing and the Edit menu simply do not exist.

use vstd::prelude::*;
use vstd::string::*;

verus! {

/// What a menu entry or a shortcut asks for.
#[derive(Clone, Copy, Debug, PartialEq, Eq, Structural)]
pub enum AppCommand {
    OpenLauncher,
    Quit,
    HideApp,
    CloseWindow,
    CloseSession,
    ReopenSession,
    CopySelection,
    Paste,
}

/// What the app itself does for a command that no view has claimed.
#[derive(Clone, Copy, Debug, PartialEq, Eq, Structural)]
pub enum AppEffect {
    Quit,
    Hide,
    CloseActiveWindow,
}

/// A key combination and the command it stands for.
#[derive(Clone, Copy, Debug, PartialEq, Eq)]
pub struct Shortcut {
    pub keys: &'static str,
    pub command: AppCommand,
}

/// An entry of a menu.
#[derive(Clone, Copy, Debug, PartialEq, Eq)]
pub enum MenuEntry {
    /// The submenu that the system fills with its services.
    Services(&'static str),
    Separator,
    Command(&'static str, AppCommand),
    /// A command that stands for the system's own of that name.
    SystemCommand(&'static str, AppCommand),
}

/// A menu: its title and its entries.
#[derive(Debug, PartialEq, Eq)]
pub struct AppMenu {
    pub title: &'static str,
    pub entries: Vec<MenuEntry>,
}

/// What a `MenuEntry` stands for.
pub enum EntryModel {
    Services(Seq<char>),
    Separator,
    Command(Seq<char>, AppCommand),
    SystemCommand(Seq<char>, AppCommand),
}

impl View for MenuEntry {
    type V = EntryModel;

    open spec fn view(&self) -> EntryModel {
        match *self {
            MenuEntry::Services(title) => EntryModel::Services(title@),
            MenuEntry::Separator => EntryModel::Separator,
            MenuEntry::Command(title, command) => EntryModel::Command(title@, command),
            MenuEntry::SystemCommand(title, command) => EntryModel::SystemCommand(title@, command),
        }
    }
}

impl View for AppMenu {
    type V = (Seq<char>, Seq<EntryModel>);

    open spec fn view(&self) -> (Seq<char>, Seq<EntryModel>) {
        (self.title@, Seq::new(self.entries@.len(), |i: int| self.entries@[i]@))
    }
}

pub open spec fn shortcut_table() -> Seq<(Seq<char>, AppCommand)> {
    seq![
        ("cmd-n"@, AppCommand::OpenLauncher),
        ("cmd-q"@, AppCommand::Quit),
        ("cmd-h"@, AppCommand::HideApp),
        ("cmd-w"@, AppCommand::CloseSession),
        ("cmd-shift-t"@, AppCommand::ReopenSession),
    ]
}

pub open spec fn menu_table() -> Seq<(Seq<char>, Seq<EntryModel>)> {
    seq![
        (
            "diri"@,
            seq![
                EntryModel::Services("Services"@),
                EntryModel::Separator,
                EntryModel::Command("Hide diri"@, AppCommand::HideApp),
                EntryModel::Separator,
                EntryModel::Command("Quit diri"@, AppCommand::Quit),
            ],
        ),
        ("File"@, seq![EntryModel::Command("New Session"@, AppCommand::OpenLauncher)]),
        (
            "Edit"@,
            seq![
                EntryModel::SystemCommand("Copy"@, AppCommand::CopySelection),
                EntryModel::SystemCommand("Paste"@, AppCommand::Paste),
            ],
        ),
        (
            "Window"@,
            seq![
                EntryModel::Command("Close Session"@, AppCommand::CloseSession),
                EntryModel::Command("Reopen Closed Session"@, AppCommand::ReopenSession),
                EntryModel::Command("Close Window"@, AppCommand::CloseWindow),
            ],
        ),
    ]
}

/// What the app does for `command`, if anything.
pub open spec fn effect_in_app(command: AppCommand) -> Option<AppEffect> {
    match command {
        AppCommand::Quit => Some(AppEffect::Quit),
        AppCommand::HideApp => Some(AppEffect::Hide),
        AppCommand::CloseWindow => Some(AppEffect::CloseActiveWindow),
        AppCommand::CloseSession => Some(AppEffect::CloseActiveWindow),
        _ => None,
    }
}

/// What the app does for `command`. Closing a session comes here only when there
/// was none to close, and then closes the window.
pub fn effect_of(command: AppCommand) -> (effect: Option<AppEffect>)
    ensures
        effect == effect_in_app(command),
        effect == (match command {
            AppCommand::Quit => Some(AppEffect::Quit),
            AppCommand::HideApp => Some(AppEffect::Hide),
            AppCommand::CloseWindow | AppCommand::CloseSession => Some(
                AppEffect::CloseActiveWindow,
            ),
            _ => None,
        }),
{
    match command {
        AppCommand::Quit => Some(AppEffect::Quit),
        AppCommand::HideApp => Some(AppEffect::Hide),
        AppCommand::CloseWindow => Some(AppEffect::CloseActiveWindow),
        AppCommand::CloseSession => Some(AppEffect::CloseActiveWindow),
        _ => None,
    }
}

/// The shortcuts that work in every view.
pub fn shortcuts() -> (list: Vec<Shortcut>)
    ensures
        list.len() == shortcut_table().len(),
        forall|i: int|
            0 <= i < list.len() ==> ((#[trigger] list@[i]).keys@, list@[i].command)
                == shortcut_table()[i],
{
    vec![
        Shortcut { keys: "cmd-n", command: AppCommand::OpenLauncher },
        Shortcut { keys: "cmd-q", command: AppCommand::Quit },
        Shortcut { keys: "cmd-h", command: AppCommand::HideApp },
        Shortcut { keys: "cmd-w", command: AppCommand::CloseSession },
        Shortcut { keys: "cmd-shift-t", command: AppCommand::ReopenSession },
    ]
}

/// The application menus, from left to right.
pub fn menus() -> (list: Vec<AppMenu>)
    ensures
        list.len() == menu_table().len(),
        forall|i: int| 0 <= i < list.len() ==> (#[trigger] list@[i])@ == menu_table()[i],
{
    let app = vec![
        MenuEntry::Services("Services"),
        MenuEntry::Separator,
        MenuEntry::Command("Hide diri", AppCommand::HideApp),
        MenuEntry::Separator,
        MenuEntry::Command("Quit diri", AppCommand::Quit),
    ];
    let file = vec![MenuEntry::Command("New Session", AppCommand::OpenLauncher)];
    let edit = vec![
        MenuEntry::SystemCommand("Copy", AppCommand::CopySelection),
        MenuEntry::SystemCommand("Paste", AppCommand::Paste),
    ];
    let window = vec![
        MenuEntry::Command("Close Session", AppCommand::CloseSession),
        MenuEntry::Command("Reopen Closed Session", AppCommand::ReopenSession),
        MenuEntry::Command("Close Window", AppCommand::CloseWindow),
    ];
    let list = vec![
        AppMenu { title: "diri", entries: app },
        AppMenu { title: "File", entries: file },
        AppMenu { title: "Edit", entries: edit },
        AppMenu { title: "Window", entries: window },
    ];
    proof {
        assert(list@[0]@.1 =~= menu_table()[0].1);
        assert(list@[1]@.1 =~= menu_table()[1].1);
        assert(list@[2]@.1 =~= menu_table()[2].1);
        assert(list@[3]@.1 =~= menu_table()[3].1);
    }
    list
}

/// A session that is not there closes as the window does; the app quits and hides when
/// asked to, and what only a view can do it leaves alone.
pub proof fn law_the_app_does_what_no_view_has_claimed(command: AppCommand)
    ensures
        effect_in_app(AppCommand::CloseSession) == effect_in_app(AppCommand::CloseWindow),
        effect_in_app(command) == Some(AppEffect::CloseActiveWindow) <==> command
            == AppCommand::CloseWindow || command == AppCommand::CloseSession,
        effect_in_app(command) == Some(AppEffect::Quit) <==> command == AppCommand::Quit,
        effect_in_app(command) == Some(AppEffect::Hide) <==> command == AppCommand::HideApp,
{
}

/// `entry` asks for `command`.
pub open spec fn asks_for(entry: EntryModel, command: AppCommand) -> bool {
    ||| entry matches EntryModel::Command(_, asked) && asked == command
    ||| entry matches EntryModel::SystemCommand(_, asked) && asked == command
}

/// Every command has one entry in the menus, in the menu that it belongs to, and no
/// other.
pub proof fn law_every_command_has_one_entry(command: AppCommand, menu: int, entry: int)
    requires
        0 <= menu < menu_table().len(),
        0 <= entry < menu_table()[menu].1.len(),
    ensures
        menu_table().len() == 4,
        asks_for(menu_table()[menu].1[entry], command) <==> (menu, entry) == (match command {
            AppCommand::HideApp => (0int, 2int),
            AppCommand::Quit => (0, 4),
            AppCommand::OpenLauncher => (1, 0),
            AppCommand::CopySelection => (2, 0),
            AppCommand::Paste => (2, 1),
            AppCommand::CloseSession => (3, 0),
            AppCommand::ReopenSession => (3, 1),
            AppCommand::CloseWindow => (3, 2),
        }),
        menu_table()[0].1.len() == 5,
        menu_table()[1].1.len() == 1,
        menu_table()[2].1.len() == 2,
        menu_table()[3].1.len() == 3,
{
}

/// An entry is titled by what it asks for. Copying and pasting stand for the system's
/// own commands and no others do, and two separators part the services from the rest
/// of the first menu.
pub proof fn law_entries_are_titled_by_their_commands(menu: int, entry: int)
    requires
        0 <= menu < menu_table().len(),
        0 <= entry < menu_table()[menu].1.len(),
    ensures
        menu_table()[0].0 == "diri"@,
        menu_table()[1].0 == "File"@,
        menu_table()[2].0 == "Edit"@,
        menu_table()[3].0 == "Window"@,
        match menu_table()[menu].1[entry] {
            EntryModel::Services(title) => title == "Services"@ && menu == 0 && entry == 0,
            EntryModel::Separator => menu == 0 && (entry == 1 || entry == 3),
            EntryModel::SystemCommand(title, command) => match command {
                AppCommand::CopySelection => title == "Copy"@,
                AppCommand::Paste => title == "Paste"@,
                _ => false,
            },
            EntryModel::Command(title, command) => match command {
                AppCommand::HideApp => title == "Hide diri"@,
                AppCommand::Quit => title == "Quit diri"@,
                AppCommand::OpenLauncher => title == "New Session"@,
                AppCommand::CloseSession => title == "Close Session"@,
                AppCommand::ReopenSession => title == "Reopen Closed Session"@,
                AppCommand::CloseWindow => title == "Close Window"@,
                _ => false,
            },
        },
{
}

/// Every shortcut stands for a command of the menus, no two for the same one, and
/// closing a window has none: its key closes the session first.
pub proof fn law_shortcuts_stand_for_menu_commands(left: int, right: int)
    requires
        0 <= left < shortcut_table().len(),
        0 <= right < shortcut_table().len(),
    ensures
        shortcut_table()[left].1 == shortcut_table()[right].1 ==> left == right,
        match shortcut_table()[left].1 {
            AppCommand::OpenLauncher => shortcut_table()[left].0 == "cmd-n"@,
            AppCommand::Quit => shortcut_table()[left].0 == "cmd-q"@,
            AppCommand::HideApp => shortcut_table()[left].0 == "cmd-h"@,
            AppCommand::CloseSession => shortcut_table()[left].0 == "cmd-w"@,
            AppCommand::ReopenSession => shortcut_table()[left].0 == "cmd-shift-t"@,
            _ => false,
        },
        shortcut_table().len() == 5,
{
}

} // verus!
