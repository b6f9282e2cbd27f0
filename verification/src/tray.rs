//! The tray controller: its menu, and what each tray event leads to.

use vstd::prelude::*;
use crate::native_widget::{native_widget_command, widget_command, WidgetCommand, WidgetCommandView};
use crate::text::same_text;

verus! {

/// An entry of the tray menu.
#[derive(Clone, Copy, Debug, PartialEq, Eq, Structural)]
pub enum MenuEntry {
    ShowWidget,
    Quit,
}

impl MenuEntry {
    /// The identifier under which the entry is registered and reported.
    pub open spec fn id_text(self) -> Seq<char> {
        match self {
            MenuEntry::ShowWidget => "show_widget"@,
            MenuEntry::Quit => "quit"@,
        }
    }

    /// The title that the menu shows.
    pub open spec fn title_text(self) -> Seq<char> {
        match self {
            MenuEntry::ShowWidget => "Show Focus Timer"@,
            MenuEntry::Quit => "Quit"@,
        }
    }

    /// The entry registered under `id`, if there is one.
    pub open spec fn with_id(id: Seq<char>) -> Option<MenuEntry> {
        if id == MenuEntry::ShowWidget.id_text() {
            Some(MenuEntry::ShowWidget)
        } else if id == MenuEntry::Quit.id_text() {
            Some(MenuEntry::Quit)
        } else {
            None
        }
    }

    /// The entry's identifier.
    pub fn id(&self) -> (id: &'static str)
        ensures
            id@ == self.id_text(),
    {
        match self {
            MenuEntry::ShowWidget => "show_widget",
            MenuEntry::Quit => "quit",
        }
    }

    /// The entry's title.
    pub fn title(&self) -> (title: &'static str)
        ensures
            title@ == self.title_text(),
    {
        match self {
            MenuEntry::ShowWidget => "Show Focus Timer",
            MenuEntry::Quit => "Quit",
        }
    }

    /// Finds the entry registered under `id`.
    pub fn from_id(id: &str) -> (entry: Option<MenuEntry>)
        ensures
            entry == MenuEntry::with_id(id@),
    {
        if same_text(id, MenuEntry::ShowWidget.id()) {
            Some(MenuEntry::ShowWidget)
        } else if same_text(id, MenuEntry::Quit.id()) {
            Some(MenuEntry::Quit)
        } else {
            None
        }
    }
}

/// The two identifiers differ, so each entry is found again under its own.
pub proof fn lemma_entry_found_by_id(entry: MenuEntry)
    ensures
        MenuEntry::with_id(entry.id_text()) == Some(entry),
{
    lemma_ids_differ();
}

/// The identifiers of the two entries are different texts.
proof fn lemma_ids_differ()
    ensures
        MenuEntry::ShowWidget.id_text() != MenuEntry::Quit.id_text(),
{
    reveal_strlit("show_widget");
    reveal_strlit("quit");
    assert("show_widget"@.len() == 11);
}

/// The menu, in the order in which it is shown. It is built once and never
/// changes.
pub fn tray_menu() -> (menu: Vec<MenuEntry>)
    ensures
        menu@ == seq![MenuEntry::ShowWidget, MenuEntry::Quit],
{
    let mut menu: Vec<MenuEntry> = Vec::new();
    menu.push(MenuEntry::ShowWidget);
    menu.push(MenuEntry::Quit);
    menu
}

/// What the operating system reports of the tray.
#[derive(Debug, PartialEq, Eq)]
pub enum TrayEvent {
    /// A click with the left button on the tray icon.
    LeftClick,
    /// The selection of the menu item registered under `id`.
    MenuItemClick { id: String },
    /// Anything else.
    Other,
}

/// A tray event as plain values.
pub enum TrayEventView {
    LeftClick,
    MenuItemClick { id: Seq<char> },
    Other,
}

impl View for TrayEvent {
    type V = TrayEventView;

    open spec fn view(&self) -> TrayEventView {
        match self {
            TrayEvent::LeftClick => TrayEventView::LeftClick,
            TrayEvent::MenuItemClick { id } => TrayEventView::MenuItemClick { id: id@ },
            TrayEvent::Other => TrayEventView::Other,
        }
    }
}

/// What the host does in answer to a tray event.
#[derive(Debug, PartialEq, Eq)]
pub enum TrayAction {
    /// Spawn the widget.
    Launch(WidgetCommand),
    /// End the process at once with this exit code.
    Exit { code: i32 },
    /// Do nothing.
    Ignore,
}

/// A tray action as plain values.
pub enum TrayActionView {
    Launch(WidgetCommandView),
    Exit { code: i32 },
    Ignore,
}

impl View for TrayAction {
    type V = TrayActionView;

    open spec fn view(&self) -> TrayActionView {
        match self {
            TrayAction::Launch(command) => TrayActionView::Launch(command@),
            TrayAction::Exit { code } => TrayActionView::Exit { code: *code },
            TrayAction::Ignore => TrayActionView::Ignore,
        }
    }
}

/// What a selected menu entry leads to.
pub open spec fn entry_action(entry: MenuEntry) -> TrayActionView {
    match entry {
        MenuEntry::ShowWidget => TrayActionView::Launch(widget_command()),
        MenuEntry::Quit => TrayActionView::Exit { code: 0 },
    }
}

/// What a tray event leads to: a left click launches the widget, a menu
/// item does what its entry says, and everything else is ignored.
pub open spec fn tray_action(event: TrayEventView) -> TrayActionView {
    match event {
        TrayEventView::LeftClick => TrayActionView::Launch(widget_command()),
        TrayEventView::MenuItemClick { id } => match MenuEntry::with_id(id) {
            Some(entry) => entry_action(entry),
            None => TrayActionView::Ignore,
        },
        TrayEventView::Other => TrayActionView::Ignore,
    }
}

/// Decides what to do about a tray event.
pub fn on_system_tray_event(event: &TrayEvent) -> (action: TrayAction)
    ensures
        action@ == tray_action(event@),
{
    match event {
        TrayEvent::LeftClick => TrayAction::Launch(native_widget_command()),
        TrayEvent::MenuItemClick { id } => match MenuEntry::from_id(id.as_str()) {
            Some(MenuEntry::ShowWidget) => TrayAction::Launch(native_widget_command()),
            Some(MenuEntry::Quit) => TrayAction::Exit { code: 0 },
            None => TrayAction::Ignore,
        },
        TrayEvent::Other => TrayAction::Ignore,
    }
}

/// The process ends on one event only, the selection of the Quit entry, and
/// then with exit code 0.
pub proof fn lemma_exit_only_on_quit(event: TrayEventView)
    ensures
        tray_action(event) is Exit <==> event == (TrayEventView::MenuItemClick {
            id: MenuEntry::Quit.id_text(),
        }),
        tray_action(event) is Exit ==> tray_action(event) == (TrayActionView::Exit { code: 0 }),
{
    lemma_ids_differ();
}

/// Every entry of the menu is acted on when it is selected.
pub proof fn lemma_menu_entries_act(entry: MenuEntry)
    ensures
        tray_action(TrayEventView::MenuItemClick { id: entry.id_text() }) == entry_action(entry),
        entry_action(entry) !is Ignore,
{
    lemma_entry_found_by_id(entry);
}

} // verus!
