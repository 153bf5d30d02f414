//! The tray menu: its entries, with the live counts in two labels, and what
//! choosing an entry asks the application to do.

use vstd::prelude::*;
use crate::number::{decimal, decimal_string};
use crate::text::same_text;

verus! {

/// One entry of the tray menu.
#[derive(Debug)]
pub enum TrayMenuEntry {
    Item { id: String, label: String, enabled: bool },
    Separator,
}

/// The mathematical content of a `TrayMenuEntry`.
pub ghost enum EntryModel {
    Item(Seq<char>, Seq<char>, bool),
    Separator,
}

impl View for TrayMenuEntry {
    type V = EntryModel;

    open spec fn view(&self) -> EntryModel {
        match self {
            TrayMenuEntry::Item { id, label, enabled } => EntryModel::Item(id@, label@, *enabled),
            TrayMenuEntry::Separator => EntryModel::Separator,
        }
    }
}

pub open spec fn entries_view(v: Seq<TrayMenuEntry>) -> Seq<EntryModel> {
    v.map_values(|e: TrayMenuEntry| e@)
}

/// The menu, in order, for the given counts of running executions and
/// pending approvals.
pub open spec fn tray_menu_model(active: u32, pending: u32) -> Seq<EntryModel> {
    seq![
        EntryModel::Item("show_hide"@, "Show DitLoop"@, true),
        EntryModel::Separator,
        EntryModel::Item("active_execs"@, "Active Executions: "@ + decimal(active as nat), false),
        EntryModel::Item("pending_approvals"@, "Pending Approvals: "@ + decimal(pending as nat), false),
        EntryModel::Separator,
        EntryModel::Item("new_execution"@, "New Execution..."@, true),
        EntryModel::Item("open_workspace"@, "Open Workspace..."@, true),
        EntryModel::Separator,
        EntryModel::Item("preferences"@, "Preferences..."@, true),
        EntryModel::Item("quit"@, "Quit DitLoop"@, true),
    ]
}

fn item(id: &str, label: String, enabled: bool) -> (r: TrayMenuEntry)
    ensures
        r@ == EntryModel::Item(id@, label@, enabled),
{
    TrayMenuEntry::Item { id: String::from_str(id), label, enabled }
}

fn count_label(prefix: &str, n: u32) -> (r: String)
    ensures
        r@ == prefix@ + decimal(n as nat),
{
    let mut r = String::from_str(prefix);
    r.append(decimal_string(n as u64).as_str());
    r
}

/// Builds the tray menu showing the given counts.
pub fn tray_menu(active_executions: u32, pending_approvals: u32) -> (r: Vec<TrayMenuEntry>)
    ensures
        entries_view(r@) == tray_menu_model(active_executions, pending_approvals),
{
    let mut r: Vec<TrayMenuEntry> = Vec::new();
    r.push(item("show_hide", String::from_str("Show DitLoop"), true));
    r.push(TrayMenuEntry::Separator);
    r.push(item("active_execs", count_label("Active Executions: ", active_executions), false));
    r.push(item("pending_approvals", count_label("Pending Approvals: ", pending_approvals), false));
    r.push(TrayMenuEntry::Separator);
    r.push(item("new_execution", String::from_str("New Execution..."), true));
    r.push(item("open_workspace", String::from_str("Open Workspace..."), true));
    r.push(TrayMenuEntry::Separator);
    r.push(item("preferences", String::from_str("Preferences..."), true));
    r.push(item("quit", String::from_str("Quit DitLoop"), true));
    assert(entries_view(r@) =~= tray_menu_model(active_executions, pending_approvals));
    r
}

/// What choosing a tray entry asks of the application.
#[derive(Debug)]
pub enum TrayAction {
    /// Hide the main window if it is visible, else show and focus it.
    ToggleMainWindow,
    /// Show and focus the main window and send it to this route.
    Navigate(String),
    /// Leave the application.
    Quit,
    /// Nothing to do.
    Ignore,
}

/// The action for the menu entry with identifier `id`.
pub fn tray_action(id: &str) -> (r: TrayAction)
    ensures
        id@ == "show_hide"@ ==> r is ToggleMainWindow,
        id@ == "new_execution"@ ==> r is Navigate && r->Navigate_0@ == "/executions"@,
        id@ == "open_workspace"@ ==> r is Navigate && r->Navigate_0@ == "/"@,
        id@ == "preferences"@ ==> r is Navigate && r->Navigate_0@ == "/settings"@,
        id@ == "quit"@ ==> r is Quit,
        (id@ != "show_hide"@ && id@ != "new_execution"@ && id@ != "open_workspace"@ && id@
            != "preferences"@ && id@ != "quit"@) ==> r is Ignore,
{
    proof {
        reveal_strlit("show_hide");
        reveal_strlit("new_execution");
        reveal_strlit("open_workspace");
        reveal_strlit("preferences");
        reveal_strlit("quit");
    }
    assert("show_hide"@.len() == 9 && "new_execution"@.len() == 13 && "open_workspace"@.len() == 14
        && "preferences"@.len() == 11 && "quit"@.len() == 4);
    if same_text(id, "show_hide") {
        TrayAction::ToggleMainWindow
    } else if same_text(id, "new_execution") {
        let r = TrayAction::Navigate(String::from_str("/executions"));
        r
    } else if same_text(id, "open_workspace") {
        let r = TrayAction::Navigate(String::from_str("/"));
        r
    } else if same_text(id, "preferences") {
        let r = TrayAction::Navigate(String::from_str("/settings"));
        r
    } else if same_text(id, "quit") {
        TrayAction::Quit
    } else {
        TrayAction::Ignore
    }
}

} // verus!
