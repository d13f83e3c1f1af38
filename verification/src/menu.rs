//! The window's context menu and what its items do.
use vstd::prelude::*;

use crate::status::{orientation_from_name, Orientation};
use crate::text::{chars_of, same_chars};

verus! {

/// One line of the context menu.
#[derive(Clone, Copy, Debug)]
pub enum MenuEntry {
    Item { id: &'static str, label: &'static str },
    Separator,
}

/// An entry as its id and label; `None` for a separator.
pub open spec fn entry_view(e: MenuEntry) -> Option<(Seq<char>, Seq<char>)> {
    match e {
        MenuEntry::Item { id, label } => Some((id@, label@)),
        MenuEntry::Separator => None,
    }
}

/// The context menu, top to bottom.
pub open spec fn context_menu_spec() -> Seq<Option<(Seq<char>, Seq<char>)>> {
    seq![
        Some(("horizontal"@, "横向"@)),
        Some(("vertical"@, "竖向"@)),
        None,
        Some(("auto_start"@, "开机自启"@)),
        None,
        Some(("quit"@, "退出"@)),
    ]
}

/// The entries of the context menu.
pub fn context_menu() -> (v: Vec<MenuEntry>)
    ensures
        v@.len() == context_menu_spec().len(),
        forall|i: int| 0 <= i < v@.len() ==> entry_view(#[trigger] v@[i]) == context_menu_spec()[i],
{
    let mut v: Vec<MenuEntry> = Vec::new();
    v.push(MenuEntry::Item { id: "horizontal", label: "横向" });
    v.push(MenuEntry::Item { id: "vertical", label: "竖向" });
    v.push(MenuEntry::Separator);
    v.push(MenuEntry::Item { id: "auto_start", label: "开机自启" });
    v.push(MenuEntry::Separator);
    v.push(MenuEntry::Item { id: "quit", label: "退出" });
    v
}

/// What choosing a menu item does.
#[derive(Clone, Copy, Debug, PartialEq, Eq, Structural)]
pub enum MenuAction {
    Quit,
    SetOrientation(Orientation),
    /// Turn start-up with the system on when it is off, and off when on.
    ToggleAutoStart,
    Ignore,
}

pub open spec fn menu_action_of(id: Seq<char>) -> MenuAction {
    if id == "quit"@ {
        MenuAction::Quit
    } else if id == "horizontal"@ {
        MenuAction::SetOrientation(Orientation::Horizontal)
    } else if id == "vertical"@ {
        MenuAction::SetOrientation(Orientation::Vertical)
    } else if id == "auto_start"@ {
        MenuAction::ToggleAutoStart
    } else {
        MenuAction::Ignore
    }
}

/// The action of the menu item with this id.
pub fn menu_action(id: &str) -> (a: MenuAction)
    ensures
        a == menu_action_of(id@),
{
    let v = chars_of(id);
    if same_chars(&v, &chars_of("quit")) {
        MenuAction::Quit
    } else if same_chars(&v, &chars_of("horizontal")) {
        MenuAction::SetOrientation(Orientation::Horizontal)
    } else if same_chars(&v, &chars_of("vertical")) {
        MenuAction::SetOrientation(Orientation::Vertical)
    } else if same_chars(&v, &chars_of("auto_start")) {
        MenuAction::ToggleAutoStart
    } else {
        MenuAction::Ignore
    }
}

/// Every item of the context menu does something, and the orientation
/// items set the orientation that their id names.
pub proof fn lemma_menu_items_handled()
    ensures
        forall|i: int|
            0 <= i < context_menu_spec().len() ==> match #[trigger] context_menu_spec()[i] {
                Some((id, _)) => menu_action_of(id) != MenuAction::Ignore && (menu_action_of(
                    id,
                ) matches MenuAction::SetOrientation(o) ==> orientation_from_name(id) == Some(o)),
                None => true,
            },
{
    reveal_strlit("quit");
    reveal_strlit("horizontal");
    reveal_strlit("vertical");
    reveal_strlit("auto_start");
    let m = context_menu_spec();
    assert(m[0] == Some(("horizontal"@, "横向"@)));
    assert(m[1] == Some(("vertical"@, "竖向"@)));
    assert(m[2] is None);
    assert(m[3] == Some(("auto_start"@, "开机自启"@)));
    assert(m[4] is None);
    assert(m[5] == Some(("quit"@, "退出"@)));
    assert("horizontal"@.len() != "quit"@.len());
    assert("vertical"@.len() != "quit"@.len());
    assert("vertical"@.len() != "horizontal"@.len());
    assert("auto_start"@.len() != "quit"@.len());
    assert("auto_start"@[0] != "horizontal"@[0]);
    assert("auto_start"@.len() != "vertical"@.len());
}

} // verus!
