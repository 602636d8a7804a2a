use crate::text::chars_of;
use crate::text::string_from_chars;
use vstd::prelude::*;

verus! {

/// The commands of the menu bar.
#[derive(Debug, Clone)]
pub enum MenuAction {
    New,
    Open,
    Save,
    SaveAs,
    Close,
    Quit,
    Undo,
    Redo,
    Cut,
    Copy,
    Paste,
    Delete,
    SelectAll,
    Find,
    FindNext,
    FindPrev,
    Replace,
    ToggleLineNumbers,
    ToggleStatusBar,
    About,
    SetEditorTheme(String),
    SetTheme(String),
}

/// The command named by a menu item id, with the theme names as chars.
pub enum MenuActionView {
    New,
    Open,
    Save,
    SaveAs,
    Close,
    Quit,
    Undo,
    Redo,
    Cut,
    Copy,
    Paste,
    Delete,
    SelectAll,
    Find,
    FindNext,
    FindPrev,
    Replace,
    ToggleLineNumbers,
    ToggleStatusBar,
    About,
    SetEditorTheme(Seq<char>),
    SetTheme(Seq<char>),
}

impl View for MenuAction {
    type V = MenuActionView;

    open spec fn view(&self) -> MenuActionView {
        match self {
            MenuAction::New => MenuActionView::New,
            MenuAction::Open => MenuActionView::Open,
            MenuAction::Save => MenuActionView::Save,
            MenuAction::SaveAs => MenuActionView::SaveAs,
            MenuAction::Close => MenuActionView::Close,
            MenuAction::Quit => MenuActionView::Quit,
            MenuAction::Undo => MenuActionView::Undo,
            MenuAction::Redo => MenuActionView::Redo,
            MenuAction::Cut => MenuActionView::Cut,
            MenuAction::Copy => MenuActionView::Copy,
            MenuAction::Paste => MenuActionView::Paste,
            MenuAction::Delete => MenuActionView::Delete,
            MenuAction::SelectAll => MenuActionView::SelectAll,
            MenuAction::Find => MenuActionView::Find,
            MenuAction::FindNext => MenuActionView::FindNext,
            MenuAction::FindPrev => MenuActionView::FindPrev,
            MenuAction::Replace => MenuActionView::Replace,
            MenuAction::ToggleLineNumbers => MenuActionView::ToggleLineNumbers,
            MenuAction::ToggleStatusBar => MenuActionView::ToggleStatusBar,
            MenuAction::About => MenuActionView::About,
            MenuAction::SetEditorTheme(t) => MenuActionView::SetEditorTheme(t@),
            MenuAction::SetTheme(t) => MenuActionView::SetTheme(t@),
        }
    }
}

/// `s` with every leading copy of `p` taken off (`p` not empty).
pub open spec fn trim_prefix(s: Seq<char>, p: Seq<char>) -> Seq<char>
    decreases s.len(),
{
    if p.len() > 0 && p.len() <= s.len() && s.take(p.len() as int) == p {
        trim_prefix(s.skip(p.len() as int), p)
    } else {
        s
    }
}

/// The command for a menu item id: the fixed ids, then `theme_ui_<name>`
/// for an editor theme and `theme_<name>` for a syntax theme.
pub open spec fn action_for_id(id: Seq<char>) -> Option<MenuActionView> {
    if id == "new"@ {
        Some(MenuActionView::New)
    } else if id == "open"@ {
        Some(MenuActionView::Open)
    } else if id == "save"@ {
        Some(MenuActionView::Save)
    } else if id == "save_as"@ {
        Some(MenuActionView::SaveAs)
    } else if id == "close"@ {
        Some(MenuActionView::Close)
    } else if id == "quit"@ {
        Some(MenuActionView::Quit)
    } else if id == "undo"@ {
        Some(MenuActionView::Undo)
    } else if id == "redo"@ {
        Some(MenuActionView::Redo)
    } else if id == "cut"@ {
        Some(MenuActionView::Cut)
    } else if id == "copy"@ {
        Some(MenuActionView::Copy)
    } else if id == "paste"@ {
        Some(MenuActionView::Paste)
    } else if id == "delete"@ {
        Some(MenuActionView::Delete)
    } else if id == "select_all"@ {
        Some(MenuActionView::SelectAll)
    } else if id == "find"@ {
        Some(MenuActionView::Find)
    } else if id == "find_next"@ {
        Some(MenuActionView::FindNext)
    } else if id == "find_prev"@ {
        Some(MenuActionView::FindPrev)
    } else if id == "replace"@ {
        Some(MenuActionView::Replace)
    } else if id == "toggle_line_numbers"@ {
        Some(MenuActionView::ToggleLineNumbers)
    } else if id == "toggle_status_bar"@ {
        Some(MenuActionView::ToggleStatusBar)
    } else if id == "about"@ {
        Some(MenuActionView::About)
    } else if "theme_ui_"@.len() <= id.len() && id.take("theme_ui_"@.len() as int)
        == "theme_ui_"@ {
        Some(MenuActionView::SetEditorTheme(trim_prefix(id, "theme_ui_"@)))
    } else if "theme_"@.len() <= id.len() && id.take("theme_"@.len() as int) == "theme_"@ {
        Some(MenuActionView::SetTheme(trim_prefix(id, "theme_"@)))
    } else {
        None
    }
}

/// Whether the chars of `a` are those of `b`.
fn same_chars(a: &Vec<char>, b: &str) -> (r: bool)
    ensures
        r == (a@ == b@),
{
    let bc = chars_of(b);
    if a.len() != bc.len() {
        return false;
    }
    let mut i: usize = 0;
    while i < a.len()
        invariant
            i <= a@.len(),
            a@.len() == bc@.len(),
            bc@ == b@,
            forall|k: int| 0 <= k < i ==> a@[k] == bc@[k],
        decreases a@.len() - i,
    {
        if a[i] != bc[i] {
            return false;
        }
        i = i + 1;
    }
    assert(a@ =~= bc@);
    true
}

/// Whether `a` starts with the chars of `p`.
fn starts_with_chars(a: &Vec<char>, from: usize, p: &Vec<char>) -> (r: bool)
    requires
        from <= a@.len(),
    ensures
        r == (p@.len() <= a@.len() - from && a@.skip(from as int).take(p@.len() as int) == p@),
{
    let n = a.len();
    if p.len() > n - from {
        return false;
    }
    let mut i: usize = 0;
    while i < p.len()
        invariant
            n == a@.len(),
            i <= p@.len(),
            p@.len() <= a@.len() - from,
            forall|k: int| 0 <= k < i ==> a@[from + k] == p@[k],
        decreases p@.len() - i,
    {
        if a[from + i] != p[i] {
            assert(a@.skip(from as int).take(p@.len() as int)[i as int] != p@[i as int]);
            return false;
        }
        i = i + 1;
    }
    assert(a@.skip(from as int).take(p@.len() as int) =~= p@);
    true
}

/// The chars of `a` from `from` on, with every leading copy of `p` taken off.
fn trimmed_from(a: &Vec<char>, p: &Vec<char>) -> (r: String)
    requires
        p@.len() > 0,
    ensures
        r@ == trim_prefix(a@, p@),
{
    let n = a.len();
    let mut from: usize = 0;
    proof {
        assert(a@.skip(0) =~= a@);
    }
    while starts_with_chars(a, from, p)
        invariant
            n == a@.len(),
            from <= a@.len(),
            p@.len() > 0,
            trim_prefix(a@.skip(from as int), p@) == trim_prefix(a@, p@),
        decreases a@.len() - from,
    {
        proof {
            assert(a@.skip(from as int).skip(p@.len() as int) =~= a@.skip(from + p@.len()));
        }
        from = from + p.len();
    }
    let mut rest: Vec<char> = Vec::new();
    let mut i = from;
    while i < a.len()
        invariant
            from <= i <= a@.len(),
            rest@ == a@.subrange(from as int, i as int),
        decreases a@.len() - i,
    {
        rest.push(a[i]);
        assert(a@.subrange(from as int, i + 1) =~= a@.subrange(from as int, i as int).push(a@[i as int]));
        i = i + 1;
    }
    assert(rest@ =~= a@.skip(from as int));
    string_from_chars(rest.as_slice())
}

/// The command for a menu item id, if the id names one.
pub fn menu_action_for_id(id: &str) -> (r: Option<MenuAction>)
    ensures
        match r {
            Some(a) => action_for_id(id@) == Some(a@),
            None => action_for_id(id@) is None,
        },
{
    let cs = chars_of(id);
    if same_chars(&cs, "new") {
        Some(MenuAction::New)
    } else if same_chars(&cs, "open") {
        Some(MenuAction::Open)
    } else if same_chars(&cs, "save") {
        Some(MenuAction::Save)
    } else if same_chars(&cs, "save_as") {
        Some(MenuAction::SaveAs)
    } else if same_chars(&cs, "close") {
        Some(MenuAction::Close)
    } else if same_chars(&cs, "quit") {
        Some(MenuAction::Quit)
    } else if same_chars(&cs, "undo") {
        Some(MenuAction::Undo)
    } else if same_chars(&cs, "redo") {
        Some(MenuAction::Redo)
    } else if same_chars(&cs, "cut") {
        Some(MenuAction::Cut)
    } else if same_chars(&cs, "copy") {
        Some(MenuAction::Copy)
    } else if same_chars(&cs, "paste") {
        Some(MenuAction::Paste)
    } else if same_chars(&cs, "delete") {
        Some(MenuAction::Delete)
    } else if same_chars(&cs, "select_all") {
        Some(MenuAction::SelectAll)
    } else if same_chars(&cs, "find") {
        Some(MenuAction::Find)
    } else if same_chars(&cs, "find_next") {
        Some(MenuAction::FindNext)
    } else if same_chars(&cs, "find_prev") {
        Some(MenuAction::FindPrev)
    } else if same_chars(&cs, "replace") {
        Some(MenuAction::Replace)
    } else if same_chars(&cs, "toggle_line_numbers") {
        Some(MenuAction::ToggleLineNumbers)
    } else if same_chars(&cs, "toggle_status_bar") {
        Some(MenuAction::ToggleStatusBar)
    } else if same_chars(&cs, "about") {
        Some(MenuAction::About)
    } else {
        let ui = chars_of("theme_ui_");
        let th = chars_of("theme_");
        proof {
            reveal_strlit("theme_ui_");
            reveal_strlit("theme_");
            assert(cs@.skip(0) =~= cs@);
        }
        if starts_with_chars(&cs, 0, &ui) {
            Some(MenuAction::SetEditorTheme(trimmed_from(&cs, &ui)))
        } else if starts_with_chars(&cs, 0, &th) {
            Some(MenuAction::SetTheme(trimmed_from(&cs, &th)))
        } else {
            None
        }
    }
}

/// The command for the label of a menu item of the native menu bar.
pub open spec fn action_for_label(label: Seq<char>) -> Option<MenuActionView> {
    if label == "New"@ {
        Some(MenuActionView::New)
    } else if label == "Open"@ {
        Some(MenuActionView::Open)
    } else if label == "Save"@ {
        Some(MenuActionView::Save)
    } else if label == "Save As"@ {
        Some(MenuActionView::SaveAs)
    } else if label == "Close"@ {
        Some(MenuActionView::Close)
    } else if label == "Quit textedit"@ {
        Some(MenuActionView::Quit)
    } else if label == "Undo"@ {
        Some(MenuActionView::Undo)
    } else if label == "Redo"@ {
        Some(MenuActionView::Redo)
    } else if label == "Cut"@ {
        Some(MenuActionView::Cut)
    } else if label == "Copy"@ {
        Some(MenuActionView::Copy)
    } else if label == "Paste"@ {
        Some(MenuActionView::Paste)
    } else if label == "Delete"@ {
        Some(MenuActionView::Delete)
    } else if label == "Select All"@ {
        Some(MenuActionView::SelectAll)
    } else if label == "Show Line Numbers"@ {
        Some(MenuActionView::ToggleLineNumbers)
    } else if label == "Show Status Bar"@ {
        Some(MenuActionView::ToggleStatusBar)
    } else if label == "About textedit"@ {
        Some(MenuActionView::About)
    } else {
        None
    }
}

/// The command for the label of a menu item of the native menu bar, if the
/// label names one.
pub fn menu_action_for_label(label: &str) -> (r: Option<MenuAction>)
    ensures
        match r {
            Some(a) => action_for_label(label@) == Some(a@),
            None => action_for_label(label@) is None,
        },
{
    let cs = chars_of(label);
    if same_chars(&cs, "New") {
        Some(MenuAction::New)
    } else if same_chars(&cs, "Open") {
        Some(MenuAction::Open)
    } else if same_chars(&cs, "Save") {
        Some(MenuAction::Save)
    } else if same_chars(&cs, "Save As") {
        Some(MenuAction::SaveAs)
    } else if same_chars(&cs, "Close") {
        Some(MenuAction::Close)
    } else if same_chars(&cs, "Quit textedit") {
        Some(MenuAction::Quit)
    } else if same_chars(&cs, "Undo") {
        Some(MenuAction::Undo)
    } else if same_chars(&cs, "Redo") {
        Some(MenuAction::Redo)
    } else if same_chars(&cs, "Cut") {
        Some(MenuAction::Cut)
    } else if same_chars(&cs, "Copy") {
        Some(MenuAction::Copy)
    } else if same_chars(&cs, "Paste") {
        Some(MenuAction::Paste)
    } else if same_chars(&cs, "Delete") {
        Some(MenuAction::Delete)
    } else if same_chars(&cs, "Select All") {
        Some(MenuAction::SelectAll)
    } else if same_chars(&cs, "Show Line Numbers") {
        Some(MenuAction::ToggleLineNumbers)
    } else if same_chars(&cs, "Show Status Bar") {
        Some(MenuAction::ToggleStatusBar)
    } else if same_chars(&cs, "About textedit") {
        Some(MenuAction::About)
    } else {
        None
    }
}

} // verus!
