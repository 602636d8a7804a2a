use crate::text::{push_str, string_pop};
use vstd::prelude::*;

verus! {

#[derive(Clone, Copy, Debug, PartialEq, Eq, Structural)]
pub enum CommandBarMode {
    Find,
    Replace,
}

#[derive(Clone, Copy, Debug, PartialEq, Eq, Structural)]
pub enum ActiveField {
    Find,
    Replace,
}

/// The find (and replace) bar: its two text fields, the one being edited, and
/// the status line shown for it.
pub struct CommandBarState {
    pub mode: CommandBarMode,
    pub active: ActiveField,
    find: String,
    replace: String,
    status_cache: String,
}

/// The status line for a bar in `mode`, editing `active`, with the given
/// field texts.
pub open spec fn status_line(
    mode: CommandBarMode,
    active: ActiveField,
    find: Seq<char>,
    replace: Seq<char>,
) -> Seq<char> {
    match mode {
        CommandBarMode::Find => "Find: "@ + find + "    (Enter=apply, Esc=close)"@,
        CommandBarMode::Replace => "Find: "@ + find + "    Replace: "@ + replace + match active {
            ActiveField::Find => "   [editing find]"@,
            ActiveField::Replace => "   [editing replace]"@,
        } + "    (Enter=apply, Esc=close)"@,
    }
}

impl CommandBarState {
    /// The mode of the bar.
    pub closed spec fn bar_mode(&self) -> CommandBarMode {
        self.mode
    }

    /// The field being edited.
    pub closed spec fn editing(&self) -> ActiveField {
        self.active
    }

    /// The text of the find field.
    pub closed spec fn find_text(&self) -> Seq<char> {
        self.find@
    }

    /// The text of the replace field.
    pub closed spec fn replacement(&self) -> Seq<char> {
        self.replace@
    }

    /// The status line as last computed.
    pub closed spec fn status(&self) -> Seq<char> {
        self.status_cache@
    }

    /// The status line agrees with the fields.
    pub open spec fn wf(&self) -> bool {
        self.status() == status_line(self.bar_mode(), self.editing(), self.find_text(), self.replacement())
    }

    /// The mode of the bar.
    pub fn mode(&self) -> (m: CommandBarMode)
        ensures
            m == self.bar_mode(),
    {
        self.mode
    }

    /// The field being edited.
    pub fn active(&self) -> (a: ActiveField)
        ensures
            a == self.editing(),
    {
        self.active
    }

    /// A find bar, its find field holding `initial` (or nothing).
    pub fn new_find(initial: Option<&str>) -> (s: Self)
        ensures
            s.bar_mode() == CommandBarMode::Find,
            s.editing() == ActiveField::Find,
            s.find_text() == match initial {
                Some(t) => t@,
                None => Seq::<char>::empty(),
            },
            s.replacement() == Seq::<char>::empty(),
            s.wf(),
    {
        let mut find = String::new();
        if let Some(t) = initial {
            push_str(&mut find, t);
        }
        let mut s = Self {
            mode: CommandBarMode::Find,
            active: ActiveField::Find,
            find,
            replace: String::new(),
            status_cache: String::new(),
        };
        s.recompute_status();
        s
    }

    /// A replace bar, its find field holding `initial_find` (or nothing).
    pub fn new_replace(initial_find: Option<&str>) -> (s: Self)
        ensures
            s.bar_mode() == CommandBarMode::Replace,
            s.editing() == ActiveField::Find,
            s.find_text() == match initial_find {
                Some(t) => t@,
                None => Seq::<char>::empty(),
            },
            s.replacement() == Seq::<char>::empty(),
            s.wf(),
    {
        let mut find = String::new();
        if let Some(t) = initial_find {
            push_str(&mut find, t);
        }
        let mut s = Self {
            mode: CommandBarMode::Replace,
            active: ActiveField::Find,
            find,
            replace: String::new(),
            status_cache: String::new(),
        };
        s.recompute_status();
        s
    }

    pub fn find_query(&self) -> (r: &str)
        ensures
            r@ == self.find_text(),
    {
        self.find.as_str()
    }

    pub fn replace_text(&self) -> (r: &str)
        ensures
            r@ == self.replacement(),
    {
        self.replace.as_str()
    }

    pub fn status_text(&self) -> (r: &str)
        ensures
            r@ == self.status(),
    {
        self.status_cache.as_str()
    }

    /// Appends `text` to the field being edited (nothing happens for empty
    /// text).
    pub fn push_text(&mut self, text: &str)
        ensures
            final(self).bar_mode() == old(self).bar_mode(),
            final(self).editing() == old(self).editing(),
            text@.len() == 0 ==> *final(self) == *old(self),
            text@.len() > 0 ==> final(self).wf(),
            text@.len() > 0 && old(self).editing() == ActiveField::Find ==> final(self).find_text()
                == old(self).find_text() + text@ && final(self).replacement()
                == old(self).replacement(),
            text@.len() > 0 && old(self).editing() == ActiveField::Replace ==> final(self).replacement()
                == old(self).replacement() + text@ && final(self).find_text()
                == old(self).find_text(),
    {
        if text.is_empty() {
            return;
        }
        match self.active {
            ActiveField::Find => push_str(&mut self.find, text),
            ActiveField::Replace => push_str(&mut self.replace, text),
        }
        self.recompute_status();
    }

    /// Deletes the last char of the field being edited, if any.
    pub fn backspace(&mut self)
        ensures
            final(self).bar_mode() == old(self).bar_mode(),
            final(self).editing() == old(self).editing(),
            final(self).wf(),
            old(self).editing() == ActiveField::Find ==> final(self).find_text() == (
            if old(self).find_text().len() > 0 {
                old(self).find_text().drop_last()
            } else {
                old(self).find_text()
            }) && final(self).replacement() == old(self).replacement(),
            old(self).editing() == ActiveField::Replace ==> final(self).replacement() == (
            if old(self).replacement().len() > 0 {
                old(self).replacement().drop_last()
            } else {
                old(self).replacement()
            }) && final(self).find_text() == old(self).find_text(),
    {
        match self.active {
            ActiveField::Find => {
                string_pop(&mut self.find);
            },
            ActiveField::Replace => {
                string_pop(&mut self.replace);
            },
        }
        self.recompute_status();
    }

    /// In a replace bar, switches between the two fields; a find bar does not
    /// change.
    pub fn toggle_field(&mut self)
        ensures
            old(self).bar_mode() != CommandBarMode::Replace ==> *final(self) == *old(self),
            old(self).bar_mode() == CommandBarMode::Replace ==> {
                &&& final(self).bar_mode() == old(self).bar_mode()
                &&& final(self).editing() == match old(self).editing() {
                    ActiveField::Find => ActiveField::Replace,
                    ActiveField::Replace => ActiveField::Find,
                }
                &&& final(self).find_text() == old(self).find_text()
                &&& final(self).replacement() == old(self).replacement()
                &&& final(self).wf()
            },
    {
        if self.mode != CommandBarMode::Replace {
            return;
        }
        self.active = match self.active {
            ActiveField::Find => ActiveField::Replace,
            ActiveField::Replace => ActiveField::Find,
        };
        self.recompute_status();
    }

    fn recompute_status(&mut self)
        ensures
            final(self).bar_mode() == old(self).bar_mode(),
            final(self).editing() == old(self).editing(),
            final(self).find_text() == old(self).find_text(),
            final(self).replacement() == old(self).replacement(),
            final(self).wf(),
    {
        self.status_cache = String::new();
        match self.mode {
            CommandBarMode::Find => {
                push_str(&mut self.status_cache, "Find: ");
                push_str(&mut self.status_cache, self.find.as_str());
            },
            CommandBarMode::Replace => {
                push_str(&mut self.status_cache, "Find: ");
                push_str(&mut self.status_cache, self.find.as_str());
                push_str(&mut self.status_cache, "    Replace: ");
                push_str(&mut self.status_cache, self.replace.as_str());
            },
        }
        match self.mode {
            CommandBarMode::Find => {},
            CommandBarMode::Replace => {
                match self.active {
                    ActiveField::Find => push_str(&mut self.status_cache, "   [editing find]"),
                    ActiveField::Replace => push_str(
                        &mut self.status_cache,
                        "   [editing replace]",
                    ),
                }
            },
        }
        push_str(&mut self.status_cache, "    (Enter=apply, Esc=close)");
    }
}

} // verus!
