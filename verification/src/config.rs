//! The configuration page: a multiple-choice login-mode field and a
//! free-text editor-path field, saved through storage on Enter.

use vstd::prelude::*;

use crate::keys::Key;
use crate::storage;
use crate::text::{pop_char, push_char, str_eq};
use vstd::pervasive::unreached;

verus! {

/// One form field: a fixed set of options, or free text.
pub enum FieldTy {
    MultipleOption { options: Vec<&'static str>, selected: usize },
    Text { value: String },
}

/// Whether two fields hold the same content: equal options and selection,
/// or the same text.
pub open spec fn same_field_ty(a: FieldTy, b: FieldTy) -> bool {
    match a {
        FieldTy::MultipleOption { options, selected } => b matches FieldTy::MultipleOption {
            options: o2,
            selected: s2,
        } && o2@ == options@ && s2 == selected,
        FieldTy::Text { value } => b matches FieldTy::Text { value: v2 } && v2 == value,
    }
}

impl Clone for FieldTy {
    fn clone(&self) -> (r: Self)
        ensures
            same_field_ty(*self, r),
    {
        match self {
            FieldTy::MultipleOption { options, selected } => {
                let mut o2: Vec<&'static str> = Vec::new();
                let mut i: usize = 0;
                while i < options.len()
                    invariant
                        i <= options@.len(),
                        o2@ == options@.subrange(0, i as int),
                    decreases options@.len() - i,
                {
                    o2.push(options[i]);
                    assert(options@.subrange(0, i as int).push(options@[i as int])
                        =~= options@.subrange(0, i + 1));
                    i = i + 1;
                }
                proof {
                    assert(o2@ =~= options@);
                }
                FieldTy::MultipleOption { options: o2, selected: *selected }
            },
            FieldTy::Text { value } => FieldTy::Text { value: value.clone() },
        }
    }
}

impl FieldTy {
    /// What the field currently holds, as text.
    pub open spec fn spec_value(&self) -> Seq<char> {
        match self {
            FieldTy::MultipleOption { options, selected } => options@[*selected as int]@,
            FieldTy::Text { value } => value@,
        }
    }

    /// The field's counters stay inside its options.
    pub open spec fn wf(&self) -> bool {
        match self {
            FieldTy::MultipleOption { options, selected } => selected < options@.len(),
            FieldTy::Text { .. } => true,
        }
    }

    /// Typing appends to a text field and leaves a choice field alone.
    pub fn input(&mut self, key: char)
        ensures
            match *old(self) {
                FieldTy::Text { value } => *final(self) matches FieldTy::Text { value: v2 } && v2@
                    == value@.push(key),
                FieldTy::MultipleOption { .. } => *final(self) == *old(self),
            },
    {
        if let FieldTy::Text { value } = self {
            push_char(value, key);
        }
    }

    /// Backspace removes the last character of a text field.
    pub fn backspace(&mut self)
        ensures
            match *old(self) {
                FieldTy::Text { value } => *final(self) matches FieldTy::Text { value: v2 } && v2@
                    == (if value@.len() > 0 {
                    value@.drop_last()
                } else {
                    value@
                }),
                FieldTy::MultipleOption { .. } => *final(self) == *old(self),
            },
    {
        if let FieldTy::Text { value } = self {
            let _ = pop_char(value);
        }
    }

    /// Left moves a choice field to the previous option.
    pub fn left(&mut self)
        ensures
            match *old(self) {
                FieldTy::MultipleOption { options, selected } => {
                    &&& *final(self) matches FieldTy::MultipleOption { options: o2, selected: s2 }
                    &&& o2 == options
                    &&& s2 == (if selected > 0 {
                        (selected - 1) as usize
                    } else {
                        selected
                    })
                },
                FieldTy::Text { .. } => *final(self) == *old(self),
            },
    {
        if let FieldTy::MultipleOption { selected, .. } = self {
            if *selected > 0 {
                *selected = *selected - 1;
            }
        }
    }

    /// Right moves a choice field to the next option.
    pub fn right(&mut self)
        ensures
            match *old(self) {
                FieldTy::MultipleOption { options, selected } => {
                    &&& *final(self) matches FieldTy::MultipleOption { options: o2, selected: s2 }
                    &&& o2 == options
                    &&& s2 == (if selected + 1 < options@.len() {
                        (selected + 1) as usize
                    } else {
                        selected
                    })
                },
                FieldTy::Text { .. } => *final(self) == *old(self),
            },
    {
        if let FieldTy::MultipleOption { options, selected } = self {
            if options.len() > 0 && *selected < options.len() - 1 {
                *selected = *selected + 1;
            }
        }
    }

    /// What the field currently holds, as text.
    pub fn value(&self) -> (r: &str)
        requires
            self.wf(),
        ensures
            r@ == self.spec_value(),
    {
        match self {
            FieldTy::MultipleOption { options, selected } => options[*selected],
            FieldTy::Text { value } => value.as_str(),
        }
    }
}

/// One labelled form field.
pub struct Field {
    pub label: &'static str,
    pub ty: FieldTy,
}

/// A form: an active row and its fields.
pub struct Form {
    pub active: usize,
    pub fields: Vec<Field>,
}

/// Index of the first field carrying `label`, or the field count if none
/// does.
pub open spec fn find_label(fields: Seq<Field>, label: Seq<char>) -> int
    decreases fields.len(),
{
    if fields.len() == 0 {
        0
    } else if fields[0].label@ == label {
        0
    } else {
        1 + find_label(fields.drop_first(), label)
    }
}

pub proof fn lemma_find_label_at(fields: Seq<Field>, label: Seq<char>, j: int)
    requires
        0 <= j <= fields.len(),
        j < fields.len() ==> fields[j].label@ == label,
        forall|k: int| 0 <= k < j ==> (#[trigger] fields[k]).label@ != label,
    ensures
        find_label(fields, label) == j,
    decreases j,
{
    if j > 0 {
        assert(fields[0].label@ != label);
        assert forall|k: int| 0 <= k < j - 1 implies (#[trigger] fields.drop_first()[k]).label@
            != label by {
            assert(fields.drop_first()[k] == fields[k + 1]);
        }
        if j < fields.len() {
            assert(fields.drop_first()[j - 1] == fields[j]);
        }
        lemma_find_label_at(fields.drop_first(), label, j - 1);
    }
}

impl Form {
    /// The text of the first field carrying this label.
    pub fn get_value_by_label(&self, arg: &str) -> (r: &str)
        requires
            find_label(self.fields@, arg@) < self.fields@.len(),
            self.fields@[find_label(self.fields@, arg@)].ty.wf(),
        ensures
            r@ == self.fields@[find_label(self.fields@, arg@)].ty.spec_value(),
    {
        let mut i: usize = 0;
        while i < self.fields.len()
            invariant
                i <= self.fields@.len(),
                forall|k: int| 0 <= k < i ==> (#[trigger] self.fields@[k]).label@ != arg@,
                find_label(self.fields@, arg@) < self.fields@.len(),
                self.fields@[find_label(self.fields@, arg@)].ty.wf(),
            decreases self.fields@.len() - i,
        {
            if str_eq(self.fields[i].label, arg) {
                proof {
                    lemma_find_label_at(self.fields@, arg@, i as int);
                }
                return self.fields[i].ty.value();
            }
            i = i + 1;
        }
        proof {
            lemma_find_label_at(self.fields@, arg@, self.fields@.len() as int);
        }
        unreached()
    }

    /// The selected index of the first choice field carrying this label.
    pub fn get_idx_by_label(&self, arg: &str) -> (r: usize)
        requires
            find_label(self.fields@, arg@) < self.fields@.len(),
            self.fields@[find_label(self.fields@, arg@)].ty is MultipleOption,
        ensures
            r == self.fields@[find_label(self.fields@, arg@)].ty->MultipleOption_selected,
    {
        let mut i: usize = 0;
        while i < self.fields.len()
            invariant
                i <= self.fields@.len(),
                forall|k: int| 0 <= k < i ==> (#[trigger] self.fields@[k]).label@ != arg@,
                find_label(self.fields@, arg@) < self.fields@.len(),
                self.fields@[find_label(self.fields@, arg@)].ty is MultipleOption,
            decreases self.fields@.len() - i,
        {
            if str_eq(self.fields[i].label, arg) {
                proof {
                    lemma_find_label_at(self.fields@, arg@, i as int);
                }
                if let FieldTy::MultipleOption { selected, .. } = &self.fields[i].ty {
                    return *selected;
                }
                proof {
                    assert(false);
                }
                return unreached();
            }
            i = i + 1;
        }
        proof {
            lemma_find_label_at(self.fields@, arg@, self.fields@.len() as int);
        }
        unreached()
    }
}

/// The configuration page.
pub struct Config {
    pub form: Form,
}

/// The page-level outcome of the configuration page.
#[derive(Clone, Copy, PartialEq, Eq, Structural, Debug)]
pub enum Transition {
    Pop,
}

/// What one key press asks the surrounding loop to do.
#[derive(Clone, Copy, PartialEq, Eq, Structural, Debug)]
pub enum ConfigAction {
    Continue,
    Pop,
    Save,
}

impl Config {
    /// The form always holds the login-mode choice and the editor path.
    pub open spec fn wf(&self) -> bool {
        &&& self.form.fields@.len() == 2
        &&& self.form.active < 2
        &&& self.form.fields@[0].label@ == "User mode"@
        &&& self.form.fields@[0].ty matches FieldTy::MultipleOption { options, selected }
            && options@.len() == 3 && selected < 3
        &&& self.form.fields@[1].label@ == "Terminal editor (path)"@
        &&& self.form.fields@[1].ty is Text
    }

    /// A configuration page mirroring the current settings.
    pub fn new(system_config: &storage::SystemConfig) -> (r: Self)
        ensures
            r.wf(),
            r.form.active == 0,
            r.form.fields@[0].ty->MultipleOption_selected == (match system_config.user_mode {
                storage::UserMode::SingleUserAutoLogin => 0int,
                storage::UserMode::SingleUserManualLogin => 1int,
                storage::UserMode::MultiUser => 2int,
            }),
            r.form.fields@[1].ty->Text_value@ == (match system_config.terminal_editor {
                Some(p) => p@,
                None => Seq::<char>::empty(),
            }),
    {
        let options: Vec<&'static str> = vec![
            "single user with auto login",
            "single user with manual login",
            "multiple users",
        ];
        let selected: usize = match system_config.user_mode {
            storage::UserMode::SingleUserAutoLogin => 0,
            storage::UserMode::SingleUserManualLogin => 1,
            storage::UserMode::MultiUser => 2,
        };
        let value: String = match &system_config.terminal_editor {
            Some(p) => p.clone(),
            None => String::new(),
        };
        let mut fields: Vec<Field> = Vec::new();
        fields.push(Field { label: "User mode", ty: FieldTy::MultipleOption { options, selected } });
        fields.push(Field { label: "Terminal editor (path)", ty: FieldTy::Text { value } });
        Config { form: Form { active: 0, fields } }
    }

    /// The settings the form encodes: the chosen login mode, and the editor
    /// path, with an empty path meaning none.
    pub fn to_system_config(&self) -> (r: storage::SystemConfig)
        requires
            self.wf(),
        ensures
            r.user_mode == (match self.form.fields@[0].ty->MultipleOption_selected {
                0 => storage::UserMode::SingleUserAutoLogin,
                1 => storage::UserMode::SingleUserManualLogin,
                _ => storage::UserMode::MultiUser,
            }),
            (self.form.fields@[1].ty->Text_value@.len() == 0) == (r.terminal_editor is None),
            r.terminal_editor matches Some(p) ==> p@ == self.form.fields@[1].ty->Text_value@,
    {
        proof {
            reveal_strlit("User mode");
            reveal_strlit("Terminal editor (path)");
            assert("User mode"@.len() == 9);
            assert("Terminal editor (path)"@.len() == 22);
            lemma_find_label_at(self.form.fields@, "User mode"@, 0);
            assert(self.form.fields@[0].label@ != "Terminal editor (path)"@);
            lemma_find_label_at(self.form.fields@, "Terminal editor (path)"@, 1);
        }
        let terminal_editor = self.form.get_value_by_label("Terminal editor (path)").to_owned();
        let user_mode = match self.form.get_idx_by_label("User mode") {
            0 => storage::UserMode::SingleUserAutoLogin,
            1 => storage::UserMode::SingleUserManualLogin,
            _ => storage::UserMode::MultiUser,
        };
        let editor = if terminal_editor.as_str().is_empty() {
            None
        } else {
            Some(terminal_editor)
        };
        storage::SystemConfig { user_mode, terminal_editor: editor }
    }

    /// One key press: Up/Down move between rows, Left/Right turn the choice
    /// field, characters and backspace edit the text field, Enter asks the
    /// loop to save, Esc leaves without saving.
    pub fn handle_key(&mut self, key: Key) -> (r: ConfigAction)
        requires
            old(self).wf(),
        ensures
            final (self).wf(),
            ({
                let s = *final (self);
                let o = *old(self);
                match key {
                    Key::Up => {
                        &&& r == ConfigAction::Continue
                        &&& s.form.fields == o.form.fields
                        &&& s.form.active == (if o.form.active > 0 {
                            (o.form.active - 1) as usize
                        } else {
                            o.form.active
                        })
                    },
                    Key::Down => {
                        &&& r == ConfigAction::Continue
                        &&& s.form.fields == o.form.fields
                        &&& s.form.active == (if o.form.active + 1 < o.form.fields@.len() {
                            (o.form.active + 1) as usize
                        } else {
                            o.form.active
                        })
                    },
                    Key::Char(c) => {
                        &&& r == ConfigAction::Continue
                        &&& s.form.active == o.form.active
                        &&& s.form.fields@.len() == o.form.fields@.len()
                        &&& (forall|k: int|
                            0 <= k < o.form.fields@.len() && k != o.form.active ==> (
                            #[trigger] s.form.fields@[k]) == o.form.fields@[k])
                        &&& s.form.fields@[o.form.active as int].label == o.form.fields@[o.form.active as int].label
                        &&& (match o.form.fields@[o.form.active as int].ty {
                            FieldTy::Text { value } => s.form.fields@[o.form.active as int].ty
                                matches FieldTy::Text { value: v2 } && v2@ == value@.push(c),
                            FieldTy::MultipleOption { .. } => same_field_ty(
                                o.form.fields@[o.form.active as int].ty,
                                s.form.fields@[o.form.active as int].ty,
                            ),
                        })
                    },
                    Key::Backspace => {
                        &&& r == ConfigAction::Continue
                        &&& s.form.active == o.form.active
                        &&& s.form.fields@.len() == o.form.fields@.len()
                        &&& (forall|k: int|
                            0 <= k < o.form.fields@.len() && k != o.form.active ==> (
                            #[trigger] s.form.fields@[k]) == o.form.fields@[k])
                        &&& s.form.fields@[o.form.active as int].label == o.form.fields@[o.form.active as int].label
                        &&& (match o.form.fields@[o.form.active as int].ty {
                            FieldTy::Text { value } => s.form.fields@[o.form.active as int].ty
                                matches FieldTy::Text { value: v2 } && v2@ == (if value@.len()
                                > 0 {
                                value@.drop_last()
                            } else {
                                value@
                            }),
                            FieldTy::MultipleOption { .. } => same_field_ty(
                                o.form.fields@[o.form.active as int].ty,
                                s.form.fields@[o.form.active as int].ty,
                            ),
                        })
                    },
                    Key::Left => {
                        &&& r == ConfigAction::Continue
                        &&& s.form.active == o.form.active
                        &&& s.form.fields@.len() == o.form.fields@.len()
                        &&& (forall|k: int|
                            0 <= k < o.form.fields@.len() && k != o.form.active ==> (
                            #[trigger] s.form.fields@[k]) == o.form.fields@[k])
                        &&& s.form.fields@[o.form.active as int].label == o.form.fields@[o.form.active as int].label
                        &&& (match o.form.fields@[o.form.active as int].ty {
                            FieldTy::MultipleOption { options, selected } => s.form.fields@[o.form.active as int].ty
                                matches FieldTy::MultipleOption { options: o2, selected: s2 } && o2@
                                == options@ && s2 == (if selected > 0 {
                                (selected - 1) as usize
                            } else {
                                selected
                            }),
                            FieldTy::Text { .. } => same_field_ty(
                                o.form.fields@[o.form.active as int].ty,
                                s.form.fields@[o.form.active as int].ty,
                            ),
                        })
                    },
                    Key::Right => {
                        &&& r == ConfigAction::Continue
                        &&& s.form.active == o.form.active
                        &&& s.form.fields@.len() == o.form.fields@.len()
                        &&& (forall|k: int|
                            0 <= k < o.form.fields@.len() && k != o.form.active ==> (
                            #[trigger] s.form.fields@[k]) == o.form.fields@[k])
                        &&& s.form.fields@[o.form.active as int].label == o.form.fields@[o.form.active as int].label
                        &&& (match o.form.fields@[o.form.active as int].ty {
                            FieldTy::MultipleOption { options, selected } => s.form.fields@[o.form.active as int].ty
                                matches FieldTy::MultipleOption { options: o2, selected: s2 } && o2@
                                == options@ && s2 == (if selected + 1 < options@.len() {
                                (selected + 1) as usize
                            } else {
                                selected
                            }),
                            FieldTy::Text { .. } => same_field_ty(
                                o.form.fields@[o.form.active as int].ty,
                                s.form.fields@[o.form.active as int].ty,
                            ),
                        })
                    },
                    Key::Esc => r == ConfigAction::Pop && s == o,
                    Key::Enter => r == ConfigAction::Save && s == o,
                    _ => r == ConfigAction::Continue && s == o,
                }
            }),
    {
        match key {
            Key::Up => {
                if self.form.active > 0 {
                    self.form.active = self.form.active - 1;
                }
                ConfigAction::Continue
            },
            Key::Down => {
                if self.form.active + 1 < self.form.fields.len() {
                    self.form.active = self.form.active + 1;
                }
                ConfigAction::Continue
            },
            Key::Char(c) => {
                let active = self.form.active;
                let mut f = Field {
                    label: self.form.fields[active].label,
                    ty: self.form.fields[active].ty.clone(),
                };
                f.ty.input(c);
                self.form.fields.set(active, f);
                ConfigAction::Continue
            },
            Key::Backspace => {
                let active = self.form.active;
                let mut f = Field {
                    label: self.form.fields[active].label,
                    ty: self.form.fields[active].ty.clone(),
                };
                f.ty.backspace();
                self.form.fields.set(active, f);
                ConfigAction::Continue
            },
            Key::Left => {
                let active = self.form.active;
                let mut f = Field {
                    label: self.form.fields[active].label,
                    ty: self.form.fields[active].ty.clone(),
                };
                f.ty.left();
                self.form.fields.set(active, f);
                ConfigAction::Continue
            },
            Key::Right => {
                let active = self.form.active;
                let mut f = Field {
                    label: self.form.fields[active].label,
                    ty: self.form.fields[active].ty.clone(),
                };
                f.ty.right();
                self.form.fields.set(active, f);
                ConfigAction::Continue
            },
            Key::Esc => ConfigAction::Pop,
            Key::Enter => ConfigAction::Save,
            _ => ConfigAction::Continue,
        }
    }

    /// Leaves the page exactly when the save went through.
    pub fn handle_save_result(&self, saved: bool) -> (r: Option<Transition>)
        ensures
            r == (if saved {
                Some(Transition::Pop)
            } else {
                None::<Transition>
            }),
    {
        if saved {
            Some(Transition::Pop)
        } else {
            None
        }
    }
}

} // verus!
