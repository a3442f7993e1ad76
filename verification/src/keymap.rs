//! The one key map every query field shares.
//!
//! Keeping it in one place is the point: "control-W deletes a word" has to mean
//! the same thing in the command palette, Quick Open and the terminal's find bar.

use vstd::prelude::*;
use vstd::string::*;

use crate::query_editor::{FieldEdit, LocalEdit, Motion};
use crate::utf8;

verus! {

/// The modifier keys held down with a keystroke.
#[derive(Clone, Copy, Debug, Default, PartialEq, Eq, Structural)]
pub struct Modifiers {
    pub control: bool,
    pub alt: bool,
    pub shift: bool,
    pub platform: bool,
    pub function: bool,
}

/// A key, the modifiers held with it, and the text it types.
#[derive(Clone, Debug, PartialEq, Eq)]
pub struct Keystroke {
    pub modifiers: Modifiers,
    pub key: String,
    pub key_char: Option<String>,
}

/// An edit that needs the host's pasteboard, so the surface performs it.
#[derive(Clone, Copy, Debug, PartialEq, Eq, Structural)]
pub enum ClipboardEdit {
    Copy,
    Cut,
    Paste,
}

#[derive(Clone, Debug, PartialEq, Eq)]
pub enum Edit {
    Local(LocalEdit),
    Clipboard(ClipboardEdit),
}

/// What an `Edit` asks for.
pub enum FieldCommand {
    Local(FieldEdit),
    Clipboard(ClipboardEdit),
}

impl View for Edit {
    type V = FieldCommand;

    open spec fn view(&self) -> FieldCommand {
        match *self {
            Edit::Local(edit) => FieldCommand::Local(edit@),
            Edit::Clipboard(edit) => FieldCommand::Clipboard(edit),
        }
    }
}

/// The text that a keystroke types, if any.
pub open spec fn typed(keystroke: Keystroke) -> Option<Seq<char>> {
    match keystroke.key_char {
        Some(text) => Some(text@),
        None => None,
    }
}

/// The platform key reaches the line, alt the word, neither the character.
pub open spec fn reach(modifiers: Modifiers) -> Motion {
    if modifiers.platform {
        Motion::Line
    } else if modifiers.alt {
        Motion::Word
    } else {
        Motion::Character
    }
}

/// What a key stands for while the platform key is held.
pub open spec fn platform_key(key: Seq<char>) -> Option<FieldCommand> {
    if key == "a"@ {
        Some(FieldCommand::Local(FieldEdit::SelectAll))
    } else if key == "c"@ {
        Some(FieldCommand::Clipboard(ClipboardEdit::Copy))
    } else if key == "x"@ {
        Some(FieldCommand::Clipboard(ClipboardEdit::Cut))
    } else if key == "v"@ {
        Some(FieldCommand::Clipboard(ClipboardEdit::Paste))
    } else {
        None
    }
}

/// What a key stands for while control is held: readline, as shells use it.
pub open spec fn control_key(key: Seq<char>, extend: bool) -> Option<FieldEdit> {
    if key == "a"@ {
        Some(FieldEdit::MoveLeft(Motion::Line, extend))
    } else if key == "e"@ {
        Some(FieldEdit::MoveRight(Motion::Line, extend))
    } else if key == "w"@ {
        Some(FieldEdit::DeleteBackward(Motion::Word))
    } else if key == "u"@ {
        Some(FieldEdit::DeleteBackward(Motion::Line))
    } else if key == "k"@ {
        Some(FieldEdit::DeleteForward(Motion::Line))
    } else if key == "h"@ {
        Some(FieldEdit::DeleteBackward(Motion::Character))
    } else if key == "d"@ {
        Some(FieldEdit::DeleteForward(Motion::Character))
    } else if key == "b"@ {
        Some(FieldEdit::MoveLeft(Motion::Character, extend))
    } else if key == "f"@ {
        Some(FieldEdit::MoveRight(Motion::Character, extend))
    } else {
        None
    }
}

/// What an editing key stands for, whatever is held with it.
pub open spec fn editing_key(key: Seq<char>, motion: Motion, extend: bool) -> Option<FieldEdit> {
    if key == "backspace"@ {
        Some(FieldEdit::DeleteBackward(motion))
    } else if key == "delete"@ {
        Some(FieldEdit::DeleteForward(motion))
    } else if key == "left"@ {
        Some(FieldEdit::MoveLeft(motion, extend))
    } else if key == "right"@ {
        Some(FieldEdit::MoveRight(motion, extend))
    } else if key == "home"@ {
        Some(FieldEdit::MoveLeft(Motion::Line, extend))
    } else if key == "end"@ {
        Some(FieldEdit::MoveRight(Motion::Line, extend))
    } else {
        None
    }
}

/// The key map: platform bindings go before control bindings, those before the
/// editing keys, and anything else is text only if it typed something and no
/// platform, control or function key claimed it.
pub open spec fn key_map(
    key: Seq<char>,
    modifiers: Modifiers,
    text: Option<Seq<char>>,
) -> Option<FieldCommand> {
    let editing = editing_key(key, reach(modifiers), modifiers.shift);
    if modifiers.platform && platform_key(key) is Some {
        platform_key(key)
    } else if modifiers.control && control_key(key, modifiers.shift) is Some {
        Some(FieldCommand::Local(control_key(key, modifiers.shift)->Some_0))
    } else if editing is Some {
        Some(FieldCommand::Local(editing->Some_0))
    } else if text is Some && !modifiers.platform && !modifiers.control && !modifiers.function {
        Some(FieldCommand::Local(FieldEdit::Insert(text->Some_0)))
    } else {
        None
    }
}

fn motion_for(modifiers: Modifiers) -> (motion: Motion)
    ensures
        motion == reach(modifiers),
{
    if modifiers.platform {
        Motion::Line
    } else if modifiers.alt {
        Motion::Word
    } else {
        Motion::Character
    }
}

fn platform_edit(key: &str) -> (edit: Option<Edit>)
    ensures
        match edit {
            Some(edit) => platform_key(key@) == Some(edit@),
            None => platform_key(key@) is None,
        },
{
    if utf8::same_text(key, "a") {
        Some(Edit::Local(LocalEdit::SelectAll))
    } else if utf8::same_text(key, "c") {
        Some(Edit::Clipboard(ClipboardEdit::Copy))
    } else if utf8::same_text(key, "x") {
        Some(Edit::Clipboard(ClipboardEdit::Cut))
    } else if utf8::same_text(key, "v") {
        Some(Edit::Clipboard(ClipboardEdit::Paste))
    } else {
        None
    }
}

fn control_edit(key: &str, extend: bool) -> (edit: Option<LocalEdit>)
    ensures
        match edit {
            Some(edit) => control_key(key@, extend) == Some(edit@),
            None => control_key(key@, extend) is None,
        },
{
    if utf8::same_text(key, "a") {
        Some(LocalEdit::MoveLeft(Motion::Line, extend))
    } else if utf8::same_text(key, "e") {
        Some(LocalEdit::MoveRight(Motion::Line, extend))
    } else if utf8::same_text(key, "w") {
        Some(LocalEdit::DeleteBackward(Motion::Word))
    } else if utf8::same_text(key, "u") {
        Some(LocalEdit::DeleteBackward(Motion::Line))
    } else if utf8::same_text(key, "k") {
        Some(LocalEdit::DeleteForward(Motion::Line))
    } else if utf8::same_text(key, "h") {
        Some(LocalEdit::DeleteBackward(Motion::Character))
    } else if utf8::same_text(key, "d") {
        Some(LocalEdit::DeleteForward(Motion::Character))
    } else if utf8::same_text(key, "b") {
        Some(LocalEdit::MoveLeft(Motion::Character, extend))
    } else if utf8::same_text(key, "f") {
        Some(LocalEdit::MoveRight(Motion::Character, extend))
    } else {
        None
    }
}

fn editing_edit(key: &str, motion: Motion, extend: bool) -> (edit: Option<LocalEdit>)
    ensures
        match edit {
            Some(edit) => editing_key(key@, motion, extend) == Some(edit@),
            None => editing_key(key@, motion, extend) is None,
        },
{
    if utf8::same_text(key, "backspace") {
        Some(LocalEdit::DeleteBackward(motion))
    } else if utf8::same_text(key, "delete") {
        Some(LocalEdit::DeleteForward(motion))
    } else if utf8::same_text(key, "left") {
        Some(LocalEdit::MoveLeft(motion, extend))
    } else if utf8::same_text(key, "right") {
        Some(LocalEdit::MoveRight(motion, extend))
    } else if utf8::same_text(key, "home") {
        Some(LocalEdit::MoveLeft(Motion::Line, extend))
    } else if utf8::same_text(key, "end") {
        Some(LocalEdit::MoveRight(Motion::Line, extend))
    } else {
        None
    }
}

/// The edit that `keystroke` asks of a query field. `None` means the keystroke is
/// not a text edit and the caller should handle or ignore it.
pub fn edit_for(keystroke: &Keystroke) -> (edit: Option<Edit>)
    ensures
        match edit {
            Some(edit) => key_map(keystroke.key@, keystroke.modifiers, typed(*keystroke)) == Some(
                edit@,
            ),
            None => key_map(keystroke.key@, keystroke.modifiers, typed(*keystroke)) is None,
        },
{
    let modifiers = keystroke.modifiers;
    let key = keystroke.key.as_str();
    if modifiers.platform {
        if let Some(edit) = platform_edit(key) {
            return Some(edit);
        }
    }
    if modifiers.control {
        if let Some(edit) = control_edit(key, modifiers.shift) {
            return Some(Edit::Local(edit));
        }
    }
    if let Some(edit) = editing_edit(key, motion_for(modifiers), modifiers.shift) {
        return Some(Edit::Local(edit));
    }
    if modifiers.platform || modifiers.control || modifiers.function {
        return None;
    }
    match &keystroke.key_char {
        Some(text) => Some(Edit::Local(LocalEdit::Insert(text.clone()))),
        None => None,
    }
}

} // verus!
