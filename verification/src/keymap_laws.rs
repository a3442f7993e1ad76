//! What holds of the shared key map for every keystroke.

use vstd::prelude::*;
use vstd::string::*;

use crate::keymap;
use crate::keymap::{ClipboardEdit, Edit, FieldCommand, Keystroke, Modifiers};
use crate::query_editor::{FieldEdit, LocalEdit, Motion};

verus! {

/// `command`, with a motion that extends the selection exactly while `extend` holds.
pub open spec fn with_extend(command: Option<FieldCommand>, extend: bool) -> Option<FieldCommand> {
    match command {
        Some(FieldCommand::Local(FieldEdit::MoveLeft(motion, _))) => Some(
            FieldCommand::Local(FieldEdit::MoveLeft(motion, extend)),
        ),
        Some(FieldCommand::Local(FieldEdit::MoveRight(motion, _))) => Some(
            FieldCommand::Local(FieldEdit::MoveRight(motion, extend)),
        ),
        other => other,
    }
}

/// A keystroke is text only if it typed that text and no platform, control or
/// function key was held.
pub proof fn law_text_needs_no_command_modifier(
    key: Seq<char>,
    modifiers: Modifiers,
    text: Option<Seq<char>>,
)
    ensures
        keymap::key_map(key, modifiers, text) matches Some(FieldCommand::Local(FieldEdit::Insert(
            inserted,
        ))) ==> text == Some(inserted) && !modifiers.platform && !modifiers.control
            && !modifiers.function,
{
}

/// The pasteboard is only ever asked for with the platform key held.
pub proof fn law_clipboard_needs_the_platform_key(
    key: Seq<char>,
    modifiers: Modifiers,
    text: Option<Seq<char>>,
)
    ensures
        keymap::key_map(key, modifiers, text) matches Some(FieldCommand::Clipboard(edit))
            ==> modifiers.platform,
{
}

/// Shift makes motions extend the selection and changes nothing else.
pub proof fn law_shift_only_extends(key: Seq<char>, modifiers: Modifiers, text: Option<Seq<char>>)
    ensures
        keymap::key_map(key, modifiers, text) == with_extend(
            keymap::key_map(key, Modifiers { shift: !modifiers.shift, ..modifiers }, text),
            modifiers.shift,
        ),
{
}

/// The command that a keystroke stands for.
pub open spec fn command_of(keystroke: Keystroke) -> Option<FieldCommand> {
    keymap::key_map(keystroke.key@, keystroke.modifiers, keymap::typed(keystroke))
}

/// Shift as in `modifiers`, these two as given, and nothing else held.
pub open spec fn held(modifiers: Modifiers, platform: bool, alt: bool) -> Modifiers {
    Modifiers { control: false, alt, shift: modifiers.shift, platform, function: false }
}

/// The keys of the map are different keys.
proof fn lemma_keys_differ()
    ensures
        "a"@.len() == 1 && "a"@[0] == 'a',
        "b"@.len() == 1 && "b"@[0] == 'b',
        "c"@.len() == 1 && "c"@[0] == 'c',
        "d"@.len() == 1 && "d"@[0] == 'd',
        "e"@.len() == 1 && "e"@[0] == 'e',
        "f"@.len() == 1 && "f"@[0] == 'f',
        "h"@.len() == 1 && "h"@[0] == 'h',
        "k"@.len() == 1 && "k"@[0] == 'k',
        "u"@.len() == 1 && "u"@[0] == 'u',
        "v"@.len() == 1 && "v"@[0] == 'v',
        "w"@.len() == 1 && "w"@[0] == 'w',
        "x"@.len() == 1 && "x"@[0] == 'x',
        "backspace"@.len() == 9,
        "delete"@.len() == 6,
        "left"@.len() == 4 && "left"@[0] == 'l',
        "right"@.len() == 5,
        "home"@.len() == 4 && "home"@[0] == 'h',
        "end"@.len() == 3,
{
    reveal_strlit("a");
    reveal_strlit("b");
    reveal_strlit("c");
    reveal_strlit("d");
    reveal_strlit("e");
    reveal_strlit("f");
    reveal_strlit("h");
    reveal_strlit("k");
    reveal_strlit("u");
    reveal_strlit("v");
    reveal_strlit("w");
    reveal_strlit("x");
    reveal_strlit("backspace");
    reveal_strlit("delete");
    reveal_strlit("left");
    reveal_strlit("right");
    reveal_strlit("home");
    reveal_strlit("end");
}

/// The four editing keys delete or move to the side that they name, by the line
/// exactly while the platform key is held, by the word exactly while alt and not the
/// platform key is, and by the character otherwise. Shift extends their motions.
pub proof fn law_modifiers_decide_how_far_a_key_reaches(
    key: Seq<char>,
    modifiers: Modifiers,
    text: Option<Seq<char>>,
)
    requires
        key == "backspace"@ || key == "delete"@ || key == "left"@ || key == "right"@,
    ensures
        keymap::key_map(key, modifiers, text) matches Some(FieldCommand::Local(edit)) && ({
            let motion = match edit {
                FieldEdit::DeleteBackward(motion) => motion,
                FieldEdit::DeleteForward(motion) => motion,
                FieldEdit::MoveLeft(motion, _) => motion,
                FieldEdit::MoveRight(motion, _) => motion,
                _ => Motion::Line,
            };
            &&& motion == Motion::Line <==> modifiers.platform
            &&& motion == Motion::Word <==> modifiers.alt && !modifiers.platform
            &&& motion == Motion::Character <==> !modifiers.alt && !modifiers.platform
            &&& key == "backspace"@ <==> edit is DeleteBackward
            &&& key == "delete"@ <==> edit is DeleteForward
            &&& key == "left"@ <==> edit is MoveLeft
            &&& key == "right"@ <==> edit is MoveRight
            &&& edit matches FieldEdit::MoveLeft(_, extend) ==> extend == modifiers.shift
            &&& edit matches FieldEdit::MoveRight(_, extend) ==> extend == modifiers.shift
        }),
{
    lemma_keys_differ();
}

/// Home and end do what the left and right arrows do with the platform key held,
/// whatever is held with them.
pub proof fn law_home_and_end_are_line_arrows(
    modifiers: Modifiers,
    text: Option<Seq<char>>,
    other: Option<Seq<char>>,
)
    ensures
        keymap::key_map("home"@, modifiers, text) == keymap::key_map(
            "left"@,
            held(modifiers, true, false),
            other,
        ),
        keymap::key_map("end"@, modifiers, text) == keymap::key_map(
            "right"@,
            held(modifiers, true, false),
            other,
        ),
        keymap::key_map("home"@, modifiers, text) is Some,
        keymap::key_map("end"@, modifiers, text) is Some,
{
    lemma_keys_differ();
}

/// With control held, the letters of readline do what editing keys do: a and e go home
/// and to the end, w, u and h are backspace by the word, the line and the character,
/// k and d are delete by the line and the character, b and f are the arrows.
pub proof fn law_readline_letters_are_editing_keys(
    modifiers: Modifiers,
    text: Option<Seq<char>>,
    other: Option<Seq<char>>,
)
    requires
        modifiers.control,
    ensures
        !modifiers.platform ==> keymap::key_map("a"@, modifiers, text) == keymap::key_map(
            "home"@,
            held(modifiers, false, false),
            other,
        ),
        keymap::key_map("e"@, modifiers, text) == keymap::key_map(
            "end"@,
            held(modifiers, false, false),
            other,
        ),
        keymap::key_map("w"@, modifiers, text) == keymap::key_map(
            "backspace"@,
            held(modifiers, false, true),
            other,
        ),
        keymap::key_map("u"@, modifiers, text) == keymap::key_map(
            "backspace"@,
            held(modifiers, true, false),
            other,
        ),
        keymap::key_map("h"@, modifiers, text) == keymap::key_map(
            "backspace"@,
            held(modifiers, false, false),
            other,
        ),
        keymap::key_map("k"@, modifiers, text) == keymap::key_map(
            "delete"@,
            held(modifiers, true, false),
            other,
        ),
        keymap::key_map("d"@, modifiers, text) == keymap::key_map(
            "delete"@,
            held(modifiers, false, false),
            other,
        ),
        keymap::key_map("b"@, modifiers, text) == keymap::key_map(
            "left"@,
            held(modifiers, false, false),
            other,
        ),
        keymap::key_map("f"@, modifiers, text) == keymap::key_map(
            "right"@,
            held(modifiers, false, false),
            other,
        ),
{
    lemma_keys_differ();
}

/// With the platform key held, whatever else is, a selects everything, and c, x and v
/// copy, cut and paste; no other key asks for any of that.
pub proof fn law_platform_letters_select_and_use_the_pasteboard(
    key: Seq<char>,
    modifiers: Modifiers,
    text: Option<Seq<char>>,
)
    ensures
        keymap::key_map(key, modifiers, text) == Some(FieldCommand::Local(FieldEdit::SelectAll))
            <==> modifiers.platform && key == "a"@,
        keymap::key_map(key, modifiers, text) == Some(
            FieldCommand::Clipboard(ClipboardEdit::Copy),
        ) <==> modifiers.platform && key == "c"@,
        keymap::key_map(key, modifiers, text) == Some(FieldCommand::Clipboard(ClipboardEdit::Cut))
            <==> modifiers.platform && key == "x"@,
        keymap::key_map(key, modifiers, text) == Some(
            FieldCommand::Clipboard(ClipboardEdit::Paste),
        ) <==> modifiers.platform && key == "v"@,
{
    lemma_keys_differ();
}

/// A keystroke that is no editing key and claimed by no modifier is the text that it
/// typed, whatever shift and alt are; one that a modifier claims but that is bound to
/// nothing stays with the caller, and so does one that typed nothing.
pub proof fn law_other_keys_are_text_or_stay_with_the_caller(keystroke: Keystroke)
    requires
        keystroke.key@ != "backspace"@,
        keystroke.key@ != "delete"@,
        keystroke.key@ != "left"@,
        keystroke.key@ != "right"@,
        keystroke.key@ != "home"@,
        keystroke.key@ != "end"@,
    ensures
        ({
            let key = keystroke.key@;
            let modifiers = keystroke.modifiers;
            let command = command_of(keystroke);
            let free = !modifiers.platform && !modifiers.control && !modifiers.function;
            let platform = modifiers.platform && (key == "a"@ || key == "c"@ || key == "x"@ || key
                == "v"@);
            let control = modifiers.control && (key == "a"@ || key == "e"@ || key == "w"@ || key
                == "u"@ || key == "k"@ || key == "h"@ || key == "d"@ || key == "b"@ || key
                == "f"@);
            &&& free ==> match keystroke.key_char {
                Some(text) => command == Some(FieldCommand::Local(FieldEdit::Insert(text@))),
                None => command is None,
            }
            &&& !free && !platform && !control ==> command is None
        }),
{
}

/// An edit asks for what its name says.
pub proof fn law_edits_ask_for_what_they_name(text: String, motion: Motion, extend: bool)
    ensures
        LocalEdit::Insert(text)@ == FieldEdit::Insert(text@),
        LocalEdit::SelectAll@ == FieldEdit::SelectAll,
        LocalEdit::DeleteBackward(motion)@ == FieldEdit::DeleteBackward(motion),
        LocalEdit::DeleteForward(motion)@ == FieldEdit::DeleteForward(motion),
        LocalEdit::MoveLeft(motion, extend)@ == FieldEdit::MoveLeft(motion, extend),
        LocalEdit::MoveRight(motion, extend)@ == FieldEdit::MoveRight(motion, extend),
        Edit::Local(LocalEdit::SelectAll)@ == FieldCommand::Local(FieldEdit::SelectAll),
        Edit::Clipboard(ClipboardEdit::Cut)@ == FieldCommand::Clipboard(ClipboardEdit::Cut),
{
}

} // verus!
