//! Key routing of the macOS input controller: which key event goes where,
//! and what each editing command does while composing or not.
//!
//! The controller itself only performs what these functions decide; every
//! decision here is a function of plain facts about the event and the state.

use vstd::prelude::*;

verus! {

/// Modifier keys held down with a key.
#[derive(Clone, Copy, Debug, PartialEq, Eq, Structural)]
pub struct Modifiers {
    pub option: bool,
    pub shift: bool,
    pub control: bool,
    pub command: bool,
}

impl Modifiers {
    /// No modifier held.
    pub open spec fn none_held(self) -> bool {
        !self.option && !self.shift && !self.control && !self.command
    }

    pub fn is_empty(&self) -> (empty: bool)
        ensures
            empty == self.none_held(),
    {
        !self.option && !self.shift && !self.control && !self.command
    }
}

/// The digit 1-9 of a number-row or keypad key code (ANSI layout).
pub open spec fn spec_digit_key(key_code: u16) -> Option<usize> {
    if key_code == 18 || key_code == 83 {
        Some(1)
    } else if key_code == 19 || key_code == 84 {
        Some(2)
    } else if key_code == 20 || key_code == 85 {
        Some(3)
    } else if key_code == 21 || key_code == 86 {
        Some(4)
    } else if key_code == 23 || key_code == 87 {
        Some(5)
    } else if key_code == 22 || key_code == 88 {
        Some(6)
    } else if key_code == 26 || key_code == 89 {
        Some(7)
    } else if key_code == 28 || key_code == 91 {
        Some(8)
    } else if key_code == 25 || key_code == 92 {
        Some(9)
    } else {
        None
    }
}

/// Digit 1-9 of the number row and the keypad, by physical key code.
pub fn digit_key(key_code: u16) -> (digit: Option<usize>)
    ensures
        digit == spec_digit_key(key_code),
        digit matches Some(d) ==> 1 <= d <= 9,
{
    match key_code {
        18 | 83 => Some(1),
        19 | 84 => Some(2),
        20 | 85 => Some(3),
        21 | 86 => Some(4),
        23 | 87 => Some(5),
        22 | 88 => Some(6),
        26 | 89 => Some(7),
        28 | 91 => Some(8),
        25 | 92 => Some(9),
        _ => None,
    }
}

/// The editing commands the controller understands.
#[derive(Clone, Copy, Debug, PartialEq, Eq, Structural)]
pub enum Selector {
    InsertNewline,
    InsertTab,
    InsertBacktab,
    DeleteBackward,
    DeleteWordBackward,
    DeleteToBeginningOfLine,
    DeleteForward,
    CancelOperation,
    Complete,
    MoveUp,
    MoveDown,
    MoveLeft,
    MoveRight,
    MoveWordLeft,
    MoveWordRight,
    MoveToBeginningOfLine,
    MoveToLeftEndOfLine,
    MoveToEndOfLine,
    MoveToRightEndOfLine,
    PageUp,
    PageDown,
    ScrollPageUp,
    ScrollPageDown,
    /// Any other command an application sends.
    Other,
}

/// The command a key code stands for, given the modifiers held.
pub open spec fn spec_selector_for_key(key: u16, shift: bool, option: bool, command: bool) -> Option<
    Selector,
> {
    if key == 36 || key == 76 {
        Some(Selector::InsertNewline)
    } else if key == 48 {
        if shift {
            Some(Selector::InsertBacktab)
        } else {
            Some(Selector::InsertTab)
        }
    } else if key == 51 {
        if option {
            Some(Selector::DeleteWordBackward)
        } else if command {
            Some(Selector::DeleteToBeginningOfLine)
        } else {
            Some(Selector::DeleteBackward)
        }
    } else if key == 117 {
        Some(Selector::DeleteForward)
    } else if key == 53 {
        Some(Selector::CancelOperation)
    } else if key == 126 {
        Some(Selector::MoveUp)
    } else if key == 125 {
        Some(Selector::MoveDown)
    } else if key == 123 {
        if command {
            Some(Selector::MoveToLeftEndOfLine)
        } else if option {
            Some(Selector::MoveWordLeft)
        } else {
            Some(Selector::MoveLeft)
        }
    } else if key == 124 {
        if command {
            Some(Selector::MoveToRightEndOfLine)
        } else if option {
            Some(Selector::MoveWordRight)
        } else {
            Some(Selector::MoveRight)
        }
    } else if key == 116 {
        Some(Selector::PageUp)
    } else if key == 121 {
        Some(Selector::PageDown)
    } else if key == 115 {
        Some(Selector::MoveToBeginningOfLine)
    } else if key == 119 {
        Some(Selector::MoveToEndOfLine)
    } else {
        None
    }
}

/// Maps a command key code to the selector an application would have sent.
pub fn selector_for_key(key: u16, shift: bool, option: bool, command: bool) -> (selector: Option<
    Selector,
>)
    ensures
        selector == spec_selector_for_key(key, shift, option, command),
{
    match key {
        36 | 76 => Some(Selector::InsertNewline),
        48 => if shift {
            Some(Selector::InsertBacktab)
        } else {
            Some(Selector::InsertTab)
        },
        51 => if option {
            Some(Selector::DeleteWordBackward)
        } else if command {
            Some(Selector::DeleteToBeginningOfLine)
        } else {
            Some(Selector::DeleteBackward)
        },
        117 => Some(Selector::DeleteForward),
        53 => Some(Selector::CancelOperation),
        126 => Some(Selector::MoveUp),
        125 => Some(Selector::MoveDown),
        123 => if command {
            Some(Selector::MoveToLeftEndOfLine)
        } else if option {
            Some(Selector::MoveWordLeft)
        } else {
            Some(Selector::MoveLeft)
        },
        124 => if command {
            Some(Selector::MoveToRightEndOfLine)
        } else if option {
            Some(Selector::MoveWordRight)
        } else {
            Some(Selector::MoveRight)
        },
        116 => Some(Selector::PageUp),
        121 => Some(Selector::PageDown),
        115 => Some(Selector::MoveToBeginningOfLine),
        119 => Some(Selector::MoveToEndOfLine),
        _ => None,
    }
}

/// What the controller knows about a key event when it arrives.
pub struct KeyFacts {
    /// The event is a key press (not a release or a modifier change).
    pub key_down: bool,
    /// Physical key code.
    pub key: u16,
    /// Modifiers held.
    pub pressed: Modifiers,
    /// A translation of selected text is on screen, waiting for a decision.
    pub reviewing_translation: bool,
    /// First character the key types ignoring modifiers, lower-cased.
    pub typed: Option<char>,
    /// Modifiers of the translate-selection shortcut.
    pub translate_modifiers: Modifiers,
    /// Key of the translate-selection shortcut.
    pub translate_key: char,
    /// Something is being composed.
    pub composing: bool,
    /// The composition is in expression mode (where shift + digit types `^ * ( )`).
    pub expression_mode: bool,
    /// Modifiers that commit the first translation of a candidate.
    pub first_sense_modifiers: Modifiers,
    /// Modifiers that commit the second translation of a candidate.
    pub second_sense_modifiers: Modifiers,
    /// Modifiers that delete a candidate.
    pub delete_modifiers: Modifiers,
    /// The event carries non-empty text.
    pub has_text: bool,
}

/// Where a key event goes.
#[derive(Clone, Copy, Debug, PartialEq, Eq, Structural)]
pub enum EventRoute {
    /// Not ours: the application gets the key.
    PassToApplication,
    /// Accept or abandon the translation on screen.
    ReviewTranslation,
    /// Translate the text selected in the application.
    TranslateSelection,
    /// Commit translation `sense` of candidate `digit` on the page.
    TranslationKey { digit: usize, sense: usize },
    /// Delete candidate `digit` on the page.
    DeleteCandidate { digit: usize },
    /// An editing command.
    Command(Selector),
    /// Typed text.
    Text,
}

/// Command + Left or Command + Right with Control not held: the only
/// Command combinations the input method keeps (they move to a line end).
pub open spec fn spec_line_end_key(f: KeyFacts) -> bool {
    f.pressed.command && !f.pressed.control && (f.key == 123 || f.key == 124)
}

/// The route of a key event, in the controller's order of precedence.
pub open spec fn spec_route_event(f: KeyFacts) -> EventRoute {
    if !f.key_down {
        EventRoute::PassToApplication
    } else if f.reviewing_translation {
        EventRoute::ReviewTranslation
    } else if f.pressed == f.translate_modifiers && f.typed == Some(f.translate_key)
        && !f.composing {
        EventRoute::TranslateSelection
    } else if f.composing && !f.expression_mode && !f.pressed.none_held() && spec_digit_key(
        f.key,
    ) is Some && (f.pressed == f.first_sense_modifiers || f.pressed
        == f.second_sense_modifiers || f.pressed == f.delete_modifiers) {
        let digit = spec_digit_key(f.key)->0;
        if f.pressed == f.first_sense_modifiers {
            EventRoute::TranslationKey { digit, sense: 0 }
        } else if f.pressed == f.second_sense_modifiers {
            EventRoute::TranslationKey { digit, sense: 1 }
        } else {
            EventRoute::DeleteCandidate { digit }
        }
    } else if (f.pressed.command || f.pressed.control) && !spec_line_end_key(f) {
        EventRoute::PassToApplication
    } else if spec_selector_for_key(f.key, f.pressed.shift, f.pressed.option, f.pressed.command)
        is Some {
        EventRoute::Command(
            spec_selector_for_key(f.key, f.pressed.shift, f.pressed.option, f.pressed.command)->0,
        )
    } else if f.has_text {
        EventRoute::Text
    } else {
        EventRoute::PassToApplication
    }
}

/// Routes a key event: only presses count; a pending translation takes every
/// key; the translate shortcut works outside compositions; modifier + digit
/// picks translations or deletes candidates while composing (not in
/// expression mode); every other Command or Control combination but
/// Command + Left / Right belongs to the application; command keys become
/// selectors; the rest is text.
pub fn route_event(facts: &KeyFacts) -> (route: EventRoute)
    ensures
        route == spec_route_event(*facts),
{
    if !facts.key_down {
        return EventRoute::PassToApplication;
    }
    if facts.reviewing_translation {
        return EventRoute::ReviewTranslation;
    }
    let pressed = facts.pressed;
    if pressed == facts.translate_modifiers && facts.typed == Some(facts.translate_key)
        && !facts.composing {
        return EventRoute::TranslateSelection;
    }
    if facts.composing && !facts.expression_mode && !pressed.is_empty() {
        if let Some(digit) = digit_key(facts.key) {
            if pressed == facts.first_sense_modifiers {
                return EventRoute::TranslationKey { digit, sense: 0 };
            }
            if pressed == facts.second_sense_modifiers {
                return EventRoute::TranslationKey { digit, sense: 1 };
            }
            if pressed == facts.delete_modifiers {
                return EventRoute::DeleteCandidate { digit };
            }
        }
    }
    let line_end = pressed.command && !pressed.control && (facts.key == 123 || facts.key == 124);
    if (pressed.command || pressed.control) && !line_end {
        return EventRoute::PassToApplication;
    }
    if let Some(selector) = selector_for_key(facts.key, pressed.shift, pressed.option, pressed.command) {
        return EventRoute::Command(selector);
    }
    if facts.has_text {
        EventRoute::Text
    } else {
        EventRoute::PassToApplication
    }
}

/// What a key does while a translation of the selection is on screen.
#[derive(Clone, Copy, Debug, PartialEq, Eq, Structural)]
pub enum ReviewAction {
    /// Return, keypad Enter, Space or 1: replace the selection (once the
    /// translation has arrived); the key is consumed.
    Accept,
    /// Escape: abandon; the key is consumed.
    Abandon,
    /// Any other key: abandon and give the key to the application.
    Dismiss,
}

pub fn review_action(key: u16) -> (action: ReviewAction)
    ensures
        action == (if key == 36 || key == 76 || key == 49 || key == 18 {
            ReviewAction::Accept
        } else if key == 53 {
            ReviewAction::Abandon
        } else {
            ReviewAction::Dismiss
        }),
{
    match key {
        36 | 76 | 49 | 18 => ReviewAction::Accept,
        53 => ReviewAction::Abandon,
        _ => ReviewAction::Dismiss,
    }
}

/// What an editing command does.
#[derive(Clone, Copy, Debug, PartialEq, Eq, Structural)]
pub enum CommandAction {
    /// Not composing, Backspace deletes application text: note a possible undo of the last word.
    NoteBackspace,
    /// Not composing, deleting a word or a line: the undo bookkeeping is dropped.
    BreakChain,
    /// Not composing, Return goes to the application as a paragraph break.
    NoteNewline,
    /// Not composing, anything else: just pass.
    PassThrough,
    /// Delete the letter before the cursor and refresh.
    Backspace,
    /// Delete the syllable before the cursor and refresh.
    DeleteSyllable,
    /// Delete all pinyin before the cursor and refresh.
    DeleteToStart,
    /// Commit the raw letters.
    CommitRaw,
    /// Collapse the grid if it is open, otherwise clear the composition.
    Cancel,
    /// Commit the highlighted word (English mode), else accept the sentence
    /// completion, else turn a page forward.
    Tab,
    /// Delete the letter after the cursor and refresh.
    DeleteForward,
    /// Move the highlight up or down.
    Highlight(isize),
    /// Move within the candidates if they take left / right, else move the cursor.
    Cells(isize),
    /// Cursor one syllable to the left.
    SyllableLeft,
    /// Cursor one syllable to the right.
    SyllableRight,
    /// Cursor to the start.
    CursorHome,
    /// Cursor to the end.
    CursorEnd,
    /// Turn pages.
    TurnPage(isize),
    /// Unknown command while composing: swallowed so the application does not
    /// move its cursor or drop the marked text.
    Swallow,
}

/// The action of an editing command.
pub open spec fn spec_command_action(selector: Selector, composing: bool) -> CommandAction {
    if !composing {
        match selector {
            Selector::DeleteBackward => CommandAction::NoteBackspace,
            Selector::DeleteWordBackward => CommandAction::BreakChain,
            Selector::DeleteToBeginningOfLine => CommandAction::BreakChain,
            Selector::InsertNewline => CommandAction::NoteNewline,
            _ => CommandAction::PassThrough,
        }
    } else {
        match selector {
            Selector::DeleteBackward => CommandAction::Backspace,
            Selector::DeleteWordBackward => CommandAction::DeleteSyllable,
            Selector::DeleteToBeginningOfLine => CommandAction::DeleteToStart,
            Selector::InsertNewline => CommandAction::CommitRaw,
            Selector::CancelOperation => CommandAction::Cancel,
            Selector::Complete => CommandAction::Cancel,
            Selector::InsertTab => CommandAction::Tab,
            Selector::DeleteForward => CommandAction::DeleteForward,
            Selector::MoveDown => CommandAction::Highlight(1isize),
            Selector::MoveUp => CommandAction::Highlight(-1isize),
            Selector::MoveLeft => CommandAction::Cells(-1isize),
            Selector::MoveRight => CommandAction::Cells(1isize),
            Selector::MoveWordLeft => CommandAction::SyllableLeft,
            Selector::MoveWordRight => CommandAction::SyllableRight,
            Selector::MoveToBeginningOfLine => CommandAction::CursorHome,
            Selector::MoveToLeftEndOfLine => CommandAction::CursorHome,
            Selector::MoveToEndOfLine => CommandAction::CursorEnd,
            Selector::MoveToRightEndOfLine => CommandAction::CursorEnd,
            Selector::PageDown => CommandAction::TurnPage(1isize),
            Selector::ScrollPageDown => CommandAction::TurnPage(1isize),
            Selector::PageUp => CommandAction::TurnPage(-1isize),
            Selector::ScrollPageUp => CommandAction::TurnPage(-1isize),
            Selector::InsertBacktab => CommandAction::TurnPage(-1isize),
            Selector::Other => CommandAction::Swallow,
        }
    }
}

/// The action of an editing command; see [`CommandAction`].
pub fn command_action(selector: Selector, composing: bool) -> (action: CommandAction)
    ensures
        action == spec_command_action(selector, composing),
{
    if !composing {
        return match selector {
            Selector::DeleteBackward => CommandAction::NoteBackspace,
            Selector::DeleteWordBackward => CommandAction::BreakChain,
            Selector::DeleteToBeginningOfLine => CommandAction::BreakChain,
            Selector::InsertNewline => CommandAction::NoteNewline,
            _ => CommandAction::PassThrough,
        };
    }
    match selector {
        Selector::DeleteBackward => CommandAction::Backspace,
        Selector::DeleteWordBackward => CommandAction::DeleteSyllable,
        Selector::DeleteToBeginningOfLine => CommandAction::DeleteToStart,
        Selector::InsertNewline => CommandAction::CommitRaw,
        Selector::CancelOperation => CommandAction::Cancel,
        Selector::Complete => CommandAction::Cancel,
        Selector::InsertTab => CommandAction::Tab,
        Selector::DeleteForward => CommandAction::DeleteForward,
        Selector::MoveDown => CommandAction::Highlight(1),
        Selector::MoveUp => CommandAction::Highlight(-1),
        Selector::MoveLeft => CommandAction::Cells(-1),
        Selector::MoveRight => CommandAction::Cells(1),
        Selector::MoveWordLeft => CommandAction::SyllableLeft,
        Selector::MoveWordRight => CommandAction::SyllableRight,
        Selector::MoveToBeginningOfLine => CommandAction::CursorHome,
        Selector::MoveToLeftEndOfLine => CommandAction::CursorHome,
        Selector::MoveToEndOfLine => CommandAction::CursorEnd,
        Selector::MoveToRightEndOfLine => CommandAction::CursorEnd,
        Selector::PageDown => CommandAction::TurnPage(1),
        Selector::ScrollPageDown => CommandAction::TurnPage(1),
        Selector::PageUp => CommandAction::TurnPage(-1),
        Selector::ScrollPageUp => CommandAction::TurnPage(-1),
        Selector::InsertBacktab => CommandAction::TurnPage(-1),
        Selector::Other => CommandAction::Swallow,
    }
}

/// Whether a lone `?` in the buffer is first restored (committed as a
/// question mark) before the command runs: while composing, for every command
/// but the three deletions, Escape and `complete:`.
pub fn restores_question_first(selector: Selector, composing: bool) -> (restores: bool)
    ensures
        restores == (composing && selector != Selector::DeleteBackward && selector
            != Selector::DeleteWordBackward && selector != Selector::DeleteToBeginningOfLine
            && selector != Selector::CancelOperation && selector != Selector::Complete),
{
    composing && selector != Selector::DeleteBackward && selector != Selector::DeleteWordBackward
        && selector != Selector::DeleteToBeginningOfLine && selector
        != Selector::CancelOperation && selector != Selector::Complete
}

/// Whether the command is consumed (not handed on to the application):
/// never outside a composition; after restoring a lone `?` only Return is
/// consumed (it stands for committing the `?`); otherwise always.
pub fn command_consumed(selector: Selector, composing: bool, restored: bool) -> (consumed: bool)
    ensures
        consumed == (composing && (!restored || selector == Selector::InsertNewline)),
{
    if !composing {
        false
    } else if restored {
        selector == Selector::InsertNewline
    } else {
        true
    }
}

/// The most characters of a selection sent for translation.
pub const MAX_TRANSLATE_CHARS: usize = 500;

/// Whether a refresh reads the text before the cursor for the sentence
/// model: only on the first letter of a composition, when a model is
/// attached or still loading, and never under Secure Input.
pub fn reads_context(
    has_scorer: bool,
    model_loading: bool,
    composed_chars: usize,
    secure_input: bool,
) -> (reads: bool)
    ensures
        reads == ((has_scorer || model_loading) && composed_chars == 1 && !secure_input),
{
    (has_scorer || model_loading) && composed_chars == 1 && !secure_input
}

/// The marked text put in the application: the composition and its cursor
/// when pinyin is shown inline, else nothing (the pinyin is only in the
/// candidate window).
pub fn shown_marked_text(inline: bool, marked: String, cursor: usize) -> (shown: (String, usize))
    ensures
        inline ==> shown.0@ == marked@ && shown.1 == cursor,
        !inline ==> shown.0@.len() == 0 && shown.1 == 0,
{
    if inline {
        (marked, cursor)
    } else {
        (String::new(), 0)
    }
}

/// What happens to a prediction request.
#[derive(Clone, Copy, Debug, PartialEq, Eq, Structural)]
pub enum PredictionStep {
    /// The cloud is off: nothing is sent.
    Skip,
    /// Secure Input is on: nothing is sent and a pending request is cancelled.
    Cancel,
    /// Read the surrounding text and send the request.
    Request,
}

pub fn prediction_step(cloud_enabled: bool, secure_input: bool) -> (step: PredictionStep)
    ensures
        step == (if !cloud_enabled {
            PredictionStep::Skip
        } else if secure_input {
            PredictionStep::Cancel
        } else {
            PredictionStep::Request
        }),
{
    if !cloud_enabled {
        PredictionStep::Skip
    } else if secure_input {
        PredictionStep::Cancel
    } else {
        PredictionStep::Request
    }
}

/// What the translate-selection shortcut does.
#[derive(Clone, Copy, Debug, PartialEq, Eq, Structural)]
pub enum SelectionStep {
    /// The cloud is off, Secure Input is on, or no selection could be read:
    /// nothing happens and the key goes to the application.
    Decline,
    /// Send the selection for translation.
    Request,
}

/// The step of the translate-selection shortcut, given whether a selection
/// (of at most [`MAX_TRANSLATE_CHARS`] characters) could be read: only with
/// the cloud on, outside Secure Input and with a selection is a translation
/// requested.
pub fn selection_step(
    cloud_enabled: bool,
    secure_input: bool,
    selection_read: bool,
) -> (step: SelectionStep)
    ensures
        step == (if cloud_enabled && !secure_input && selection_read {
            SelectionStep::Request
        } else {
            SelectionStep::Decline
        }),
{
    if cloud_enabled && !secure_input && selection_read {
        SelectionStep::Request
    } else {
        SelectionStep::Decline
    }
}

/// The slot on the page that a digit key (1 to 9) names.
pub fn digit_slot(digit: usize) -> (slot: usize)
    requires
        1 <= digit,
    ensures
        slot == digit - 1,
{
    digit - 1
}


/// While composing, every move has a direction and a unit step: Up moves
/// the highlight back one (-1) and Down forward one (+1); Left and Right
/// move one cell back and forward; Page Up, scrolling up and Shift+Tab turn
/// one page back, Page Down and scrolling down one page forward. Outside a
/// composition no command moves anything in the candidates.
pub proof fn lemma_moves_have_direction(selector: Selector, composing: bool)
    ensures
        composing && selector == Selector::MoveUp ==> spec_command_action(selector, composing)
            == CommandAction::Highlight(-1isize),
        composing && selector == Selector::MoveDown ==> spec_command_action(selector, composing)
            == CommandAction::Highlight(1isize),
        composing && selector == Selector::MoveLeft ==> spec_command_action(selector, composing)
            == CommandAction::Cells(-1isize),
        composing && selector == Selector::MoveRight ==> spec_command_action(selector, composing)
            == CommandAction::Cells(1isize),
        composing && (selector == Selector::PageUp || selector == Selector::ScrollPageUp
            || selector == Selector::InsertBacktab) ==> spec_command_action(selector, composing)
            == CommandAction::TurnPage(-1isize),
        composing && (selector == Selector::PageDown || selector == Selector::ScrollPageDown)
            ==> spec_command_action(selector, composing) == CommandAction::TurnPage(1isize),
        spec_command_action(selector, composing) matches CommandAction::Highlight(d) ==> composing
            && (d == -1 <==> selector == Selector::MoveUp) && (d == 1 <==> selector
            == Selector::MoveDown),
        spec_command_action(selector, composing) matches CommandAction::Cells(d) ==> composing
            && (d == -1 <==> selector == Selector::MoveLeft) && (d == 1 <==> selector
            == Selector::MoveRight),
        spec_command_action(selector, composing) matches CommandAction::TurnPage(d) ==> composing
            && (d == -1 || d == 1),
{
}

/// The arrow and page keys stand for their commands whatever modifiers are
/// held: Up (126) and Down (125) for `moveUp:` / `moveDown:`, Page Up (116)
/// and Page Down (121) for `pageUp:` / `pageDown:`, Home (115) and End (119)
/// for the line ends; and while composing Up moves the highlight back, Down
/// forward, Page Up turns a page back and Page Down forward.
pub proof fn lemma_arrow_and_page_keys(shift: bool, option: bool, command: bool)
    ensures
        spec_selector_for_key(126, shift, option, command) == Some(Selector::MoveUp),
        spec_selector_for_key(125, shift, option, command) == Some(Selector::MoveDown),
        spec_selector_for_key(116, shift, option, command) == Some(Selector::PageUp),
        spec_selector_for_key(121, shift, option, command) == Some(Selector::PageDown),
        spec_selector_for_key(115, shift, option, command) == Some(
            Selector::MoveToBeginningOfLine,
        ),
        spec_selector_for_key(119, shift, option, command) == Some(Selector::MoveToEndOfLine),
        spec_command_action(spec_selector_for_key(126, shift, option, command)->0, true)
            == CommandAction::Highlight(-1isize),
        spec_command_action(spec_selector_for_key(125, shift, option, command)->0, true)
            == CommandAction::Highlight(1isize),
        spec_command_action(spec_selector_for_key(116, shift, option, command)->0, true)
            == CommandAction::TurnPage(-1isize),
        spec_command_action(spec_selector_for_key(121, shift, option, command)->0, true)
            == CommandAction::TurnPage(1isize),
{
}

/// Different keys that take no modifier into account never share a
/// command: Up, Down, Page Up, Page Down, Home, End, Forward Delete and
/// Escape each have their own.
pub proof fn lemma_distinct_keys_distinct_commands(a: u16, b: u16, shift: bool, option: bool, command: bool)
    requires
        a != b,
        a == 126 || a == 125 || a == 116 || a == 121 || a == 115 || a == 119 || a == 117 || a == 53,
        b == 126 || b == 125 || b == 116 || b == 121 || b == 115 || b == 119 || b == 117 || b == 53,
    ensures
        spec_selector_for_key(a, shift, option, command) is Some,
        spec_selector_for_key(a, shift, option, command) != spec_selector_for_key(
            b,
            shift,
            option,
            command,
        ),
{
}

/// Where a key event goes, by what it takes: a pending translation review
/// takes exactly the presses made while it is on screen; the translate
/// shortcut is taken exactly when the modifiers held are its modifiers, the
/// key types its key, and nothing is being composed; the editing commands
/// never see a Control combination, nor a Command one but Command + Left /
/// Right; text is only what types something with neither Command nor Control
/// held; a Control combination, or a Command one but Command + Left / Right,
/// that is not one of the shortcuts above goes to the application, also while
/// composing; and a key release always goes to the application.
pub proof fn lemma_route_event(f: KeyFacts)
    ensures
        !f.key_down ==> spec_route_event(f) == EventRoute::PassToApplication,
        (spec_route_event(f) == EventRoute::ReviewTranslation) == (f.key_down
            && f.reviewing_translation),
        (spec_route_event(f) == EventRoute::TranslateSelection) == (f.key_down
            && !f.reviewing_translation && f.pressed == f.translate_modifiers && f.typed == Some(
            f.translate_key,
        ) && !f.composing),
        spec_route_event(f) is Command ==> !f.pressed.control && (!f.pressed.command || f.key
            == 123 || f.key == 124),
        spec_route_event(f) is Text ==> f.has_text && !f.pressed.command && !f.pressed.control,
        spec_route_event(f) is TranslationKey || spec_route_event(f) is DeleteCandidate
            ==> f.composing && !f.expression_mode && !f.pressed.none_held(),
        f.key_down && !f.reviewing_translation && !(f.pressed == f.translate_modifiers && f.typed
            == Some(f.translate_key) && !f.composing) && !(f.composing && (f.pressed
            == f.first_sense_modifiers || f.pressed == f.second_sense_modifiers || f.pressed
            == f.delete_modifiers)) && (f.pressed.control || (
        f.pressed.command && f.key != 123 && f.key != 124)) ==> spec_route_event(f)
            == EventRoute::PassToApplication,
{
}


/// Each digit 1-9 has exactly two keys, one on the number row (codes below
/// 83) and one on the keypad; the keypad keys 1 to 7 follow their codes in
/// order (83 is 1), and so do the number-row keys 1 to 4 (18 is 1).
pub proof fn lemma_digit_keys(a: u16, b: u16)
    ensures
        spec_digit_key(a) matches Some(d) ==> 1 <= d <= 9,
        83 <= a <= 89 ==> spec_digit_key(a) == Some((a - 82) as usize),
        18 <= a <= 21 ==> spec_digit_key(a) == Some((a - 17) as usize),
        a != b && spec_digit_key(a) is Some && spec_digit_key(a) == spec_digit_key(b) ==> (a < 83
            <==> b >= 83),
{
}

} // verus!
