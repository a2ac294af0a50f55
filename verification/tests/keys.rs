use qingjian_shell::keys::{
    command_action, command_consumed, digit_key, digit_slot,
    prediction_step, reads_context, restores_question_first, review_action, route_event,
    selection_step, selector_for_key, shown_marked_text, CommandAction, EventRoute, KeyFacts,
    Modifiers, PredictionStep, ReviewAction, Selector, SelectionStep, MAX_TRANSLATE_CHARS,
};

const NONE: Modifiers = Modifiers {
    option: false,
    shift: false,
    control: false,
    command: false,
};
const OPTION: Modifiers = Modifiers {
    option: true,
    ..NONE
};
const SHIFT: Modifiers = Modifiers {
    shift: true,
    ..NONE
};
const SHIFT_OPTION: Modifiers = Modifiers {
    option: true,
    shift: true,
    ..NONE
};
const COMMAND: Modifiers = Modifiers {
    command: true,
    ..NONE
};
const CONTROL: Modifiers = Modifiers {
    control: true,
    ..NONE
};
const COMMAND_CONTROL: Modifiers = Modifiers {
    command: true,
    control: true,
    ..NONE
};

fn facts(key: u16, pressed: Modifiers) -> KeyFacts {
    KeyFacts {
        key_down: true,
        key,
        pressed,
        reviewing_translation: false,
        typed: None,
        translate_modifiers: COMMAND_CONTROL,
        translate_key: 't',
        composing: false,
        expression_mode: false,
        first_sense_modifiers: OPTION,
        second_sense_modifiers: SHIFT_OPTION,
        delete_modifiers: SHIFT,
        has_text: true,
    }
}

#[test]
fn digit_keys_cover_the_number_row_and_the_keypad() {
    let row = [18, 19, 20, 21, 23, 22, 26, 28, 25];
    let pad = [83, 84, 85, 86, 87, 88, 89, 91, 92];
    for (i, (&a, &b)) in row.iter().zip(pad.iter()).enumerate() {
        assert_eq!(digit_key(a), Some(i + 1));
        assert_eq!(digit_key(b), Some(i + 1));
    }
    assert_eq!(digit_key(29), None);
    assert_eq!(digit_key(82), None);
    assert_eq!(digit_key(0), None);
}

#[test]
fn command_keys_map_to_selectors() {
    assert_eq!(selector_for_key(36, false, false, false), Some(Selector::InsertNewline));
    assert_eq!(selector_for_key(76, false, false, false), Some(Selector::InsertNewline));
    assert_eq!(selector_for_key(48, true, false, false), Some(Selector::InsertBacktab));
    assert_eq!(selector_for_key(48, false, false, false), Some(Selector::InsertTab));
    assert_eq!(selector_for_key(51, false, true, false), Some(Selector::DeleteWordBackward));
    assert_eq!(selector_for_key(51, false, false, true), Some(Selector::DeleteToBeginningOfLine));
    assert_eq!(selector_for_key(51, false, false, false), Some(Selector::DeleteBackward));
    assert_eq!(selector_for_key(123, false, true, true), Some(Selector::MoveToLeftEndOfLine));
    assert_eq!(selector_for_key(124, false, true, false), Some(Selector::MoveWordRight));
    assert_eq!(selector_for_key(121, false, false, false), Some(Selector::PageDown));
    assert_eq!(selector_for_key(0, false, false, false), None);
}

#[test]
fn key_events_are_routed_in_order_of_precedence() {
    // key releases never reach us
    let mut f = facts(0, NONE);
    f.key_down = false;
    assert_eq!(route_event(&f), EventRoute::PassToApplication);
    // a pending translation takes every key
    let mut f = facts(36, NONE);
    f.reviewing_translation = true;
    assert_eq!(route_event(&f), EventRoute::ReviewTranslation);
    // the translate shortcut works only outside a composition
    let mut f = facts(17, COMMAND_CONTROL);
    f.typed = Some('t');
    assert_eq!(route_event(&f), EventRoute::TranslateSelection);
    f.composing = true;
    assert_eq!(route_event(&f), EventRoute::PassToApplication);
    // modifier + digit while composing
    let mut f = facts(19, OPTION);
    f.composing = true;
    assert_eq!(route_event(&f), EventRoute::TranslationKey { digit: 2, sense: 0 });
    f.pressed = SHIFT_OPTION;
    assert_eq!(route_event(&f), EventRoute::TranslationKey { digit: 2, sense: 1 });
    f.pressed = SHIFT;
    assert_eq!(route_event(&f), EventRoute::DeleteCandidate { digit: 2 });
    // not in expression mode, where shift + digit types symbols
    f.expression_mode = true;
    assert_eq!(route_event(&f), EventRoute::Text);
    // and not outside a composition, where shift + 4 is `$`
    let f = facts(21, SHIFT);
    assert_eq!(route_event(&f), EventRoute::Text);
    // command keys
    assert_eq!(route_event(&facts(53, NONE)), EventRoute::Command(Selector::CancelOperation));
    // other Command combinations belong to the application
    assert_eq!(route_event(&facts(8, COMMAND)), EventRoute::PassToApplication);
    // and so do Control combinations and Command keys other than left / right,
    // even while composing
    let mut f = facts(126, CONTROL);
    f.composing = true;
    assert_eq!(route_event(&f), EventRoute::PassToApplication);
    f.pressed = COMMAND;
    assert_eq!(route_event(&f), EventRoute::PassToApplication);
    assert_eq!(route_event(&facts(36, COMMAND)), EventRoute::PassToApplication);
    assert_eq!(route_event(&facts(51, COMMAND)), EventRoute::PassToApplication);
    assert_eq!(route_event(&facts(123, CONTROL)), EventRoute::PassToApplication);
    // Command + left / right move to the line ends
    assert_eq!(
        route_event(&facts(123, COMMAND)),
        EventRoute::Command(Selector::MoveToLeftEndOfLine)
    );
    assert_eq!(
        route_event(&facts(124, COMMAND)),
        EventRoute::Command(Selector::MoveToRightEndOfLine)
    );
    // the rest is text, if there is any
    assert_eq!(route_event(&facts(0, NONE)), EventRoute::Text);
    let mut f = facts(0, NONE);
    f.has_text = false;
    assert_eq!(route_event(&f), EventRoute::PassToApplication);
}

#[test]
fn translation_review_keys() {
    for key in [36, 76, 49, 18] {
        assert_eq!(review_action(key), ReviewAction::Accept);
    }
    assert_eq!(review_action(53), ReviewAction::Abandon);
    assert_eq!(review_action(0), ReviewAction::Dismiss);
}

#[test]
fn commands_outside_a_composition_go_to_the_application() {
    assert_eq!(command_action(Selector::DeleteBackward, false), CommandAction::NoteBackspace);
    assert_eq!(command_action(Selector::DeleteWordBackward, false), CommandAction::BreakChain);
    assert_eq!(
        command_action(Selector::DeleteToBeginningOfLine, false),
        CommandAction::BreakChain
    );
    assert_eq!(command_action(Selector::InsertNewline, false), CommandAction::NoteNewline);
    assert_eq!(command_action(Selector::MoveUp, false), CommandAction::PassThrough);
    assert!(!command_consumed(Selector::InsertNewline, false, false));
    assert!(!restores_question_first(Selector::InsertNewline, false));
}

#[test]
fn commands_while_composing_edit_the_composition() {
    assert_eq!(command_action(Selector::DeleteBackward, true), CommandAction::Backspace);
    assert_eq!(command_action(Selector::InsertNewline, true), CommandAction::CommitRaw);
    assert_eq!(command_action(Selector::Complete, true), CommandAction::Cancel);
    assert_eq!(command_action(Selector::MoveDown, true), CommandAction::Highlight(1));
    assert_eq!(command_action(Selector::MoveLeft, true), CommandAction::Cells(-1));
    assert_eq!(command_action(Selector::InsertBacktab, true), CommandAction::TurnPage(-1));
    assert_eq!(command_action(Selector::ScrollPageDown, true), CommandAction::TurnPage(1));
    assert_eq!(command_action(Selector::Other, true), CommandAction::Swallow);
    assert!(command_consumed(Selector::Other, true, false));
}

#[test]
fn a_lone_question_mark_is_restored_before_most_commands() {
    assert!(restores_question_first(Selector::InsertNewline, true));
    assert!(restores_question_first(Selector::MoveUp, true));
    assert!(!restores_question_first(Selector::DeleteBackward, true));
    assert!(!restores_question_first(Selector::CancelOperation, true));
    assert!(!restores_question_first(Selector::Complete, true));
    // Return then stands for committing the `?`; other keys go on to the application
    assert!(command_consumed(Selector::InsertNewline, true, true));
    assert!(!command_consumed(Selector::MoveUp, true, true));
}

#[test]
fn the_context_is_read_on_the_first_letter_only() {
    assert!(reads_context(true, false, 1, false));
    assert!(reads_context(false, true, 1, false));
    assert!(!reads_context(false, false, 1, false));
    assert!(!reads_context(true, false, 2, false));
    assert!(!reads_context(true, false, 1, true));
}

#[test]
fn marked_text_only_when_inline() {
    assert_eq!(shown_marked_text(true, "ni".to_string(), 2), ("ni".to_string(), 2));
    assert_eq!(shown_marked_text(false, "ni".to_string(), 2), (String::new(), 0));
}

#[test]
fn predictions_need_the_cloud_and_no_secure_input() {
    assert_eq!(prediction_step(false, false), PredictionStep::Skip);
    assert_eq!(prediction_step(false, true), PredictionStep::Skip);
    assert_eq!(prediction_step(true, true), PredictionStep::Cancel);
    assert_eq!(prediction_step(true, false), PredictionStep::Request);
}

#[test]
fn translating_a_selection() {
    assert_eq!(selection_step(false, false, true), SelectionStep::Decline);
    assert_eq!(selection_step(true, true, true), SelectionStep::Decline);
    // with nothing selected the key goes back to the application
    assert_eq!(selection_step(true, false, false), SelectionStep::Decline);
    assert_eq!(selection_step(true, false, true), SelectionStep::Request);
    assert_eq!(MAX_TRANSLATE_CHARS, 500);
    assert_eq!(digit_slot(1), 0);
    assert_eq!(digit_slot(9), 8);
}
