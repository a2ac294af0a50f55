use qingjian_shell::tsf::{
    document_ops, is_control, is_edit_vk, is_letter_vk, is_nav_vk, key_reply, key_step,
    needs_document_update, resolve_char, to_key_event, would_eat, DocOp, KeyModifiers, KeyStep,
    PipeConnect, ReplyError, ServerReply, BUSY_RETRIES,
};

const PLAIN: KeyModifiers = KeyModifiers {
    ctrl: false,
    shift: false,
    alt: false,
    win: false,
};

#[test]
fn virtual_key_classes() {
    assert!(is_letter_vk(0x41) && is_letter_vk(0x5A));
    assert!(!is_letter_vk(0x40) && !is_letter_vk(0x5B));
    for vk in [0x08, 0x0D, 0x1B, 0x20, 0x30, 0x39] {
        assert!(is_edit_vk(vk));
    }
    assert!(!is_edit_vk(0x2F) && !is_edit_vk(0x3A));
    assert!(is_nav_vk(0x21) && is_nav_vk(0x28));
    assert!(!is_nav_vk(0x20) && !is_nav_vk(0x29));
}

#[test]
fn keys_resolve_to_us_layout_characters() {
    assert_eq!(resolve_char(0x41, false), Some('a'));
    assert_eq!(resolve_char(0x5A, true), Some('z'));
    assert_eq!(resolve_char(0x30, false), Some('0'));
    assert_eq!(resolve_char(0x31, true), Some('!'));
    assert_eq!(resolve_char(0x30, true), Some(')'));
    assert_eq!(resolve_char(0x39, true), Some('('));
    assert_eq!(resolve_char(0x20, true), Some(' '));
    assert_eq!(resolve_char(0xBA, false), Some(';'));
    assert_eq!(resolve_char(0xBA, true), Some(':'));
    assert_eq!(resolve_char(0xDE, true), Some('"'));
    assert_eq!(resolve_char(0xDC, false), Some('\\'));
    assert_eq!(resolve_char(0x0D, false), None);
    assert_eq!(resolve_char(0x70, false), None);
}

#[test]
fn control_characters() {
    assert!(is_control('\u{0}') && is_control('\u{1f}') && is_control('\u{7f}'));
    assert!(is_control('\u{9f}'));
    assert!(!is_control(' ') && !is_control('a') && !is_control('\u{a0}'));
}

#[test]
fn shortcuts_always_pass_and_letters_always_eat() {
    let ctrl_z = to_key_event(0x5A, KeyModifiers { ctrl: true, ..PLAIN });
    assert!(!would_eat(true, &ctrl_z));
    assert!(!would_eat(false, &ctrl_z));
    let win_a = to_key_event(0x41, KeyModifiers { win: true, ..PLAIN });
    assert!(!would_eat(false, &win_a));
    let a = to_key_event(0x41, PLAIN);
    assert!(would_eat(false, &a));
    assert!(would_eat(true, &a));
    let shift_a = to_key_event(0x41, KeyModifiers { shift: true, ..PLAIN });
    assert!(would_eat(false, &shift_a));
}

#[test]
fn editing_keys_are_eaten_only_while_composing() {
    for vk in [0x08, 0x0D, 0x1B, 0x20, 0x35, 0x25, 0xBC] {
        let event = to_key_event(vk, PLAIN);
        assert!(would_eat(true, &event), "vk {vk:#x}");
        assert!(!would_eat(false, &event), "vk {vk:#x}");
    }
    // a function key types nothing and is not eaten
    let f1 = to_key_event(0x70, PLAIN);
    assert!(!would_eat(true, &f1));
}

#[test]
fn key_steps_follow_the_eating_rule() {
    let a = to_key_event(0x41, PLAIN);
    assert_eq!(key_step(false, true, &a), KeyStep::Forward);
    assert_eq!(key_step(false, false, &a), KeyStep::SwallowOffline);
    let space = to_key_event(0x20, PLAIN);
    assert_eq!(key_step(false, true, &space), KeyStep::PassThrough);
    assert_eq!(key_step(true, true, &space), KeyStep::Forward);
}

#[test]
fn the_document_is_touched_only_when_something_changes() {
    assert!(!needs_document_update(false, true, false, false));
    assert!(needs_document_update(true, true, false, false));
    assert!(needs_document_update(false, false, false, false));
    // the last letter was deleted: the composition handle still has to be closed
    assert!(needs_document_update(false, true, false, true));
    assert!(needs_document_update(false, true, true, false));
}

#[test]
fn only_a_key_result_answers_a_key() {
    assert_eq!(key_reply(Some(ServerReply::KeyResult(5))), Ok(5));
    assert_eq!(
        key_reply::<i32>(Some(ServerReply::Update)),
        Err(ReplyError::Unexpected("update before key result"))
    );
    assert_eq!(
        key_reply::<i32>(Some(ServerReply::RequestSurrounding)),
        Err(ReplyError::Unexpected("surrounding request before key result"))
    );
    assert_eq!(key_reply::<i32>(None), Err(ReplyError::Closed));
}

#[test]
fn document_steps_for_each_key_result() {
    // first letter: start a composition and show the window
    assert_eq!(document_ops(false, false, false), vec![DocOp::StartComposition, DocOp::SetPreedit, DocOp::ShowWindow]);
    // next letter: update the composition
    assert_eq!(document_ops(false, true, false), vec![DocOp::SetPreedit, DocOp::ShowWindow]);
    // last letter deleted: the composition still has to be ended
    assert_eq!(document_ops(false, true, true), vec![DocOp::EndComposition, DocOp::HideWindow]);
    // a word committed: replace the composition with it
    assert_eq!(document_ops(true, true, true), vec![DocOp::ReplaceComposition, DocOp::HideWindow]);
    // committed while typing goes on: commit, then a new composition
    assert_eq!(
        document_ops(true, true, false),
        vec![DocOp::ReplaceComposition, DocOp::StartComposition, DocOp::SetPreedit, DocOp::ShowWindow]
    );
    // punctuation outside a composition: insert it at the selection
    assert_eq!(document_ops(true, false, true), vec![DocOp::InsertAtSelection, DocOp::HideWindow]);
}

#[test]
fn a_busy_pipe_is_waited_for_once() {
    let mut connect = PipeConnect::new();
    assert!(!connect.retry_after_failure(false));
    assert!(connect.retry_after_failure(true));
    assert_eq!(connect.attempts, BUSY_RETRIES);
    assert!(!connect.retry_after_failure(true));
    assert_eq!(connect.attempts, 1);
}
