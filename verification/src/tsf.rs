//! Key handling of the Windows text service: which virtual keys the input
//! method eats, what character a key types on a US layout, and when a key
//! result has to touch the document.

use vstd::prelude::*;

verus! {

/// Modifier keys held with a key.
#[derive(Clone, Copy, Debug, PartialEq, Eq, Structural)]
pub struct KeyModifiers {
    pub ctrl: bool,
    pub shift: bool,
    pub alt: bool,
    pub win: bool,
}

/// A key press as the server protocol carries it.
#[derive(Clone, Copy, Debug, PartialEq, Eq, Structural)]
pub struct KeyEvent {
    /// Windows virtual-key code.
    pub virtual_key: u32,
    /// The character the key types, if any.
    pub character: Option<char>,
    /// Modifiers held.
    pub modifiers: KeyModifiers,
}

/// A-Z (`0x41..=0x5A`).
pub open spec fn spec_is_letter_vk(vk: u32) -> bool {
    0x41 <= vk <= 0x5A
}

/// Editing keys eaten while composing: Backspace, Return, Escape, Space, digits.
pub open spec fn spec_is_edit_vk(vk: u32) -> bool {
    vk == 0x08 || vk == 0x0D || vk == 0x1B || vk == 0x20 || (0x30 <= vk <= 0x39)
}

/// Navigation keys eaten while composing: PageUp/Down, End, Home, arrows.
pub open spec fn spec_is_nav_vk(vk: u32) -> bool {
    0x21 <= vk <= 0x28
}

pub fn is_letter_vk(vk: u32) -> (letter: bool)
    ensures
        letter == spec_is_letter_vk(vk),
{
    0x41 <= vk && vk <= 0x5A
}

pub fn is_edit_vk(vk: u32) -> (edit: bool)
    ensures
        edit == spec_is_edit_vk(vk),
{
    vk == 0x08 || vk == 0x0D || vk == 0x1B || vk == 0x20 || (0x30 <= vk && vk <= 0x39)
}

pub fn is_nav_vk(vk: u32) -> (nav: bool)
    ensures
        nav == spec_is_nav_vk(vk),
{
    0x21 <= vk && vk <= 0x28
}

/// Unicode control characters (general category Cc).
pub open spec fn spec_is_control(c: char) -> bool {
    (c as u32) <= 0x1F || (0x7F <= (c as u32) && (c as u32) <= 0x9F)
}

/// `char::is_control`: the C0 and C1 control characters.
pub fn is_control(c: char) -> (control: bool)
    ensures
        control == spec_is_control(c),
{
    let code = c as u32;
    code <= 0x1F || (0x7F <= code && code <= 0x9F)
}

/// The symbol on the number row key of `digit` with Shift held (US layout).
pub open spec fn shifted_digit(digit: int) -> char {
    if digit == 0 {
        ')'
    } else if digit == 1 {
        '!'
    } else if digit == 2 {
        '@'
    } else if digit == 3 {
        '#'
    } else if digit == 4 {
        '$'
    } else if digit == 5 {
        '%'
    } else if digit == 6 {
        '^'
    } else if digit == 7 {
        '&'
    } else if digit == 8 {
        '*'
    } else {
        '('
    }
}

/// The unshifted and shifted characters of an OEM punctuation key (US layout).
pub open spec fn oem_chars(vk: u32) -> Option<(char, char)> {
    if vk == 0xBA {
        Some((';', ':'))
    } else if vk == 0xBB {
        Some(('=', '+'))
    } else if vk == 0xBC {
        Some((',', '<'))
    } else if vk == 0xBD {
        Some(('-', '_'))
    } else if vk == 0xBE {
        Some(('.', '>'))
    } else if vk == 0xBF {
        Some(('/', '?'))
    } else if vk == 0xC0 {
        Some(('`', '~'))
    } else if vk == 0xDB {
        Some(('[', '{'))
    } else if vk == 0xDC {
        Some(('\\', '|'))
    } else if vk == 0xDD {
        Some((']', '}'))
    } else if vk == 0xDE {
        Some(('\'', '"'))
    } else {
        None
    }
}

/// The character a virtual key types on a US layout: letters always lower
/// case, digits or their shifted symbols, space, and punctuation; `None` for
/// function keys.
pub open spec fn spec_resolve_char(vk: u32, shift: bool) -> Option<char> {
    if 0x41 <= vk <= 0x5A {
        Some(((vk - 0x41) + 0x61) as char)
    } else if 0x30 <= vk <= 0x39 {
        if shift {
            Some(shifted_digit(vk - 0x30))
        } else {
            Some(((vk - 0x30) + 0x30) as char)
        }
    } else if vk == 0x20 {
        Some(' ')
    } else {
        match oem_chars(vk) {
            Some((plain, shifted)) => Some(
                if shift {
                    shifted
                } else {
                    plain
                },
            ),
            None => None,
        }
    }
}

fn shifted_digit_char(digit: u32) -> (c: char)
    requires
        digit <= 9,
    ensures
        c == shifted_digit(digit as int),
{
    match digit {
        0 => ')',
        1 => '!',
        2 => '@',
        3 => '#',
        4 => '$',
        5 => '%',
        6 => '^',
        7 => '&',
        8 => '*',
        _ => '(',
    }
}

fn oem_pair(vk: u32) -> (pair: Option<(char, char)>)
    ensures
        pair == oem_chars(vk),
{
    match vk {
        0xBA => Some((';', ':')),
        0xBB => Some(('=', '+')),
        0xBC => Some((',', '<')),
        0xBD => Some(('-', '_')),
        0xBE => Some(('.', '>')),
        0xBF => Some(('/', '?')),
        0xC0 => Some(('`', '~')),
        0xDB => Some(('[', '{')),
        0xDC => Some(('\\', '|')),
        0xDD => Some((']', '}')),
        0xDE => Some(('\'', '"')),
        _ => None,
    }
}

/// Virtual key + Shift to character (US layout).
pub fn resolve_char(vk: u32, shift: bool) -> (c: Option<char>)
    ensures
        c == spec_resolve_char(vk, shift),
{
    if 0x41 <= vk && vk <= 0x5A {
        let byte: u8 = (0x61 + (vk - 0x41)) as u8;
        return Some(byte as char);
    }
    if 0x30 <= vk && vk <= 0x39 {
        let digit = vk - 0x30;
        if shift {
            return Some(shifted_digit_char(digit));
        }
        let byte: u8 = (0x30 + digit) as u8;
        return Some(byte as char);
    }
    if vk == 0x20 {
        return Some(' ');
    }
    match oem_pair(vk) {
        Some((plain, shifted)) => Some(
            if shift {
                shifted
            } else {
                plain
            },
        ),
        None => None,
    }
}

/// The protocol event of a virtual key with the current modifiers.
pub fn to_key_event(vk: u32, modifiers: KeyModifiers) -> (event: KeyEvent)
    ensures
        event.virtual_key == vk,
        event.modifiers == modifiers,
        event.character == spec_resolve_char(vk, modifiers.shift),
{
    let character = resolve_char(vk, modifiers.shift);
    KeyEvent { virtual_key: vk, character, modifiers }
}

/// Whether the text service eats a key: never with Ctrl / Alt / Win (those
/// are application shortcuts); letters always (they start or continue a
/// composition); while composing also editing keys, navigation keys and any
/// printable character.
pub open spec fn spec_would_eat(composing: bool, event: KeyEvent) -> bool {
    if event.modifiers.ctrl || event.modifiers.alt || event.modifiers.win {
        false
    } else if spec_is_letter_vk(event.virtual_key) {
        true
    } else {
        composing && (spec_is_edit_vk(event.virtual_key) || spec_is_nav_vk(event.virtual_key)
            || (event.character matches Some(c) && !spec_is_control(c)))
    }
}

pub fn would_eat(composing: bool, event: &KeyEvent) -> (eat: bool)
    ensures
        eat == spec_would_eat(composing, *event),
{
    let modifiers = event.modifiers;
    if modifiers.ctrl || modifiers.alt || modifiers.win {
        return false;
    }
    let vk = event.virtual_key;
    if is_letter_vk(vk) {
        return true;
    }
    let printable = match event.character {
        Some(c) => !is_control(c),
        None => false,
    };
    composing && (is_edit_vk(vk) || is_nav_vk(vk) || printable)
}

/// First step of handling a key.
#[derive(Clone, Copy, Debug, PartialEq, Eq, Structural)]
pub enum KeyStep {
    /// Not ours: the application gets the key, the composition is untouched.
    PassThrough,
    /// Ours, but the server is not connected: eat it so it does not leak
    /// into the application.
    SwallowOffline,
    /// Forward the key to the server.
    Forward,
}

pub fn key_step(composing: bool, connected: bool, event: &KeyEvent) -> (step: KeyStep)
    ensures
        !spec_would_eat(composing, *event) ==> step == KeyStep::PassThrough,
        spec_would_eat(composing, *event) && !connected ==> step == KeyStep::SwallowOffline,
        spec_would_eat(composing, *event) && connected ==> step == KeyStep::Forward,
{
    if !would_eat(composing, event) {
        KeyStep::PassThrough
    } else if !connected {
        KeyStep::SwallowOffline
    } else {
        KeyStep::Forward
    }
}

/// Whether a key result needs an edit session on the document: something to
/// commit, a composition line to show, or a composition still to be closed
/// (the last letter was just deleted but the composition handle remains).
pub fn needs_document_update(
    commit: bool,
    preedit_empty: bool,
    composing: bool,
    has_composition: bool,
) -> (needed: bool)
    ensures
        needed == (commit || !preedit_empty || composing || has_composition),
{
    !(!commit && preedit_empty && !composing && !has_composition)
}

/// Ctrl / Alt / Win combinations always go to the application.
pub proof fn lemma_shortcuts_pass(composing: bool, event: KeyEvent)
    requires
        event.modifiers.ctrl || event.modifiers.alt || event.modifiers.win,
    ensures
        !spec_would_eat(composing, event),
{
}

/// Letters without Ctrl / Alt / Win are eaten whether composing or not.
pub proof fn lemma_letters_always_eaten(composing: bool, event: KeyEvent)
    requires
        !event.modifiers.ctrl && !event.modifiers.alt && !event.modifiers.win,
        spec_is_letter_vk(event.virtual_key),
    ensures
        spec_would_eat(composing, event),
        spec_would_eat(!composing, event),
{
}

/// Outside a composition only letters are eaten.
pub proof fn lemma_idle_eats_only_letters(event: KeyEvent)
    ensures
        spec_would_eat(false, event) ==> spec_is_letter_vk(event.virtual_key),
{
}

/// While composing, with no Ctrl / Alt / Win held, the keys that edit or
/// move within the composition are eaten: the navigation keys (Page Up,
/// Page Down, End, Home and the four arrows, `0x21..=0x28`), Backspace,
/// Return, Escape, Space and the digits, and any key that types a printable
/// character.
pub proof fn lemma_composing_eats_edit_and_navigation(event: KeyEvent)
    requires
        !event.modifiers.ctrl && !event.modifiers.alt && !event.modifiers.win,
    ensures
        0x21 <= event.virtual_key <= 0x28 ==> spec_would_eat(true, event),
        event.virtual_key == 0x08 || event.virtual_key == 0x0D || event.virtual_key == 0x1B
            || event.virtual_key == 0x20 || (0x30 <= event.virtual_key <= 0x39) ==> spec_would_eat(
            true,
            event,
        ),
        event.character matches Some(c) && 0x20 <= (c as u32) && (c as u32) < 0x7F
            ==> spec_would_eat(true, event),
{
}

/// Letters type their lower-case letter with or without Shift, and the
/// number row types its digit without Shift.
pub proof fn lemma_letters_and_digits(vk: u32, shift: bool)
    ensures
        0x41 <= vk <= 0x5A ==> spec_resolve_char(vk, shift) == Some((vk + 0x20) as char),
        0x30 <= vk <= 0x39 ==> spec_resolve_char(vk, false) == Some(vk as char),
{
}

/// Every key that types something types printable ASCII; and on every key
/// but the letters and Space, Shift changes what it types.
pub proof fn lemma_shift_changes_symbols(vk: u32)
    ensures
        spec_resolve_char(vk, false) matches Some(c) ==> 0x20 <= (c as u32) < 0x7F,
        spec_resolve_char(vk, true) matches Some(c) ==> 0x20 <= (c as u32) < 0x7F,
        spec_resolve_char(vk, false) is Some <==> spec_resolve_char(vk, true) is Some,
        spec_resolve_char(vk, false) is Some && !(0x41 <= vk <= 0x5A) && vk != 0x20
            ==> spec_resolve_char(vk, true) != spec_resolve_char(vk, false),
{
}

/// On the US layout the shifted punctuation sits a fixed distance above
/// the plain one for two groups of keys: `,` `.` `/` give `<` `>` `?` (0x10
/// above), and `[` `\` `]` give `{` `|` `}` (0x20 above).
pub proof fn lemma_shifted_punctuation(vk: u32, plain: char)
    requires
        spec_resolve_char(vk, false) == Some(plain),
    ensures
        plain == ',' || plain == '.' || plain == '/' ==> spec_resolve_char(vk, true) == Some(
            ((plain as u32) + 0x10) as char,
        ),
        plain == '[' || plain == '\\' || plain == ']' ==> spec_resolve_char(
            vk,
            true,
        ) == Some(((plain as u32) + 0x20) as char),
{
}

/// No two key positions (key and Shift) other than letters type the same
/// character: each digit and punctuation symbol has one place on the keyboard.
pub proof fn lemma_symbols_have_one_place(a: u32, shift_a: bool, b: u32, shift_b: bool)
    requires
        !(0x41 <= a <= 0x5A),
        !(0x41 <= b <= 0x5A),
        a != b || shift_a != shift_b,
        a != 0x20,
        b != 0x20,
        spec_resolve_char(a, shift_a) is Some,
    ensures
        spec_resolve_char(a, shift_a) != spec_resolve_char(b, shift_b),
{
}

/// What the server can send while a key result is awaited.
pub enum ServerReply<R> {
    /// The result of the key.
    KeyResult(R),
    /// A redraw not caused by a key.
    Update,
    /// A request for the text around the cursor.
    RequestSurrounding,
}

/// Why a key got no result.
#[derive(Clone, Copy, Debug, PartialEq, Eq)]
pub enum ReplyError {
    /// The server closed the connection.
    Closed,
    /// The server answered with something else first.
    Unexpected(&'static str),
}

/// The key result among the server's replies: anything else first is an
/// error, and so is the end of the connection.
pub fn key_reply<R>(reply: Option<ServerReply<R>>) -> (result: Result<R, ReplyError>)
    ensures
        reply is None ==> result matches Err(ReplyError::Closed),
        reply matches Some(ServerReply::KeyResult(r)) ==> result == Ok::<R, ReplyError>(r),
        reply matches Some(ServerReply::Update) ==> (result matches Err(ReplyError::Unexpected(m))
            && m@ == "update before key result"@),
        reply matches Some(ServerReply::RequestSurrounding) ==> (result matches Err(
            ReplyError::Unexpected(m),
        ) && m@ == "surrounding request before key result"@),
{
    match reply {
        Some(ServerReply::KeyResult(r)) => Ok(r),
        Some(ServerReply::Update) => Err(ReplyError::Unexpected("update before key result")),
        Some(ServerReply::RequestSurrounding) => Err(
            ReplyError::Unexpected("surrounding request before key result"),
        ),
        None => Err(ReplyError::Closed),
    }
}

/// One step of bringing the document up to date after a key.
#[derive(Clone, Copy, Debug, PartialEq, Eq, Structural)]
pub enum DocOp {
    /// Replace the composition's text with the committed text and end it.
    ReplaceComposition,
    /// Insert the committed text at the selection.
    InsertAtSelection,
    /// Clear the composition's text and end it.
    EndComposition,
    /// Start an empty composition at the selection.
    StartComposition,
    /// Set the composition's text to the composition line, cursor at its end.
    SetPreedit,
    /// Place the candidate window at the caret and show it.
    ShowWindow,
    /// Hide the candidate window.
    HideWindow,
}

/// The steps that bring the document to the key's result: first the commit
/// (replacing the composition when there is one, else at the selection), then
/// the composition line (ending the composition when the line is empty,
/// starting one when needed), then the candidate window, shown exactly when
/// a composition is left.
pub open spec fn spec_document_ops(commit: bool, has_composition: bool, preedit_empty: bool) -> Seq<
    DocOp,
> {
    let committed: Seq<DocOp> = if commit {
        if has_composition {
            seq![DocOp::ReplaceComposition]
        } else {
            seq![DocOp::InsertAtSelection]
        }
    } else {
        Seq::empty()
    };
    let active = has_composition && !commit;
    let line: Seq<DocOp> = if preedit_empty {
        if active {
            seq![DocOp::EndComposition]
        } else {
            Seq::empty()
        }
    } else if active {
        seq![DocOp::SetPreedit]
    } else {
        seq![DocOp::StartComposition, DocOp::SetPreedit]
    };
    let window: Seq<DocOp> = if preedit_empty {
        seq![DocOp::HideWindow]
    } else {
        seq![DocOp::ShowWindow]
    };
    committed + line + window
}

pub fn document_ops(commit: bool, has_composition: bool, preedit_empty: bool) -> (ops: Vec<DocOp>)
    ensures
        ops@ == spec_document_ops(commit, has_composition, preedit_empty),
{
    let mut ops: Vec<DocOp> = Vec::new();
    let mut active = has_composition;
    if commit {
        if active {
            ops.push(DocOp::ReplaceComposition);
            active = false;
        } else {
            ops.push(DocOp::InsertAtSelection);
        }
    }
    if preedit_empty {
        if active {
            ops.push(DocOp::EndComposition);
        }
        ops.push(DocOp::HideWindow);
    } else {
        if !active {
            ops.push(DocOp::StartComposition);
        }
        ops.push(DocOp::SetPreedit);
        ops.push(DocOp::ShowWindow);
    }
    assert(ops@ =~= spec_document_ops(commit, has_composition, preedit_empty));
    ops
}

/// Whether a composition is active after performing `ops`, starting with
/// `active`.
pub open spec fn composition_after(ops: Seq<DocOp>, active: bool) -> bool
    decreases ops.len(),
{
    if ops.len() == 0 {
        active
    } else {
        let before = composition_after(ops.drop_last(), active);
        match ops.last() {
            DocOp::ReplaceComposition => false,
            DocOp::EndComposition => false,
            DocOp::StartComposition => true,
            _ => before,
        }
    }
}

/// Whether the candidate window is shown after `ops`, starting with `shown`.
pub open spec fn window_after(ops: Seq<DocOp>, shown: bool) -> bool
    decreases ops.len(),
{
    if ops.len() == 0 {
        shown
    } else {
        match ops.last() {
            DocOp::ShowWindow => true,
            DocOp::HideWindow => false,
            _ => window_after(ops.drop_last(), shown),
        }
    }
}

/// Step `k` of `ops` finds what it needs: the steps on the composition find
/// one active, and a composition is only started when none is.
pub open spec fn step_finds_composition(ops: Seq<DocOp>, k: int, active: bool) -> bool {
    let before = composition_after(ops.take(k), active);
    match ops[k] {
        DocOp::ReplaceComposition => before,
        DocOp::EndComposition => before,
        DocOp::SetPreedit => before,
        DocOp::StartComposition => !before,
        _ => true,
    }
}

/// No composition is left behind: after the steps of any key result a
/// composition is active exactly when there is a composition line, the
/// candidate window is shown exactly then, and every step finds the
/// composition state it needs.
pub proof fn lemma_document_ops(commit: bool, has_composition: bool, preedit_empty: bool, shown: bool)
    ensures
        composition_after(spec_document_ops(commit, has_composition, preedit_empty), has_composition)
            == !preedit_empty,
        window_after(spec_document_ops(commit, has_composition, preedit_empty), shown)
            == !preedit_empty,
        forall|k: int|
            0 <= k < spec_document_ops(commit, has_composition, preedit_empty).len()
                ==> #[trigger] step_finds_composition(
                spec_document_ops(commit, has_composition, preedit_empty),
                k,
                has_composition,
            ),
{
    let ops = spec_document_ops(commit, has_composition, preedit_empty);
    reveal_with_fuel(composition_after, 5);
    reveal_with_fuel(window_after, 5);
    assert forall|k: int| 0 <= k < ops.len() implies #[trigger] step_finds_composition(
        ops,
        k,
        has_composition,
    ) by {
        if k >= 1 {
            assert(ops.take(k).drop_last() =~= ops.take(k - 1));
        }
        if k >= 2 {
            assert(ops.take(k - 1).drop_last() =~= ops.take(k - 2));
        }
        assert(ops.take(0) =~= Seq::<DocOp>::empty());
    }
}

/// How long to wait for a free pipe instance when the server is busy, in ms.
pub const BUSY_WAIT_MS: u32 = 300;

/// How many times to wait for a busy pipe before giving up.
pub const BUSY_RETRIES: u32 = 1;

/// Attempts to open the server's pipe.
pub struct PipeConnect {
    /// Waits made so far.
    pub attempts: u32,
}

impl PipeConnect {
    pub fn new() -> (connect: PipeConnect)
        ensures
            connect.attempts == 0,
    {
        PipeConnect { attempts: 0 }
    }

    /// After a failed open: wait and try again when the pipe was busy and
    /// waits are left; otherwise give up. The pipe is thus opened at most
    /// `BUSY_RETRIES + 1` times.
    pub fn retry_after_failure(&mut self, busy: bool) -> (retry: bool)
        requires
            old(self).attempts <= BUSY_RETRIES,
        ensures
            retry == (busy && old(self).attempts < BUSY_RETRIES),
            retry ==> final(self).attempts == old(self).attempts + 1,
            !retry ==> final(self).attempts == old(self).attempts,
            final(self).attempts <= BUSY_RETRIES,
    {
        if busy && self.attempts < BUSY_RETRIES {
            self.attempts = self.attempts + 1;
            true
        } else {
            false
        }
    }
}

} // verus!
