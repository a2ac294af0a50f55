//! Text rules of the macOS settings: the one-line notice shown in the menu
//! when the configuration had problems, and the rewriting of the `.env`
//! file when a secret is stored.

use vstd::prelude::*;
use crate::text::{chars_of, push_char, spec_is_whitespace, string_of, trim_start};

verus! {

broadcast use vstd::seq_lib::group_seq_properties;

/// `；` (full-width semicolon) joining the parts of the notice.
pub open spec fn notice_separator() -> Seq<char> {
    seq!['\u{ff1b}']
}

/// The notice for a failed read (the previous configuration stays in effect).
pub open spec fn parse_failure_text(error: Seq<char>) -> Seq<char> {
    "配置文件解析失败，已沿用上一份："@ + error
}

/// The notice for entries that were dropped.
pub open spec fn dropped_text(dropped: Seq<char>) -> Seq<char> {
    "已忽略："@ + dropped
}

/// The notice shown in the menu and preferences: the hard error and the
/// dropped entries, joined by `；`; nothing when there is no problem.
pub open spec fn spec_notice(error: Option<Seq<char>>, dropped: Option<Seq<char>>) -> Option<
    Seq<char>,
> {
    match (error, dropped) {
        (None, None) => None,
        (Some(e), None) => Some(parse_failure_text(e)),
        (None, Some(d)) => Some(dropped_text(d)),
        (Some(e), Some(d)) => Some(parse_failure_text(e) + notice_separator() + dropped_text(d)),
    }
}

/// The notice of the settings: `error` is the last read failure, `dropped`
/// the description of the dropped entries when there are any.
pub fn notice(error: Option<&str>, dropped: Option<&str>) -> (text: Option<String>)
    ensures
        text is None <==> spec_notice(
            match error {
                Some(e) => Some(e@),
                None => None,
            },
            match dropped {
                Some(d) => Some(d@),
                None => None,
            },
        ) is None,
        text matches Some(t) ==> t@ == spec_notice(
            match error {
                Some(e) => Some(e@),
                None => None,
            },
            match dropped {
                Some(d) => Some(d@),
                None => None,
            },
        )->0,
{
    match (error, dropped) {
        (None, None) => None,
        (Some(e), None) => {
            let mut text = String::from_str("配置文件解析失败，已沿用上一份：");
            text.append(e);
            Some(text)
        },
        (None, Some(d)) => {
            let mut text = String::from_str("已忽略：");
            text.append(d);
            Some(text)
        },
        (Some(e), Some(d)) => {
            let mut text = String::from_str("配置文件解析失败，已沿用上一份：");
            text.append(e);
            push_char(&mut text, '\u{ff1b}');
            text.append("已忽略：");
            text.append(d);
            Some(text)
        },
    }
}

/// Index of the first `\n` at or after `i`, or the length.
pub open spec fn next_newline(s: Seq<char>, i: int) -> int
    decreases s.len() - i,
{
    if i < 0 || i >= s.len() {
        s.len() as int
    } else if s[i] == '\n' {
        i
    } else {
        next_newline(s, i + 1)
    }
}

pub proof fn lemma_next_newline(s: Seq<char>, i: int)
    requires
        0 <= i <= s.len(),
    ensures
        i <= next_newline(s, i) <= s.len(),
        next_newline(s, i) < s.len() ==> s[next_newline(s, i)] == '\n',
    decreases s.len() - i,
{
    if i < s.len() && s[i] != '\n' {
        lemma_next_newline(s, i + 1);
    }
}

/// The lines of `s` from position `i`, as `str::lines` gives them: split at
/// `\n`, a `\r` before the `\n` dropped, no empty line after a final `\n`.
pub open spec fn lines_from(s: Seq<char>, i: int) -> Seq<Seq<char>>
    decreases s.len() - i,
{
    if i < 0 || i >= s.len() {
        Seq::empty()
    } else {
        let nl = next_newline(s, i);
        let raw = s.subrange(i, nl);
        if nl < s.len() {
            let line = if raw.len() > 0 && raw.last() == '\r' {
                raw.drop_last()
            } else {
                raw
            };
            proof {
                lemma_next_newline(s, i);
            }
            seq![line] + lines_from(s, nl + 1)
        } else {
            seq![raw]
        }
    }
}

/// Each line followed by `\n`.
pub open spec fn lines_text(lines: Seq<Seq<char>>) -> Seq<char>
    decreases lines.len(),
{
    if lines.len() == 0 {
        Seq::empty()
    } else {
        lines[0] + seq!['\n'] + lines_text(lines.drop_first())
    }
}

pub proof fn lemma_lines_text_add(a: Seq<Seq<char>>, b: Seq<Seq<char>>)
    ensures
        lines_text(a + b) == lines_text(a) + lines_text(b),
    decreases a.len(),
{
    if a.len() == 0 {
        assert(a + b =~= b);
    } else {
        lemma_lines_text_add(a.drop_first(), b);
        assert((a + b).drop_first() =~= a.drop_first() + b);
    }
}

/// Whether `line` sets the variable whose assignment starts with `prefix`
/// (leading white space ignored).
pub open spec fn assigns(line: Seq<char>, prefix: Seq<char>) -> bool {
    let t = trim_start(line);
    prefix.len() <= t.len() && t.subrange(0, prefix.len() as int) == prefix
}

/// The `.env` text after storing `name=value`: every other line kept in
/// order, earlier assignments of `name` dropped, the new one appended, each
/// line ending in a newline.
pub open spec fn env_file_text(existing: Seq<char>, name: Seq<char>, value: Seq<char>) -> Seq<
    char,
> {
    let prefix = name + seq!['='];
    lines_text(
        lines_from(existing, 0).filter(|line: Seq<char>| !assigns(line, prefix)).push(
            prefix + value,
        ),
    )
}

fn line_assigns(chars: &Vec<char>, from: usize, to: usize, prefix: &Vec<char>) -> (found: bool)
    requires
        from <= to <= chars@.len(),
    ensures
        found == assigns(chars@.subrange(from as int, to as int), prefix@),
{
    let ghost line = chars@.subrange(from as int, to as int);
    let mut start = from;
    while start < to && crate::text::is_whitespace(chars[start])
        invariant
            from <= start <= to <= chars@.len(),
            line == chars@.subrange(from as int, to as int),
            trim_start(line) == trim_start(chars@.subrange(start as int, to as int)),
        decreases to - start,
    {
        assert(chars@.subrange(start as int, to as int).drop_first() =~= chars@.subrange(
            start + 1,
            to as int,
        ));
        start = start + 1;
    }
    let ghost t = chars@.subrange(start as int, to as int);
    assert(trim_start(t) == t) by {
        if t.len() > 0 {
            assert(t[0] == chars@[start as int]);
        }
    }
    if prefix.len() > to - start {
        return false;
    }
    let mut k: usize = 0;
    while k < prefix.len()
        invariant
            k <= prefix@.len(),
            start + prefix@.len() <= to <= chars@.len(),
            t == chars@.subrange(start as int, to as int),
            line == chars@.subrange(from as int, to as int),
            trim_start(line) == t,
            forall|m: int| 0 <= m < k ==> t[m] == prefix@[m],
        decreases prefix.len() - k,
    {
        if chars[start + k] != prefix[k] {
            assert(t.subrange(0, prefix@.len() as int)[k as int] != prefix@[k as int]);
            return false;
        }
        k = k + 1;
    }
    assert(t.subrange(0, prefix@.len() as int) =~= prefix@);
    true
}

fn push_range(out: &mut Vec<char>, chars: &Vec<char>, from: usize, to: usize)
    requires
        from <= to <= chars@.len(),
    ensures
        final(out)@ == old(out)@ + chars@.subrange(from as int, to as int),
{
    let mut i = from;
    while i < to
        invariant
            from <= i <= to <= chars@.len(),
            out@ == old(out)@ + chars@.subrange(from as int, i as int),
        decreases to - i,
    {
        out.push(chars[i]);
        i = i + 1;
        assert(out@ =~= old(out)@ + chars@.subrange(from as int, i as int));
    }
}

/// The new `.env` content after storing the secret `name=value`: the file's
/// other lines are kept, any earlier `name=` line is replaced by the new one
/// at the end, and every line ends with a newline.
#[verifier::rlimit(50)]
#[verifier::spinoff_prover]
pub fn env_file_content(existing: &str, name: &str, value: &str) -> (content: String)
    ensures
        content@ == env_file_text(existing@, name@, value@),
{
    let s = chars_of(existing);
    let mut prefix = chars_of(name);
    prefix.push('=');
    assert(prefix@ =~= name@ + seq!['=']);
    let ghost keep = |line: Seq<char>| !assigns(line, prefix@);
    let ghost all_lines = lines_from(s@, 0);
    let n = s.len();
    let mut out: Vec<char> = Vec::new();
    let mut i: usize = 0;
    while i < n
        invariant
            n == s@.len(),
            s@ == existing@,
            prefix@ == name@ + seq!['='],
            i <= n,
            keep == (|line: Seq<char>| !assigns(line, prefix@)),
            lines_text(all_lines.filter(keep)) == out@ + lines_text(lines_from(s@, i as int).filter(keep)),
            all_lines == lines_from(s@, 0),
        decreases n - i,
    {
        let mut nl = i;
        while nl < n && s[nl] != '\n'
            invariant
                i <= nl <= n,
                n == s@.len(),
                next_newline(s@, i as int) == next_newline(s@, nl as int),
            decreases n - nl,
        {
            nl = nl + 1;
        }
        let end = if nl < n && nl > i && s[nl - 1] == '\r' {
            nl - 1
        } else {
            nl
        };
        let ghost line = s@.subrange(i as int, end as int);
        let ghost raw = s@.subrange(i as int, nl as int);
        proof {
            if nl < n && nl > i && s@[nl - 1] == '\r' {
                assert(raw.drop_last() =~= line);
            } else {
                assert(raw =~= line);
            }
        }
        let ghost rest_start: int = if nl < n {
            nl + 1
        } else {
            n as int
        };
        assert(lines_from(s@, i as int) == seq![line] + lines_from(s@, rest_start));
        proof {
            Seq::filter_distributes_over_add(seq![line], lines_from(s@, rest_start), keep);
            lemma_lines_text_add(seq![line].filter(keep), lines_from(s@, rest_start).filter(keep));
            assert(seq![line].drop_last() =~= Seq::<Seq<char>>::empty());
        }
        let kept = !line_assigns(&s, i, end, &prefix);
        let ghost before = out@;
        if kept {
            push_range(&mut out, &s, i, end);
            out.push('\n');
            assert(keep(line));
            reveal_with_fuel(Seq::<_>::filter, 2);
            assert(lines_text(Seq::<Seq<char>>::empty()) == Seq::<char>::empty());
            assert(Seq::<Seq<char>>::empty().filter(keep) =~= Seq::<Seq<char>>::empty());
            assert(seq![line].filter(keep) =~= seq![line]);
            assert(seq![line].drop_first() =~= Seq::<Seq<char>>::empty());
            assert(lines_text(seq![line]) =~= line + seq!['\n']);
            assert(out@ =~= before + line + seq!['\n']);
        } else {
            assert(!keep(line));
            reveal_with_fuel(Seq::<_>::filter, 2);
            assert(Seq::<Seq<char>>::empty().filter(keep) =~= Seq::<Seq<char>>::empty());
            assert(seq![line].filter(keep) =~= Seq::<Seq<char>>::empty());
        }
        i = if nl < n {
            nl + 1
        } else {
            n
        };
    }
    let ghost entry = prefix@ + value@;
    let value_chars = chars_of(value);
    push_range(&mut out, &prefix, 0, prefix.len());
    push_range(&mut out, &value_chars, 0, value_chars.len());
    out.push('\n');
    proof {
        assert(prefix@.subrange(0, prefix@.len() as int) =~= prefix@);
        assert(value_chars@.subrange(0, value_chars@.len() as int) =~= value_chars@);
        assert(lines_from(s@, n as int) =~= Seq::<Seq<char>>::empty());
        reveal_with_fuel(Seq::<_>::filter, 2);
        assert(Seq::<Seq<char>>::empty().filter(keep) =~= Seq::<Seq<char>>::empty());
        assert(lines_text(Seq::<Seq<char>>::empty()) == Seq::<char>::empty());
        lemma_lines_text_add(all_lines.filter(keep), seq![entry]);
        assert(all_lines.filter(keep).push(entry) =~= all_lines.filter(keep) + seq![entry]);
        assert(seq![entry].drop_first() =~= Seq::<Seq<char>>::empty());
        assert(lines_text(seq![entry]) =~= entry + seq!['\n']);
        assert(out@ =~= lines_text(all_lines.filter(keep)) + lines_text(seq![entry]));
    }
    string_of(&out)
}

/// A line a rewrite of the file gives back unchanged: no line feed in it,
/// no carriage return at its end.
pub open spec fn plain_line(line: Seq<char>) -> bool {
    !line.contains('\n') && !(line.len() > 0 && line.last() == '\r')
}

proof fn lemma_next_newline_shift(p: Seq<char>, t: Seq<char>, i: int)
    requires
        0 <= i,
    ensures
        next_newline(p + t, p.len() + i) == p.len() + next_newline(t, i),
    decreases t.len() - i,
{
    if i < t.len() {
        assert((p + t)[p.len() + i] == t[i]);
        if t[i] != '\n' {
            lemma_next_newline_shift(p, t, i + 1);
        }
    }
}

proof fn lemma_lines_from_shift(p: Seq<char>, t: Seq<char>, i: int)
    requires
        0 <= i,
    ensures
        lines_from(p + t, p.len() + i) == lines_from(t, i),
    decreases t.len() - i,
{
    if i < t.len() {
        lemma_next_newline_shift(p, t, i);
        lemma_next_newline(t, i);
        let nl = next_newline(t, i);
        assert((p + t).subrange(p.len() + i, p.len() + nl) =~= t.subrange(i, nl));
        if nl < t.len() {
            lemma_lines_from_shift(p, t, nl + 1);
        }
    }
}

proof fn lemma_next_newline_plain(a: Seq<char>, b: Seq<char>, i: int)
    requires
        !a.contains('\n'),
        0 <= i <= a.len(),
    ensures
        next_newline(a + seq!['\n'] + b, i) == a.len(),
    decreases a.len() - i,
{
    let s = a + seq!['\n'] + b;
    if i < a.len() {
        assert(s[i] == a[i]);
        assert(a[i] != '\n');
        lemma_next_newline_plain(a, b, i + 1);
    } else {
        assert(s[i] == '\n');
    }
}

/// Reading back written lines gives the same lines, when each is plain.
proof fn lemma_lines_round_trip(lines: Seq<Seq<char>>)
    requires
        forall|k: int| 0 <= k < lines.len() ==> plain_line(#[trigger] lines[k]),
    ensures
        lines_from(lines_text(lines), 0) == lines,
    decreases lines.len(),
{
    if lines.len() > 0 {
        let a = lines[0];
        let rest = lines.drop_first();
        assert forall|k: int| 0 <= k < rest.len() implies plain_line(#[trigger] rest[k]) by {
            assert(rest[k] == lines[k + 1]);
        }
        lemma_lines_round_trip(rest);
        let r = lines_text(rest);
        let s = lines_text(lines);
        assert(s == a + seq!['\n'] + r);
        assert(plain_line(lines[0]));
        lemma_next_newline_plain(a, r, 0);
        assert(s.subrange(0, a.len() as int) =~= a);
        let p = a + seq!['\n'];
        assert(s =~= p + r);
        lemma_lines_from_shift(p, r, 0);
        assert(lines_from(s, 0) =~= seq![a] + lines_from(r, 0));
        assert(seq![a] + rest =~= lines);
    } else {
        assert(lines_text(lines) =~= Seq::<char>::empty());
    }
}

/// The lines of a text never hold a line feed.
proof fn lemma_lines_without_newline(s: Seq<char>, i: int)
    requires
        0 <= i,
    ensures
        forall|k: int|
            0 <= k < lines_from(s, i).len() ==> !(#[trigger] lines_from(s, i)[k]).contains('\n'),
    decreases s.len() - i,
{
    if i < s.len() {
        lemma_next_newline(s, i);
        let nl = next_newline(s, i);
        let raw = s.subrange(i, nl);
        assert(!raw.contains('\n')) by {
            if raw.contains('\n') {
                let j = choose|j: int| 0 <= j < raw.len() && raw[j] == '\n';
                lemma_first_newline(s, i, i + j);
            }
        }
        if nl < s.len() {
            lemma_lines_without_newline(s, nl + 1);
            let line = if raw.len() > 0 && raw.last() == '\r' {
                raw.drop_last()
            } else {
                raw
            };
            assert(!line.contains('\n')) by {
                if line.contains('\n') {
                    let j = choose|j: int| 0 <= j < line.len() && line[j] == '\n';
                    assert(raw[j] == line[j]);
                }
            }
            let rest = lines_from(s, nl + 1);
            assert forall|k: int| 0 <= k < lines_from(s, i).len() implies !(
            #[trigger] lines_from(s, i)[k]).contains('\n') by {
                if k > 0 {
                    assert(lines_from(s, i)[k] == rest[k - 1]);
                }
            }
        }
    }
}

/// No line feed comes before the first one at or after `i`.
proof fn lemma_first_newline(s: Seq<char>, i: int, j: int)
    requires
        0 <= i <= j < next_newline(s, i),
        next_newline(s, i) <= s.len(),
    ensures
        s[j] != '\n',
    decreases j - i,
{
    if i < j {
        assert(s[i] != '\n');
        lemma_first_newline(s, i + 1, j);
    } else {
        assert(s[i] != '\n');
    }
}

proof fn lemma_filter_keeps_plain(lines: Seq<Seq<char>>, keep: spec_fn(Seq<char>) -> bool)
    requires
        forall|k: int| 0 <= k < lines.len() ==> plain_line(#[trigger] lines[k]),
    ensures
        forall|k: int| 0 <= k < lines.filter(keep).len() ==> plain_line(
            #[trigger] lines.filter(keep)[k],
        ),
    decreases lines.len(),
{
    reveal(Seq::filter);
    if lines.len() > 0 {
        let rest = lines.drop_last();
        assert forall|k: int| 0 <= k < rest.len() implies plain_line(#[trigger] rest[k]) by {
            assert(rest[k] == lines[k]);
        }
        lemma_filter_keeps_plain(rest, keep);
        let last = lines[lines.len() - 1];
        assert(plain_line(last));
        let sub = rest.filter(keep);
        if keep(last) {
            assert(lines.filter(keep) == sub.push(last));
            assert forall|k: int| 0 <= k < sub.len() + 1 implies plain_line(
                #[trigger] sub.push(last)[k],
            ) by {
                if k < sub.len() {
                    assert(sub.push(last)[k] == sub[k]);
                }
            }
        } else {
            assert(lines.filter(keep) == sub);
        }
    }
}

proof fn lemma_filter_kept(lines: Seq<Seq<char>>, keep: spec_fn(Seq<char>) -> bool, k: int)
    requires
        0 <= k < lines.filter(keep).len(),
    ensures
        keep(lines.filter(keep)[k]),
    decreases lines.len(),
{
    reveal(Seq::filter);
    if lines.len() > 0 {
        let rest = lines.drop_last();
        let sub = rest.filter(keep);
        let last = lines[lines.len() - 1];
        if keep(last) {
            assert(lines.filter(keep) == sub.push(last));
            if k < sub.len() {
                assert(sub.push(last)[k] == sub[k]);
                lemma_filter_kept(rest, keep, k);
            }
        } else {
            assert(lines.filter(keep) == sub);
            lemma_filter_kept(rest, keep, k);
        }
    }
}

proof fn lemma_filter_identity(lines: Seq<Seq<char>>, keep: spec_fn(Seq<char>) -> bool)
    requires
        forall|k: int| 0 <= k < lines.len() ==> keep(#[trigger] lines[k]),
    ensures
        lines.filter(keep) == lines,
    decreases lines.len(),
{
    reveal(Seq::filter);
    if lines.len() > 0 {
        let rest = lines.drop_last();
        assert forall|k: int| 0 <= k < rest.len() implies keep(#[trigger] rest[k]) by {
            assert(rest[k] == lines[k]);
        }
        lemma_filter_identity(rest, keep);
        assert(keep(lines[lines.len() - 1]));
        assert(rest.push(lines.last()) =~= lines);
    } else {
        assert(lines.filter(keep) =~= lines);
    }
}

/// Storing a secret twice gives the same file as storing it once: the
/// second store finds exactly the lines the first one wrote and replaces
/// its own entry. This holds when the file's lines do not end in a
/// carriage return (the rewrite drops it) and the entry `name=value` is one
/// line that starts with its name (no line feed in it, no leading blank in
/// the name, no carriage return at its end).
pub proof fn lemma_store_idempotent(existing: Seq<char>, name: Seq<char>, value: Seq<char>)
    requires
        forall|k: int|
            0 <= k < lines_from(existing, 0).len() ==> !{
                let line = #[trigger] lines_from(existing, 0)[k];
                line.len() > 0 && line.last() == '\r'
            },
        plain_line(name + seq!['='] + value),
        name.len() > 0 ==> !spec_is_whitespace(name[0]),
    ensures
        env_file_text(env_file_text(existing, name, value), name, value) == env_file_text(
            existing,
            name,
            value,
        ),
{
    let prefix = name + seq!['='];
    let entry = prefix + value;
    let keep = |line: Seq<char>| !assigns(line, prefix);
    let lines = lines_from(existing, 0);
    lemma_lines_without_newline(existing, 0);
    assert forall|k: int| 0 <= k < lines.len() implies plain_line(#[trigger] lines[k]) by {
        assert(!lines[k].contains('\n'));
    }
    lemma_filter_keeps_plain(lines, keep);
    let kept = lines.filter(keep);
    let written = kept.push(entry);
    assert forall|k: int| 0 <= k < written.len() implies plain_line(#[trigger] written[k]) by {
        if k < kept.len() {
            assert(written[k] == kept[k]);
        }
    }
    lemma_lines_round_trip(written);
    assert forall|k: int| 0 <= k < kept.len() implies keep(#[trigger] kept[k]) by {
        lemma_filter_kept(lines, keep, k);
    }
    lemma_filter_identity(kept, keep);
    assert(entry[0] == (if name.len() > 0 { name[0] } else { '=' }));
    assert(trim_start(entry) == entry);
    assert(entry.subrange(0, prefix.len() as int) =~= prefix);
    assert(!keep(entry));
    reveal_with_fuel(Seq::<_>::filter, 2);
    assert(written.filter(keep) =~= kept.filter(keep)) by {
        assert(written.drop_last() =~= kept);
    }
}

/// What a read of the configuration file gave: the configuration and the
/// description of the entries it dropped, or why the file could not be read.
pub enum ReadOutcome<C> {
    Loaded { config: C, dropped: Option<String> },
    Failed(String),
}

/// The configuration in effect and what the menu says about the last read.
pub struct ConfigState<C> {
    /// The configuration in effect.
    pub config: C,
    /// Why the last read failed; cleared by a good read.
    pub error: Option<String>,
    /// The entries the last read dropped; cleared by any later read.
    pub dropped: Option<String>,
    /// Modification time of the file at the last read (seconds, nanoseconds).
    pub modified: Option<(u64, u32)>,
}

pub open spec fn text_of(s: Option<String>) -> Option<Seq<char>> {
    match s {
        Some(t) => Some(t@),
        None => None,
    }
}

fn same_stamp(a: Option<(u64, u32)>, b: Option<(u64, u32)>) -> (same: bool)
    ensures
        same == (a == b),
{
    match (a, b) {
        (None, None) => true,
        (Some(x), Some(y)) => x.0 == y.0 && x.1 == y.1,
        _ => false,
    }
}

impl<C> ConfigState<C> {
    /// Before any read: `config` (the defaults), no problem, no time.
    pub fn new(config: C) -> (state: Self)
        ensures
            state.config == config,
            state.error is None,
            state.dropped is None,
            state.modified is None,
    {
        ConfigState { config, error: None, dropped: None, modified: None }
    }

    /// Records a read made when the file's time was `modified`. A good read
    /// puts its configuration in effect and clears the error; a failed one
    /// keeps the previous configuration and records why. Either way the
    /// dropped entries are those of this read and the time is remembered,
    /// so the same broken file is not read again on every activation.
    pub fn record_read(&mut self, outcome: ReadOutcome<C>, modified: Option<(u64, u32)>)
        ensures
            final(self).modified == modified,
            match outcome {
                ReadOutcome::Loaded { config, dropped } => {
                    &&& final(self).config == config
                    &&& final(self).error is None
                    &&& text_of(final(self).dropped) == text_of(dropped)
                },
                ReadOutcome::Failed(error) => {
                    &&& final(self).config == old(self).config
                    &&& text_of(final(self).error) == Some(error@)
                    &&& final(self).dropped is None
                },
            },
    {
        match outcome {
            ReadOutcome::Loaded { config, dropped } => {
                self.config = config;
                self.dropped = dropped;
                self.error = None;
            },
            ReadOutcome::Failed(error) => {
                self.error = Some(error);
                self.dropped = None;
            },
        }
        self.modified = modified;
    }

    /// Whether to read the file again: only when there is a file and its
    /// time differs from the one of the last read.
    pub fn needs_reload(&self, has_path: bool, modified_now: Option<(u64, u32)>) -> (reload: bool)
        ensures
            reload == (has_path && modified_now != self.modified),
    {
        has_path && !same_stamp(modified_now, self.modified)
    }

    /// The menu's notice for the current state.
    pub fn notice(&self) -> (text: Option<String>)
        ensures
            text_of(text) == spec_notice(text_of(self.error), text_of(self.dropped)),
    {
        let error: Option<&str> = match &self.error {
            Some(e) => Some(e.as_str()),
            None => None,
        };
        let dropped: Option<&str> = match &self.dropped {
            Some(d) => Some(d.as_str()),
            None => None,
        };
        notice(error, dropped)
    }
}

} // verus!
