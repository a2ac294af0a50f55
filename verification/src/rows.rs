//! What the Windows candidate window shows: one row per candidate (index,
//! word, annotation pieces with their shade) and the composition line.

use vstd::prelude::*;
use crate::text::{decimal, push_char, string_of, usize_to_decimal};

verus! {

/// Kinds of composition-line segments.
#[derive(Clone, Copy, Debug, PartialEq, Eq, Structural)]
pub enum PreeditKind {
    /// Letters typed before the cursor.
    Typed,
    /// Letters after the cursor.
    Rest,
    /// Letters replaced by a correction (struck through in the window).
    Corrected,
}

/// A segment of the composition line.
pub struct PreeditSegment {
    pub text: String,
    pub kind: PreeditKind,
}

/// The inline composition text: all segments in order except corrected letters.
pub open spec fn inline_preedit(segments: Seq<PreeditSegment>) -> Seq<char>
    decreases segments.len(),
{
    if segments.len() == 0 {
        Seq::empty()
    } else {
        inline_preedit(segments.drop_last()) + (if segments.last().kind == PreeditKind::Corrected {
            Seq::empty()
        } else {
            segments.last().text@
        })
    }
}

/// All text of the composition line, corrected letters included.
pub open spec fn all_preedit_text(segments: Seq<PreeditSegment>) -> Seq<char>
    decreases segments.len(),
{
    if segments.len() == 0 {
        Seq::empty()
    } else {
        all_preedit_text(segments.drop_last()) + segments.last().text@
    }
}

/// The line shown inline in the document: corrected letters are only shown
/// struck through in the candidate window, so they are left out here. An
/// empty string means nothing is being composed.
pub fn preedit_string(segments: &Vec<PreeditSegment>) -> (line: String)
    ensures
        line@ == inline_preedit(segments@),
{
    let mut line = String::new();
    let mut i: usize = 0;
    while i < segments.len()
        invariant
            i <= segments@.len(),
            line@ == inline_preedit(segments@.take(i as int)),
        decreases segments.len() - i,
    {
        assert(segments@.take(i + 1).drop_last() =~= segments@.take(i as int));
        if segments[i].kind != PreeditKind::Corrected {
            line.append(segments[i].text.as_str());
        }
        i = i + 1;
    }
    assert(segments@.take(segments@.len() as int) =~= segments@);
    line
}

/// The first `cursor` characters of the composition line (all of it when
/// the cursor is past the end); the window draws its caret after them.
pub fn concat_before_cursor(segments: &Vec<PreeditSegment>, cursor: usize) -> (before: String)
    ensures
        before@ == (if cursor <= all_preedit_text(segments@).len() {
            all_preedit_text(segments@).take(cursor as int)
        } else {
            all_preedit_text(segments@)
        }),
{
    let mut all: Vec<char> = Vec::new();
    let mut i: usize = 0;
    while i < segments.len()
        invariant
            i <= segments@.len(),
            all@ == all_preedit_text(segments@.take(i as int)),
        decreases segments.len() - i,
    {
        assert(segments@.take(i + 1).drop_last() =~= segments@.take(i as int));
        assert(segments@.take(i + 1).last() == segments@[i as int]);
        let chars = crate::text::chars_of(segments[i].text.as_str());
        let mut j: usize = 0;
        let ghost start = all@;
        while j < chars.len()
            invariant
                j <= chars@.len(),
                all@ == start + chars@.take(j as int),
            decreases chars.len() - j,
        {
            all.push(chars[j]);
            j = j + 1;
            assert(all@ =~= start + chars@.take(j as int));
        }
        assert(chars@.take(chars@.len() as int) =~= chars@);
        i = i + 1;
    }
    assert(segments@.take(segments@.len() as int) =~= segments@);
    assert(all@ == all_preedit_text(segments@));
    let mut before = String::new();
    let mut k: usize = 0;
    while k < cursor && k < all.len()
        invariant
            k <= all@.len(),
            k <= cursor,
            before@ == all@.take(k as int),
        decreases all.len() - k,
    {
        push_char(&mut before, all[k]);
        k = k + 1;
        assert(before@ =~= all@.take(k as int));
    }
    proof {
        if cursor > all@.len() {
            assert(all@.take(all@.len() as int) =~= all@);
        } else {
            assert(k == cursor);
        }
    }
    before
}

/// Shade of an annotation piece.
#[derive(Clone, Copy, Debug, PartialEq, Eq, Structural)]
pub enum Tone {
    /// Reading or translation.
    Gloss,
    /// Translation of a word the user has seen only a few times (accent color).
    Fresh,
    /// Part of speech, kana reading and separators (lightest).
    Faint,
}

/// A piece of a translated word: its text and, for Japanese kanji, the kana reading.
pub struct Furigana {
    pub text: String,
    pub reading: Option<String>,
}

/// One sense of a translation.
pub struct Sense {
    /// Part of speech, as displayed.
    pub part_of_speech: Option<String>,
    /// The word is still new to the user.
    pub fresh: bool,
    /// The translated word, split for kana readings.
    pub furigana: Vec<Furigana>,
}

/// What a row shows of a candidate.
pub struct CandidateText {
    /// The word.
    pub text: String,
    /// Toned pinyin (answer of a question-mode lookup).
    pub reading: Option<String>,
    /// Senses of its translation, if translated.
    pub senses: Vec<Sense>,
}

/// A row of the candidate window.
pub struct Row {
    /// Index shown before the word, e.g. `1`.
    pub index: String,
    /// The word.
    pub text: String,
    /// Annotation pieces drawn in order to the right.
    pub annotation: Vec<(String, Tone)>,
    /// The word came from the cloud (drawn with a small cloud).
    pub cloud: bool,
}

/// The separator between senses: ` · `.
pub open spec fn sense_separator() -> Seq<char> {
    seq![' ', '\u{b7}', ' ']
}

/// The pieces of one furigana segment: the text in `tone`, then `(kana)` faint.
pub open spec fn furigana_pieces(f: Furigana, tone: Tone) -> Seq<(Seq<char>, Tone)> {
    seq![(f.text@, tone)] + match f.reading {
        Some(r) => seq![(seq!['('] + r@ + seq![')'], Tone::Faint)],
        None => Seq::empty(),
    }
}

pub open spec fn furigana_list_pieces(fs: Seq<Furigana>, tone: Tone) -> Seq<(Seq<char>, Tone)>
    decreases fs.len(),
{
    if fs.len() == 0 {
        Seq::empty()
    } else {
        furigana_list_pieces(fs.drop_last(), tone) + furigana_pieces(fs.last(), tone)
    }
}

/// The pieces of one sense: a faint separator when something comes before
/// it, the faint part of speech, then the translated word.
pub open spec fn sense_pieces(s: Sense, separated: bool) -> Seq<(Seq<char>, Tone)> {
    (if separated {
        seq![(sense_separator(), Tone::Faint)]
    } else {
        Seq::empty()
    }) + match s.part_of_speech {
        Some(p) => seq![(p@ + seq![' '], Tone::Faint)],
        None => Seq::empty(),
    } + furigana_list_pieces(
        s.furigana@,
        if s.fresh {
            Tone::Fresh
        } else {
            Tone::Gloss
        },
    )
}

/// The pieces of all senses; a separator precedes every sense but a first
/// one that has no reading before it.
pub open spec fn senses_pieces(ss: Seq<Sense>, has_reading: bool) -> Seq<(Seq<char>, Tone)>
    decreases ss.len(),
{
    if ss.len() == 0 {
        Seq::empty()
    } else {
        senses_pieces(ss.drop_last(), has_reading) + sense_pieces(
            ss.last(),
            ss.len() > 1 || has_reading,
        )
    }
}

/// The full annotation of a candidate: its reading first, then its senses.
pub open spec fn annotation_of(c: CandidateText) -> Seq<(Seq<char>, Tone)> {
    (match c.reading {
        Some(r) => seq![(r@, Tone::Gloss)],
        None => Seq::empty(),
    }) + senses_pieces(c.senses@, c.reading is Some)
}

/// The annotation as text pieces.
pub open spec fn annotation_view(a: Seq<(String, Tone)>) -> Seq<(Seq<char>, Tone)> {
    a.map_values(|p: (String, Tone)| (p.0@, p.1))
}

fn push_piece(out: &mut Vec<(String, Tone)>, text: String, tone: Tone)
    ensures
        annotation_view(final(out)@) == annotation_view(old(out)@).push((text@, tone)),
{
    out.push((text, tone));
    assert(annotation_view(out@) =~= annotation_view(old(out)@).push((text@, tone)));
}

impl Row {
    /// The row of the candidate at `position` on the page (index shown as
    /// `position + 1`). Cloud words are not told apart yet.
    pub fn from_candidate(position: usize, candidate: &CandidateText) -> (row: Row)
        requires
            position < usize::MAX,
        ensures
            row.index@ == decimal((position + 1) as nat),
            row.text@ == candidate.text@,
            annotation_view(row.annotation@) == annotation_of(*candidate),
            !row.cloud,
    {
        let mut annotation: Vec<(String, Tone)> = Vec::new();
        if let Some(reading) = &candidate.reading {
            push_piece(&mut annotation, reading.clone(), Tone::Gloss);
        }
        let ghost head = annotation_view(annotation@);
        assert(head =~= match candidate.reading {
            Some(r) => seq![(r@, Tone::Gloss)],
            None => Seq::<(Seq<char>, Tone)>::empty(),
        });
        let senses = &candidate.senses;
        let mut i: usize = 0;
        while i < senses.len()
            invariant
                i <= senses@.len(),
                annotation_view(annotation@) == head + senses_pieces(
                    senses@.take(i as int),
                    candidate.reading is Some,
                ),
            decreases senses.len() - i,
        {
            let sense = &senses[i];
            let ghost before = annotation_view(annotation@);
            let separated = i > 0 || candidate.reading.is_some();
            if separated {
                let mut separator = String::new();
                push_char(&mut separator, ' ');
                push_char(&mut separator, '\u{b7}');
                push_char(&mut separator, ' ');
                assert(separator@ =~= sense_separator());
                push_piece(&mut annotation, separator, Tone::Faint);
            }
            let ghost mid = annotation_view(annotation@);
            assert(mid =~= before + (if separated {
                seq![(sense_separator(), Tone::Faint)]
            } else {
                Seq::<(Seq<char>, Tone)>::empty()
            }));
            match &sense.part_of_speech {
                Some(pos) => {
                    let mut label = pos.clone();
                    push_char(&mut label, ' ');
                    assert(label@ =~= pos@ + seq![' ']);
                    push_piece(&mut annotation, label, Tone::Faint);
                    assert(annotation_view(annotation@) =~= mid + seq![(pos@ + seq![' '], Tone::Faint)]);
                },
                None => {
                    assert(annotation_view(annotation@) =~= mid + Seq::<(Seq<char>, Tone)>::empty());
                },
            }
            let tone = if sense.fresh {
                Tone::Fresh
            } else {
                Tone::Gloss
            };
            let ghost sense_head = annotation_view(annotation@);
            assert(sense_head =~= before + (if separated {
                seq![(sense_separator(), Tone::Faint)]
            } else {
                Seq::<(Seq<char>, Tone)>::empty()
            }) + match sense.part_of_speech {
                Some(p) => seq![(p@ + seq![' '], Tone::Faint)],
                None => Seq::<(Seq<char>, Tone)>::empty(),
            });
            let furigana = &sense.furigana;
            let mut j: usize = 0;
            while j < furigana.len()
                invariant
                    j <= furigana@.len(),
                    annotation_view(annotation@) == sense_head + furigana_list_pieces(
                        furigana@.take(j as int),
                        tone,
                    ),
                decreases furigana.len() - j,
            {
                let segment = &furigana[j];
                let ghost seg_before = annotation_view(annotation@);
                push_piece(&mut annotation, segment.text.clone(), tone);
                if let Some(reading) = &segment.reading {
                    let mut kana = String::new();
                    push_char(&mut kana, '(');
                    kana.append(reading.as_str());
                    push_char(&mut kana, ')');
                    assert(kana@ =~= seq!['('] + reading@ + seq![')']);
                    push_piece(&mut annotation, kana, Tone::Faint);
                }
                assert(furigana@.take(j + 1).drop_last() =~= furigana@.take(j as int));
                assert(annotation_view(annotation@) =~= seg_before + furigana_pieces(
                    *segment,
                    tone,
                ));
                j = j + 1;
            }
            assert(furigana@.take(furigana@.len() as int) =~= furigana@);
            assert(senses@.take(i + 1).drop_last() =~= senses@.take(i as int));
            assert(senses@.take(i + 1).last() == *sense);
            assert(annotation_view(annotation@) =~= before + sense_pieces(*sense, separated));
            i = i + 1;
        }
        assert(senses@.take(senses@.len() as int) =~= senses@);
        Row {
            index: string_of(&usize_to_decimal(position + 1)),
            text: candidate.text.clone(),
            annotation,
            cloud: false,
        }
    }
}

} // verus!
