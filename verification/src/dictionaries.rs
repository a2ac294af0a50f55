//! Extra dictionaries: which files of a dictionary directory can be loaded
//! (`.qj` or `.tsv`), named by their stem and listed in order.

use vstd::prelude::*;
use crate::data_files::file_stem;
use crate::text::{chars_of, find_last, last_index_of, lemma_last_index_of, str_eq};

verus! {

broadcast use {vstd::seq_lib::to_multiset_insert, vstd::seq_lib::to_multiset_build};

/// The extension of a file name: what follows its last `.`, unless the name
/// starts with that dot.
pub open spec fn file_extension(name: Seq<char>) -> Option<Seq<char>> {
    if last_index_of(name, '.') > 0 {
        Some(name.subrange(last_index_of(name, '.') + 1, name.len() as int))
    } else {
        None
    }
}

/// Dictionary files have the extension `qj` or `tsv`.
pub open spec fn is_dictionary_file(name: Seq<char>) -> bool {
    file_extension(name) == Some("qj"@) || file_extension(name) == Some("tsv"@)
}

/// Code-point (and so UTF-8 byte) order of strings.
pub open spec fn text_le(a: Seq<char>, b: Seq<char>) -> bool
    decreases a.len(),
{
    if a.len() == 0 {
        true
    } else if b.len() == 0 {
        false
    } else if a[0] != b[0] {
        a[0] < b[0]
    } else {
        text_le(a.drop_first(), b.drop_first())
    }
}

pub proof fn lemma_text_le_total(a: Seq<char>, b: Seq<char>)
    ensures
        text_le(a, b) || text_le(b, a),
    decreases a.len(),
{
    if a.len() > 0 && b.len() > 0 && a[0] == b[0] {
        lemma_text_le_total(a.drop_first(), b.drop_first());
    }
}

pub proof fn lemma_text_le_antisymmetric(a: Seq<char>, b: Seq<char>)
    requires
        text_le(a, b),
        text_le(b, a),
    ensures
        a == b,
    decreases a.len(),
{
    if a.len() > 0 && b.len() > 0 {
        lemma_text_le_antisymmetric(a.drop_first(), b.drop_first());
        assert(a =~= seq![a[0]] + a.drop_first());
        assert(b =~= seq![b[0]] + b.drop_first());
    } else {
        assert(a =~= b);
    }
}

pub proof fn lemma_text_le_transitive(a: Seq<char>, b: Seq<char>, c: Seq<char>)
    requires
        text_le(a, b),
        text_le(b, c),
    ensures
        text_le(a, c),
    decreases a.len(),
{
    if a.len() > 0 && b.len() > 0 && c.len() > 0 && a[0] == b[0] && b[0] == c[0] {
        lemma_text_le_transitive(a.drop_first(), b.drop_first(), c.drop_first());
    }
}

/// A loadable dictionary file: its stem (the dictionary's name) and file name.
pub struct DictionaryFile {
    pub stem: String,
    pub name: String,
}

/// Order of the listing: by stem, then by file name.
pub open spec fn entry_le(x: (Seq<char>, Seq<char>), y: (Seq<char>, Seq<char>)) -> bool {
    if x.0 != y.0 {
        text_le(x.0, y.0)
    } else {
        text_le(x.1, y.1)
    }
}

pub proof fn lemma_entry_le_total(x: (Seq<char>, Seq<char>), y: (Seq<char>, Seq<char>))
    ensures
        entry_le(x, y) || entry_le(y, x),
{
    lemma_text_le_total(x.0, y.0);
    lemma_text_le_total(x.1, y.1);
}

pub proof fn lemma_entry_le_transitive(
    x: (Seq<char>, Seq<char>),
    y: (Seq<char>, Seq<char>),
    z: (Seq<char>, Seq<char>),
)
    requires
        entry_le(x, y),
        entry_le(y, z),
    ensures
        entry_le(x, z),
{
    if x.0 != y.0 && y.0 != z.0 {
        lemma_text_le_transitive(x.0, y.0, z.0);
        if x.0 == z.0 {
            lemma_text_le_antisymmetric(x.0, y.0);
        }
    } else if x.0 != y.0 {
        assert(y.0 == z.0);
    } else if y.0 != z.0 {
        assert(x.0 == y.0);
    } else {
        lemma_text_le_transitive(x.1, y.1, z.1);
    }
}

/// The entry of a file: (stem, name).
pub open spec fn entry_of(f: DictionaryFile) -> (Seq<char>, Seq<char>) {
    (f.stem@, f.name@)
}

pub open spec fn entries_view(fs: Seq<DictionaryFile>) -> Seq<(Seq<char>, Seq<char>)> {
    fs.map_values(|f: DictionaryFile| entry_of(f))
}

/// The dictionary files among `names`, as (stem, name) in the order given.
pub open spec fn dictionary_entries(names: Seq<Seq<char>>) -> Seq<(Seq<char>, Seq<char>)>
    decreases names.len(),
{
    if names.len() == 0 {
        Seq::empty()
    } else {
        dictionary_entries(names.drop_last()) + if is_dictionary_file(names.last()) {
            seq![(file_stem(names.last()), names.last())]
        } else {
            Seq::empty()
        }
    }
}

pub open spec fn sorted_entries(s: Seq<(Seq<char>, Seq<char>)>) -> bool {
    forall|i: int, j: int| 0 <= i < j < s.len() ==> entry_le(#[trigger] s[i], #[trigger] s[j])
}

fn text_le_exec(a: &String, b: &String) -> (le: bool)
    ensures
        le == text_le(a@, b@),
{
    let x = chars_of(a.as_str());
    let y = chars_of(b.as_str());
    let mut i: usize = 0;
    assert(x@.subrange(0, x@.len() as int) =~= x@);
    assert(y@.subrange(0, y@.len() as int) =~= y@);
    while i < x.len() && i < y.len() && x[i] == y[i]
        invariant
            i <= x@.len(),
            i <= y@.len(),
            text_le(a@, b@) == text_le(x@.subrange(i as int, x@.len() as int), y@.subrange(
                i as int,
                y@.len() as int,
            )),
            x@ == a@,
            y@ == b@,
        decreases x.len() - i,
    {
        assert(x@.subrange(i as int, x@.len() as int).drop_first() =~= x@.subrange(
            i + 1,
            x@.len() as int,
        ));
        assert(y@.subrange(i as int, y@.len() as int).drop_first() =~= y@.subrange(
            i + 1,
            y@.len() as int,
        ));
        i = i + 1;
    }
    if i == x.len() {
        true
    } else if i == y.len() {
        false
    } else {
        x[i] < y[i]
    }
}

fn entry_le_exec(x: &DictionaryFile, y: &DictionaryFile) -> (le: bool)
    ensures
        le == entry_le(entry_of(*x), entry_of(*y)),
{
    if x.stem != y.stem {
        text_le_exec(&x.stem, &y.stem)
    } else {
        text_le_exec(&x.name, &y.name)
    }
}

/// The loadable dictionaries among the file names of a directory, as
/// (stem, file name), sorted by stem and then by file name.
pub fn list(names: &Vec<String>) -> (files: Vec<DictionaryFile>)
    ensures
        sorted_entries(entries_view(files@)),
        entries_view(files@).to_multiset() == dictionary_entries(
            names@.map_values(|n: String| n@),
        ).to_multiset(),
{
    let ghost views = names@.map_values(|n: String| n@);
    let mut files: Vec<DictionaryFile> = Vec::new();
    let mut i: usize = 0;
    assert(views.take(0) =~= Seq::<Seq<char>>::empty());
    assert(entries_view(files@) =~= Seq::<(Seq<char>, Seq<char>)>::empty());
    while i < names.len()
        invariant
            i <= names@.len(),
            views == names@.map_values(|n: String| n@),
            sorted_entries(entries_view(files@)),
            entries_view(files@).to_multiset() == dictionary_entries(
                views.take(i as int),
            ).to_multiset(),
        decreases names.len() - i,
    {
        let name = &names[i];
        assert(views.take(i + 1).drop_last() =~= views.take(i as int));
        assert(views.take(i + 1).last() == name@);
        proof {
            lemma_last_index_of(name@, '.');
        }
        let len = name.as_str().unicode_len();
        let dot = find_last(name.as_str(), '.');
        let mut entry: Option<DictionaryFile> = None;
        if let Some(d) = dot {
            if d > 0 {
                let ext = name.as_str().substring_char(d + 1, len);
                assert(ext@ == name@.subrange(d + 1, name@.len() as int));
                proof {
                    reveal_strlit("qj");
                    reveal_strlit("tsv");
                }
                if str_eq(ext, "qj") || str_eq(ext, "tsv") {
                    let stem = name.as_str().substring_char(0, d);
                    entry = Some(
                        DictionaryFile { stem: stem.to_owned(), name: name.clone() },
                    );
                }
            }
        }
        assert(entry is Some <==> is_dictionary_file(name@));
        match entry {
            Some(f) => {
                assert(entry_of(f) == (file_stem(name@), name@));
                let ghost old_files = files@;
                // insertion point: after every entry not greater than `f`
                let mut p = files.len();
                while p > 0 && !entry_le_exec(&files[p - 1], &f)
                    invariant
                        p <= files@.len(),
                        files@ == old_files,
                        forall|k: int| p <= k < files@.len() ==> !entry_le(
                            entry_of(#[trigger] files@[k]),
                            entry_of(f),
                        ),
                    decreases p,
                {
                    p = p - 1;
                }
                let ghost before = entries_view(files@);
                proof {
                    assert forall|k: int| p <= k < before.len() implies entry_le(
                        entry_of(f),
                        #[trigger] before[k],
                    ) by {
                        lemma_entry_le_total(entry_of(f), before[k]);
                    }
                    if p > 0 {
                        assert forall|k: int| 0 <= k < p implies entry_le(
                            #[trigger] before[k],
                            entry_of(f),
                        ) by {
                            if k < p - 1 {
                                lemma_entry_le_transitive(before[k], before[p - 1], entry_of(f));
                            }
                        }
                    }
                }
                files.insert(p, f);
                proof {
                    let after = entries_view(files@);
                    assert(after =~= before.insert(p as int, entry_of(f)));
                    assert forall|a: int, b: int| 0 <= a < b < after.len() implies entry_le(
                        #[trigger] after[a],
                        #[trigger] after[b],
                    ) by {
                        if a < p && b > p {
                            lemma_entry_le_transitive(after[a], after[p as int], after[b]);
                        }
                    }
                    assert(dictionary_entries(views.take(i + 1)) =~= dictionary_entries(
                        views.take(i as int),
                    ).push((file_stem(name@), name@)));
                    assert(after.to_multiset() == before.to_multiset().insert(entry_of(f)));
                }
            },
            None => {
                assert(dictionary_entries(views.take(i + 1)) =~= dictionary_entries(
                    views.take(i as int),
                ));
            },
        }
        i = i + 1;
    }
    assert(views.take(names@.len() as int) =~= views);
    files
}

} // verus!
