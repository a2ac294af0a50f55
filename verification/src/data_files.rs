//! Choice of the data files the MCP server loads: the packed `.qj` in
//! `data/generated/`, the TSV there, the product data shipped in the
//! repository, and finally the sample data. Paths are built as on Unix:
//! `/` separates components.

use vstd::prelude::*;
use crate::text::{last_index_of, lemma_last_index_of, starts_with_str};

verus! {

/// The stem of a file name: everything before the last `.`, unless that
/// part would be empty (as in `.env`), in which case the whole name.
pub open spec fn file_stem(name: Seq<char>) -> Seq<char> {
    if last_index_of(name, '.') > 0 {
        name.subrange(0, last_index_of(name, '.'))
    } else {
        name
    }
}

/// Glossary tables are named `glossary-<language>.tsv`.
pub open spec fn is_glossary_name(name: Seq<char>) -> bool {
    name.len() >= 9 && name.subrange(0, 9) == "glossary-"@
}

/// `name` joined onto the directory `base`: a name that starts with `/` is
/// absolute and takes the place of `base`; any other follows `base` after a
/// `/` (an empty one leaves just the `/`).
pub open spec fn join_path(base: Seq<char>, name: Seq<char>) -> Seq<char> {
    if name.len() > 0 && name[0] == '/' {
        name
    } else {
        base + "/"@ + name
    }
}

/// Whether the first `n` characters of `p` end in something that is not a
/// component: a `/`, or a `.` that stands alone after a `/` or at the start.
pub open spec fn ends_in_separator_or_dot(p: Seq<char>, n: int) -> bool {
    &&& 0 < n <= p.len()
    &&& (p[n - 1] == '/' || (p[n - 1] == '.' && (n == 1 || p[n - 2] == '/')))
}

/// Where the last component of `p[..n]` ends: trailing `/` and lone `.`
/// components do not count; 0 when no component is left.
pub open spec fn component_end(p: Seq<char>, n: int) -> int
    decreases n,
{
    if n > 0 && ends_in_separator_or_dot(p, n) {
        component_end(p, n - 1)
    } else if n > 0 {
        n
    } else {
        0
    }
}

/// Where the last component of `p` starts: just after the last `/` before
/// its end.
pub open spec fn component_start(p: Seq<char>) -> int {
    last_index_of(p.subrange(0, component_end(p, p.len() as int)), '/') + 1
}

/// The last component of `p` is a file name: there is one, and it is not `..`.
pub open spec fn has_file_name(p: Seq<char>) -> bool {
    &&& component_end(p, p.len() as int) > 0
    &&& p.subrange(component_start(p), component_end(p, p.len() as int)) != ".."@
}

/// `p` with its extension set to `ext`: what follows the stem of the file
/// name is dropped and `.` and `ext` follow; a path without a file name
/// (the root, or one that ends in `..`) stays as it is.
pub open spec fn with_extension(p: Seq<char>, ext: Seq<char>) -> Seq<char> {
    if has_file_name(p) {
        let start = component_start(p);
        let name = p.subrange(start, component_end(p, p.len() as int));
        p.subrange(0, start + file_stem(name).len()) + "."@ + ext
    } else {
        p
    }
}

/// The candidate paths of `name`, best first: packed `.qj` in
/// `data/generated/`, the file itself there, the shipped product data.
pub open spec fn data_file_candidates(name: Seq<char>) -> Seq<Seq<char>> {
    seq![
        with_extension(join_path("data/generated"@, name), "qj"@),
        join_path("data/generated"@, name),
        join_path(
            if is_glossary_name(name) {
                "assets/glossary"@
            } else {
                "assets/lexicon"@
            },
            name,
        ),
    ]
}

/// The last resort: the sample data.
pub open spec fn sample_data_file(name: Seq<char>) -> Seq<char> {
    join_path("assets/sample"@, name)
}

/// The first candidate that exists, else the sample file.
pub open spec fn choose_data_file(name: Seq<char>, present: Seq<bool>) -> Seq<char> {
    let candidates = data_file_candidates(name);
    if present.len() > 0 && present[0] {
        candidates[0]
    } else if present.len() > 1 && present[1] {
        candidates[1]
    } else if present.len() > 2 && present[2] {
        candidates[2]
    } else {
        sample_data_file(name)
    }
}

/// `name` joined onto the directory `base` (see [`join_path`]).
pub fn join_path_of(base: &str, name: &str) -> (path: String)
    ensures
        path@ == join_path(base@, name@),
{
    if name.unicode_len() > 0 && name.get_char(0) == '/' {
        String::from_str(name)
    } else {
        let mut path = String::from_str(base);
        path.append("/");
        path.append(name);
        path
    }
}

/// One past the last `c` in `p[lo..hi]`, counted from `lo`; 0 when there is none.
fn last_index_in(p: &str, lo: usize, hi: usize, c: char) -> (k: usize)
    requires
        lo <= hi <= p@.len(),
    ensures
        k as int == last_index_of(p@.subrange(lo as int, hi as int), c) + 1,
{
    let mut i = hi;
    while i > lo && p.get_char(i - 1) != c
        invariant
            lo <= i <= hi <= p@.len(),
            last_index_of(p@.subrange(lo as int, hi as int), c) == last_index_of(
                p@.subrange(lo as int, i as int),
                c,
            ),
        decreases i,
    {
        assert(p@.subrange(lo as int, i as int).drop_last() =~= p@.subrange(
            lo as int,
            i - 1,
        ));
        i = i - 1;
    }
    if i == lo {
        assert(p@.subrange(lo as int, lo as int) =~= Seq::<char>::empty());
    }
    i - lo
}

/// `p` with its extension set to `ext` (see [`with_extension`]).
pub fn with_extension_of(p: &str, ext: &str) -> (path: String)
    ensures
        path@ == with_extension(p@, ext@),
{
    let n = p.unicode_len();
    let mut end = n;
    while end > 0 && (p.get_char(end - 1) == '/' || (p.get_char(end - 1) == '.' && (end == 1
        || p.get_char(end - 2) == '/')))
        invariant
            end <= n == p@.len(),
            component_end(p@, n as int) == component_end(p@, end as int),
        decreases end,
    {
        assert(ends_in_separator_or_dot(p@, end as int));
        end = end - 1;
    }
    assert(component_end(p@, end as int) == end);
    if end == 0 {
        return String::from_str(p);
    }
    let start = last_index_in(p, 0, end, '/');
    proof {
        lemma_last_index_of(p@.subrange(0, end as int), '/');
    }
    let name = p.substring_char(start, end);
    proof {
        reveal_strlit("..");
    }
    if end - start == 2 && p.get_char(start) == '.' && p.get_char(start + 1) == '.' {
        assert(name@ =~= ".."@);
        return String::from_str(p);
    }
    assert(name@ != ".."@) by {
        if name@ == ".."@ {
            assert(name@.len() == 2);
            assert(name@[0] == p@[start as int]);
            assert(name@[1] == p@[start + 1]);
        }
    }
    let dot = last_index_in(name, 0, end - start, '.');
    assert(name@.subrange(0, (end - start) as int) =~= name@);
    proof {
        lemma_last_index_of(name@, '.');
    }
    let stem_len = if dot > 1 {
        dot - 1
    } else {
        end - start
    };
    assert(stem_len == file_stem(name@).len());
    let mut path = String::from_str(p.substring_char(0, start + stem_len));
    path.append(".");
    path.append(ext);
    path
}

/// The candidate paths of a data file, best first.
pub fn data_file_candidates_of(name: &str) -> (paths: Vec<String>)
    ensures
        paths@.len() == 3,
        forall|i: int| 0 <= i < 3 ==> (#[trigger] paths@[i])@ == data_file_candidates(name@)[i],
{
    proof {
        reveal_strlit("glossary-");
    }
    let generated = join_path_of("data/generated", name);
    let packed = with_extension_of(generated.as_str(), "qj");
    let glossary = starts_with_str(name, "glossary-");
    assert(glossary == is_glossary_name(name@));
    let shipped = if glossary {
        join_path_of("assets/glossary", name)
    } else {
        join_path_of("assets/lexicon", name)
    };
    let mut paths = Vec::new();
    paths.push(packed);
    paths.push(generated);
    paths.push(shipped);
    paths
}

/// The data file of `name`, given which of its candidates exist.
pub fn pick_data_file(name: &str, present: &[bool]) -> (path: String)
    ensures
        path@ == choose_data_file(name@, present@),
{
    let candidates = data_file_candidates_of(name);
    let mut i: usize = 0;
    while i < 3
        invariant
            i <= 3,
            candidates@.len() == 3,
            forall|k: int|
                0 <= k < 3 ==> (#[trigger] candidates@[k])@ == data_file_candidates(name@)[k],
            forall|k: int| 0 <= k < i ==> !(k < present@.len() && present@[k]),
        decreases 3 - i,
    {
        if i < present.len() && present[i] {
            let chosen = candidates[i].clone();
            assert(chosen@ == data_file_candidates(name@)[i as int]);
            return chosen;
        }
        i = i + 1;
    }
    join_path_of("assets/sample", name)
}

/// `Path::is_file`: whether `path` names an existing regular file right now.
/// Nothing is stated of the answer: it depends on the file system at the
/// moment of the call.
#[verifier::external_body]
fn path_is_file(path: &str) -> (exists: bool) {
    std::path::Path::new(path).is_file()
}

/// Picks an existing data file by priority: packed `.qj` in
/// `data/generated/`, the file there, the shipped product data, and
/// finally the sample data (returned whether it exists or not).
pub fn default_data_file(name: &str) -> (path: String)
    ensures
        exists|present: Seq<bool>| path@ == choose_data_file(name@, present),
{
    let candidates = data_file_candidates_of(name);
    let mut present: Vec<bool> = Vec::new();
    let mut i: usize = 0;
    while i < 3
        invariant_except_break
            present@.len() == i,
        invariant
            i <= 3,
            candidates@.len() == 3,
        decreases 3 - i,
    {
        let exists = path_is_file(candidates[i].as_str());
        present.push(exists);
        if exists {
            break;
        }
        i = i + 1;
    }
    pick_data_file(name, present.as_slice())
}

/// The glossary table of a language: `glossary-<code>.tsv`.
pub fn glossary_file_name(code: &str) -> (name: String)
    ensures
        name@ == "glossary-"@ + code@ + ".tsv"@,
{
    let mut name = String::from_str("glossary-");
    name.append(code);
    name.append(".tsv");
    name
}

/// The English word list to load: the one given on the command line, else
/// the default `english.tsv` when that file exists, else none.
pub fn english_list_path(given: Option<String>) -> (path: Option<String>)
    ensures
        given matches Some(g) ==> (path matches Some(p) && p@ == g@),
        given is None ==> (path matches Some(p) ==> exists|present: Seq<bool>|
            p@ == choose_data_file("english.tsv"@, present)),
{
    match given {
        Some(g) => Some(g),
        None => {
let path = default_data_file("english.tsv");
            if path_is_file(path.as_str()) {
                Some(path)
            } else {
                None
            }
        },
    }
}

/// The emoji tables shipped with the repository, Chinese first.
pub open spec fn emoji_tables() -> Seq<Seq<char>> {
    seq!["assets/emoji/emoji-zh.tsv"@, "assets/emoji/emoji-en.tsv"@]
}

/// The emoji tables kept, in order, given which of the two exist.
pub open spec fn present_tables(zh_exists: bool, en_exists: bool) -> Seq<Seq<char>> {
    (if zh_exists { seq![emoji_tables()[0]] } else { Seq::empty() })
        + (if en_exists { seq![emoji_tables()[1]] } else { Seq::empty() })
}

/// The emoji tables to merge, given which of the Chinese and English tables
/// exist: those that exist, Chinese first.
pub fn emoji_tables_of(zh_exists: bool, en_exists: bool) -> (paths: Vec<String>)
    ensures
        paths@.len() == present_tables(zh_exists, en_exists).len(),
        forall|i: int| 0 <= i < paths@.len() ==> (#[trigger] paths@[i])@ == present_tables(zh_exists, en_exists)[i],
{
    let mut paths: Vec<String> = Vec::new();
    if zh_exists {
        paths.push(String::from_str("assets/emoji/emoji-zh.tsv"));
    }
    if en_exists {
        paths.push(String::from_str("assets/emoji/emoji-en.tsv"));
    }
    proof {
        assert(emoji_tables()[0] == "assets/emoji/emoji-zh.tsv"@);
        assert(emoji_tables()[1] == "assets/emoji/emoji-en.tsv"@);
        let want = present_tables(zh_exists, en_exists);
        if zh_exists && en_exists {
            assert(want =~= seq![emoji_tables()[0], emoji_tables()[1]]);
        } else if zh_exists {
            assert(want =~= seq![emoji_tables()[0]]);
        } else if en_exists {
            assert(want =~= seq![emoji_tables()[1]]);
        } else {
            assert(want =~= Seq::<Seq<char>>::empty());
        }
    }
    paths
}

/// The shipped emoji tables that exist, in order (they are merged into one;
/// with none there are no emoji candidates). Each table is asked of the file
/// system once; the result is the tables for which the answer was yes,
/// Chinese first.
pub fn present_emoji_tables() -> (paths: Vec<String>)
    ensures
        exists|zh_exists: bool, en_exists: bool|
            paths@.len() == present_tables(zh_exists, en_exists).len()
            && forall|i: int| 0 <= i < paths@.len()
                ==> (#[trigger] paths@[i])@ == present_tables(zh_exists, en_exists)[i],
{
    let zh_exists = path_is_file("assets/emoji/emoji-zh.tsv");
    let en_exists = path_is_file("assets/emoji/emoji-en.tsv");
    let paths = emoji_tables_of(zh_exists, en_exists);
    assert(paths@.len() == present_tables(zh_exists, en_exists).len()
        && forall|i: int| 0 <= i < paths@.len()
            ==> (#[trigger] paths@[i])@ == present_tables(zh_exists, en_exists)[i]);
    paths
}

/// The server's command line: data file overrides and the learning language.
pub struct Args {
    /// Dictionary path; found automatically when missing.
    pub dict: Option<String>,
    /// Glossary path; found automatically when missing.
    pub glossary: Option<String>,
    /// Learning language (`en`, `ja`, `es`, ...).
    pub language: String,
    /// English word list; found automatically when missing.
    pub english: Option<String>,
}

impl Args {
    /// The dictionary to load: the one given, else the default `dict.tsv`.
    pub fn dict_path(&self) -> (path: String)
        ensures
            self.dict matches Some(d) ==> path@ == d@,
            self.dict is None ==> exists|present: Seq<bool>|
                path@ == choose_data_file("dict.tsv"@, present),
    {
        match &self.dict {
            Some(d) => d.clone(),
            None => {
default_data_file("dict.tsv")
            },
        }
    }

    /// The glossary to load for the language `code`: the one given, else
    /// the default `glossary-<code>.tsv`.
    pub fn glossary_path(&self, code: &str) -> (path: String)
        ensures
            self.glossary matches Some(g) ==> path@ == g@,
            self.glossary is None ==> exists|present: Seq<bool>|
                path@ == choose_data_file("glossary-"@ + code@ + ".tsv"@, present),
    {
        match &self.glossary {
            Some(g) => g.clone(),
            None => {
                let name = glossary_file_name(code);
                default_data_file(name.as_str())
            },
        }
    }

    /// The English word list to load, if any (see [`english_list_path`]).
    pub fn english_path(&self) -> (path: Option<String>)
        ensures
            self.english matches Some(e) ==> (path matches Some(p) && p@ == e@),
            self.english is None ==> (path matches Some(p) ==> exists|present: Seq<bool>|
                p@ == choose_data_file("english.tsv"@, present)),
    {
        let given = match &self.english {
            Some(e) => Some(e.clone()),
            None => None,
        };
        english_list_path(given)
    }
}

} // verus!
