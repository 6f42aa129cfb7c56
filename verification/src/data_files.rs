//! Engine kinds and the classification of data files by their name.
use vstd::prelude::*;
use vstd::string::{StrSliceExecFns, StringExecFns};

verus! {

/// The kinds of engine the service runs, one registry each.
#[derive(Clone, Copy, Debug, PartialEq, Eq, Structural, Hash)]
pub enum EngineKind {
    Spelling,
    Grammar,
    Hyphenation,
}

impl EngineKind {
    /// The file extension that marks a data file of this kind.
    pub open spec fn ext(self) -> Seq<char> {
        match self {
            EngineKind::Spelling => seq!['z', 'h', 'f', 's', 't'],
            EngineKind::Grammar => seq!['z', 'c', 'h', 'e', 'c', 'k'],
            EngineKind::Hyphenation => seq!['h', 'f', 's', 't', 'o', 'l'],
        }
    }

    /// The subdirectory of the data root that holds the files of this kind.
    pub open spec fn dir(self) -> Seq<char> {
        match self {
            EngineKind::Spelling => seq!['s', 'p', 'e', 'l', 'l', 'i', 'n', 'g'],
            EngineKind::Grammar => seq!['g', 'r', 'a', 'm', 'm', 'a', 'r'],
            EngineKind::Hyphenation => seq!['h', 'y', 'p', 'h', 'e', 'n', 'a', 't', 'i', 'o', 'n'],
        }
    }

    /// The place of the kind in listings: spelling first, then grammar,
    /// then hyphenation.
    pub open spec fn rank(self) -> int {
        match self {
            EngineKind::Spelling => 0,
            EngineKind::Grammar => 1,
            EngineKind::Hyphenation => 2,
        }
    }

    /// The name under which the languages of the kind are listed.
    pub open spec fn key(self) -> Seq<char> {
        match self {
            EngineKind::Spelling => "speller"@,
            EngineKind::Grammar => "grammar"@,
            EngineKind::Hyphenation => "hyphenation"@,
        }
    }

    pub fn as_key(&self) -> (key: &'static str)
        ensures
            key@ == self.key(),
    {
        match self {
            EngineKind::Spelling => "speller",
            EngineKind::Grammar => "grammar",
            EngineKind::Hyphenation => "hyphenation",
        }
    }

    pub fn as_ext(&self) -> (ext: &'static str)
        ensures
            ext@ == self.ext(),
    {
        proof {
            reveal_strlit("zhfst");
            reveal_strlit("zcheck");
            reveal_strlit("hfstol");
        }
        match self {
            EngineKind::Spelling => {
                assert("zhfst"@ =~= EngineKind::Spelling.ext());
                "zhfst"
            },
            EngineKind::Grammar => {
                assert("zcheck"@ =~= EngineKind::Grammar.ext());
                "zcheck"
            },
            EngineKind::Hyphenation => {
                assert("hfstol"@ =~= EngineKind::Hyphenation.ext());
                "hfstol"
            },
        }
    }

    pub fn as_dir(&self) -> (dir: &'static str)
        ensures
            dir@ == self.dir(),
    {
        proof {
            reveal_strlit("spelling");
            reveal_strlit("grammar");
            reveal_strlit("hyphenation");
        }
        match self {
            EngineKind::Spelling => {
                assert("spelling"@ =~= EngineKind::Spelling.dir());
                "spelling"
            },
            EngineKind::Grammar => {
                assert("grammar"@ =~= EngineKind::Grammar.dir());
                "grammar"
            },
            EngineKind::Hyphenation => {
                assert("hyphenation"@ =~= EngineKind::Hyphenation.dir());
                "hyphenation"
            },
        }
    }
}

/// A name under a directory: the two joined by one `/`, which is left out
/// where the directory is the empty path or ends in `/` already.
pub open spec fn joined(dir: Seq<char>, name: Seq<char>) -> Seq<char> {
    if dir.len() == 0 {
        name
    } else if dir.last() == '/' {
        dir + name
    } else {
        dir + seq!['/'] + name
    }
}

/// The directory of the data root that holds the files of a kind.
pub fn get_typed_data_dir(data_file_dir: &str, kind: EngineKind) -> (dir: String)
    ensures
        dir@ == joined(data_file_dir@, kind.dir()),
{
    let len = data_file_dir.unicode_len();
    let mut dir = String::from_str(data_file_dir);
    if len > 0 && data_file_dir.get_char(len - 1) != '/' {
        proof {
            reveal_strlit("/");
        }
        dir.append("/");
        assert(dir@ =~= data_file_dir@ + seq!['/']);
    }
    dir.append(kind.as_dir());
    assert(dir@ =~= joined(data_file_dir@, kind.dir()));
    dir
}

/// The index of the last occurrence of `c` in `s`, or -1 where there is none.
pub open spec fn last_index_of(s: Seq<char>, c: char) -> int
    decreases s.len(),
{
    if s.len() == 0 {
        -1
    } else if s.last() == c {
        s.len() - 1
    } else {
        last_index_of(s.drop_last(), c)
    }
}

/// `last_index_of` finds an occurrence after which there is no other, and
/// answers -1 exactly where the character does not occur.
pub proof fn lemma_last_index_of(s: Seq<char>, c: char)
    ensures
        -1 <= last_index_of(s, c) < s.len(),
        last_index_of(s, c) >= 0 ==> s[last_index_of(s, c)] == c,
        forall|j: int| last_index_of(s, c) < j < s.len() ==> s[j] != c,
    decreases s.len(),
{
    if s.len() > 0 && s.last() != c {
        let front = s.drop_last();
        lemma_last_index_of(front, c);
        assert forall|j: int| last_index_of(s, c) < j < s.len() implies s[j] != c by {
            if j < front.len() {
                assert(front[j] == s[j]);
            }
        }
    }
}

/// An ASCII capital letter becomes its small letter; any other character stays.
pub open spec fn ascii_lower(c: char) -> char {
    if 'A' <= c && c <= 'Z' {
        ((c as u8) + 32) as char
    } else {
        c
    }
}

pub fn to_ascii_lower(c: char) -> (low: char)
    ensures
        low == ascii_lower(c),
{
    if c >= 'A' && c <= 'Z' {
        ((c as u8) + 32) as char
    } else {
        c
    }
}

/// Where an index holds `c` and no later one does, it is the one `last_index_of` gives.
pub proof fn lemma_last_index_is(s: Seq<char>, c: char, i: int)
    requires
        -1 <= i < s.len(),
        i >= 0 ==> s[i] == c,
        forall|j: int| i < j < s.len() ==> s[j] != c,
    ensures
        last_index_of(s, c) == i,
{
    lemma_last_index_of(s, c);
}

/// The characters of a string, in order.
pub fn chars_of(s: &str) -> (chars: Vec<char>)
    ensures
        chars@ == s@,
{
    let mut chars: Vec<char> = Vec::new();
    for c in it: s.chars()
        invariant
            chars@ == it.seq().take(it.index() as int),
            it.seq() == s@,
    {
        chars.push(c);
    }
    chars
}

/// The position of the last `c` at or after `start`, counted from `start`.
fn find_last(chars: &Vec<char>, start: usize, c: char) -> (found: Option<usize>)
    requires
        start <= chars.len(),
    ensures
        match found {
            Some(i) => start <= i < chars.len() && last_index_of(
                chars@.subrange(start as int, chars.len() as int),
                c,
            ) == i - start,
            None => last_index_of(chars@.subrange(start as int, chars.len() as int), c) == -1,
        },
{
    let ghost tail = chars@.subrange(start as int, chars.len() as int);
    let mut i: usize = chars.len();
    while i > start
        invariant
            start <= i <= chars.len(),
            tail == chars@.subrange(start as int, chars.len() as int),
            forall|j: int| i - start <= j < tail.len() ==> tail[j] != c,
        decreases i,
    {
        i = i - 1;
        if chars[i] == c {
            proof {
                assert(tail[i - start] == chars@[i as int]);
                lemma_last_index_is(tail, c, i - start);
            }
            return Some(i);
        }
        assert(tail[i - start] == chars@[i as int]);
    }
    proof {
        lemma_last_index_is(tail, c, -1);
    }
    None
}

/// The text with every ASCII capital letter made small.
pub open spec fn lowered(s: Seq<char>) -> Seq<char> {
    s.map_values(|c: char| ascii_lower(c))
}

/// The kind whose extension `ext` is, letter case aside.
pub open spec fn kind_of_extension(ext: Seq<char>) -> Option<EngineKind> {
    if lowered(ext) == EngineKind::Spelling.ext() {
        Some(EngineKind::Spelling)
    } else if lowered(ext) == EngineKind::Grammar.ext() {
        Some(EngineKind::Grammar)
    } else if lowered(ext) == EngineKind::Hyphenation.ext() {
        Some(EngineKind::Hyphenation)
    } else {
        None
    }
}

/// The last component of a path: what follows its last `/`.
pub open spec fn file_name(path: Seq<char>) -> Seq<char> {
    path.subrange(last_index_of(path, '/') + 1, path.len() as int)
}

/// The kind and language that a path names: the file name is split at its
/// last `.` into a stem, which must not be empty, and an extension, which
/// must be that of a kind. The stem is the language, exactly as written.
pub open spec fn classify_name(path: Seq<char>) -> Option<(EngineKind, Seq<char>)> {
    let name = file_name(path);
    let dot = last_index_of(name, '.');
    if dot <= 0 {
        None
    } else {
        match kind_of_extension(name.subrange(dot + 1, name.len() as int)) {
            Some(kind) => Some((kind, name.subrange(0, dot))),
            None => None,
        }
    }
}

/// What a look at the file system found at a path, links followed.
#[derive(Clone, Copy, Debug, PartialEq, Eq, Structural)]
pub enum PathKind {
    File,
    Directory,
    Missing,
}

/// The kind and language of the data file at `path`: those its name gives,
/// provided a regular file is there.
pub open spec fn classify(path: Seq<char>, on_disk: PathKind) -> Option<(EngineKind, Seq<char>)> {
    if on_disk == PathKind::File {
        classify_name(path)
    } else {
        None
    }
}

/// A data file: the kind of engine it feeds, the language it is for, and
/// where it lies.
#[derive(Debug)]
pub struct DataFile {
    kind: EngineKind,
    language: String,
    path: String,
}

pub struct DataFileView {
    pub kind: EngineKind,
    pub language: Seq<char>,
    pub path: Seq<char>,
}

impl View for DataFile {
    type V = DataFileView;

    closed spec fn view(&self) -> DataFileView {
        DataFileView { kind: self.kind, language: self.language@, path: self.path@ }
    }
}

impl DataFile {
    #[verifier::type_invariant]
    spec fn named_by_path(self) -> bool {
        classify_name(self.path@) == Some((self.kind, self.language@))
    }

    /// The kind of the file, which is the one that its path names.
    pub fn kind(&self) -> (kind: EngineKind)
        ensures
            kind == self@.kind,
            classify_name(self@.path) == Some((self@.kind, self@.language)),
    {
        proof {
            use_type_invariant(self);
        }
        self.kind
    }

    pub fn language(&self) -> (language: &str)
        ensures
            language@ == self@.language,
    {
        self.language.as_str()
    }

    pub fn path(&self) -> (path: &str)
        ensures
            path@ == self@.path,
    {
        self.path.as_str()
    }
}

/// Whether the characters from `from` on are the extension of `kind`,
/// letter case aside.
fn extension_is(chars: &Vec<char>, from: usize, kind: EngineKind) -> (same: bool)
    requires
        from <= chars.len(),
    ensures
        same == (lowered(chars@.subrange(from as int, chars.len() as int)) == kind.ext()),
{
    let wanted = chars_of(kind.as_ext());
    let ghost ext = chars@.subrange(from as int, chars.len() as int);
    if chars.len() - from != wanted.len() {
        return false;
    }
    let mut i: usize = 0;
    while i < wanted.len()
        invariant
            from <= chars.len(),
            chars.len() - from == wanted.len(),
            0 <= i <= wanted.len(),
            ext == chars@.subrange(from as int, chars.len() as int),
            wanted@ == kind.ext(),
            forall|j: int| 0 <= j < i ==> lowered(ext)[j] == wanted@[j],
        decreases wanted.len() - i,
    {
        if to_ascii_lower(chars[from + i]) != wanted[i] {
            assert(lowered(ext)[i as int] != wanted@[i as int]);
            return false;
        }
        i = i + 1;
    }
    assert(lowered(ext) =~= wanted@);
    true
}

/// Classifies a path by its name alone, without a look at the file system.
pub fn classify_by_name(path: &str) -> (file: Option<DataFile>)
    ensures
        match classify_name(path@) {
            Some((kind, language)) => file matches Some(f) && f@ == (DataFileView {
                kind,
                language,
                path: path@,
            }),
            None => file is None,
        },
{
    let chars = chars_of(path);
    let start: usize = match find_last(&chars, 0, '/') {
        Some(slash) => slash + 1,
        None => 0,
    };
    assert(chars@.subrange(0, chars.len() as int) =~= chars@);
    let ghost name = file_name(path@);
    assert(name == chars@.subrange(start as int, chars.len() as int));
    let dot: usize = match find_last(&chars, start, '.') {
        Some(dot) => dot,
        None => { return None; },
    };
    if dot == start {
        return None;
    }
    let ghost ext = name.subrange(dot - start + 1, name.len() as int);
    assert(ext =~= chars@.subrange(dot + 1, chars.len() as int));
    let kind = if extension_is(&chars, dot + 1, EngineKind::Spelling) {
        EngineKind::Spelling
    } else if extension_is(&chars, dot + 1, EngineKind::Grammar) {
        EngineKind::Grammar
    } else if extension_is(&chars, dot + 1, EngineKind::Hyphenation) {
        EngineKind::Hyphenation
    } else {
        return None;
    };
    let language = path.substring_char(start, dot).to_owned();
    assert(language@ =~= name.subrange(0, dot - start));
    Some(DataFile { kind, language, path: path.to_owned() })
}

/// Classifies the path of a file that is there: directories and paths at
/// which nothing is found are rejected, the rest goes by the name.
pub fn classify_file(path: &str, on_disk: PathKind) -> (file: Option<DataFile>)
    ensures
        match classify(path@, on_disk) {
            Some((kind, language)) => file matches Some(f) && f@ == (DataFileView {
                kind,
                language,
                path: path@,
            }),
            None => file is None,
        },
{
    match on_disk {
        PathKind::File => classify_by_name(path),
        _ => None,
    }
}

} // verus!
