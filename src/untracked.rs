use vstd::prelude::*;

use crate::error::ScanError;
use crate::matcher::LineMatcher;
use crate::record::{record_views, TodoLine, TodoLineView};
use crate::text::{byte_views, decode_utf8, ends_with_char, lines_of, split_lines, utf8_decoding};

verus! {

/// One entry of the working directory's status: whether it is new in the
/// working directory (untracked), and its path where that is valid text.
pub struct StatusEntry {
    pub is_new: bool,
    pub path: Option<String>,
}

/// A new file of the working directory with its contents.
pub struct NewFile {
    pub path: String,
    pub content: Vec<u8>,
}

/// The texts that a vector of strings holds.
pub open spec fn string_views(v: Seq<String>) -> Seq<Seq<char>> {
    v.map_values(|s: String| s@)
}

/// A status path that names a directory: git reports an untracked
/// directory by its path with a trailing `/`.
pub open spec fn is_directory_path(p: Seq<char>) -> bool {
    p.len() > 0 && p.last() == '/'
}

/// The paths of the new entries that are files, in order, or `InvalidPath`
/// where the first new entry without a text path stands.
pub open spec fn new_paths(es: Seq<StatusEntry>) -> Result<Seq<Seq<char>>, ScanError>
    decreases es.len(),
{
    if es.len() == 0 {
        Ok(seq![])
    } else {
        match new_paths(es.drop_last()) {
            Err(e) => Err(e),
            Ok(acc) => {
                let e = es.last();
                if !e.is_new {
                    Ok(acc)
                } else {
                    match e.path {
                        None => Err(ScanError::InvalidPath),
                        Some(p) => if is_directory_path(p@) {
                            Ok(acc)
                        } else {
                            Ok(acc.push(p@))
                        },
                    }
                }
            },
        }
    }
}

/// Once a prefix of the entries fails, all of them fail with that error.
proof fn lemma_paths_error_persists(es: Seq<StatusEntry>, n: int)
    requires
        0 <= n <= es.len(),
        new_paths(es.take(n)) is Err,
    ensures
        new_paths(es) == new_paths(es.take(n)),
    decreases es.len() - n,
{
    if n < es.len() {
        assert(es.take(n + 1).drop_last() =~= es.take(n));
        lemma_paths_error_persists(es, n + 1);
    } else {
        assert(es.take(n) =~= es);
    }
}

/// The paths of the entries that are new in the working directory, leaving
/// out directories.
pub fn new_file_paths(entries: &Vec<StatusEntry>) -> (r: Result<Vec<String>, ScanError>)
    ensures
        match new_paths(entries@) {
            Ok(ps) => r is Ok && string_views(r->Ok_0@) == ps,
            Err(e) => r == Err::<Vec<String>, ScanError>(e),
        },
{
    let mut paths: Vec<String> = Vec::new();
    let mut i: usize = 0;
    assert(entries@.take(0) =~= Seq::<StatusEntry>::empty());
    assert(string_views(paths@) =~= Seq::<Seq<char>>::empty());
    while i < entries.len()
        invariant
            i <= entries@.len(),
            new_paths(entries@.take(i as int)) == Ok::<Seq<Seq<char>>, ScanError>(
                string_views(paths@),
            ),
        decreases entries@.len() - i,
    {
        let e = &entries[i];
        assert(entries@.take(i + 1).drop_last() =~= entries@.take(i as int));
        if e.is_new {
            match &e.path {
                None => {
                    proof {
                        lemma_paths_error_persists(entries@, i + 1);
                    }
                    return Err(ScanError::InvalidPath);
                },
                Some(p) => {
                    if !ends_with_char(p.as_str(), '/') {
                        let ghost before = string_views(paths@);
                        paths.push(p.clone());
                        assert(string_views(paths@) =~= before.push(p@));
                    }
                },
            }
        }
        i = i + 1;
    }
    assert(entries@.take(i as int) =~= entries@);
    Ok(paths)
}

/// The lines that decode as text, in order; the others are dropped.
pub open spec fn decoded_lines(ls: Seq<Seq<u8>>) -> Seq<Seq<char>>
    decreases ls.len(),
{
    if ls.len() == 0 {
        seq![]
    } else {
        decoded_lines(ls.drop_last()) + match utf8_decoding(ls.last()) {
            Some(t) => seq![t],
            None => seq![],
        }
    }
}

/// The records of the text lines of the file `path` that the matcher
/// accepts, each numbered by its 0-based index among the text lines.
pub open spec fn numbered_hits<M: LineMatcher>(
    m: &M,
    path: Seq<char>,
    texts: Seq<Seq<char>>,
) -> Seq<TodoLineView>
    decreases texts.len(),
{
    if texts.len() == 0 {
        seq![]
    } else {
        let k = texts.len() - 1;
        numbered_hits(m, path, texts.drop_last()) + if m.accepts(texts[k]) {
            seq![TodoLineView { line: texts[k], filename: path, lineno: k as u64 }]
        } else {
            seq![]
        }
    }
}

/// The records of one new file.
pub open spec fn file_hits<M: LineMatcher>(m: &M, f: NewFile) -> Seq<TodoLineView> {
    numbered_hits(m, f.path@, decoded_lines(lines_of(f.content@)))
}

/// The records of the new files, file after file.
pub open spec fn new_file_hits<M: LineMatcher>(m: &M, fs: Seq<NewFile>) -> Seq<TodoLineView>
    decreases fs.len(),
{
    if fs.len() == 0 {
        seq![]
    } else {
        new_file_hits(m, fs.drop_last()) + file_hits(m, fs.last())
    }
}

/// Decodes each line, keeping those that are text.
pub fn decode_lines(lines: &Vec<Vec<u8>>) -> (r: Vec<String>)
    ensures
        string_views(r@) == decoded_lines(byte_views(lines@)),
{
    let mut texts: Vec<String> = Vec::new();
    let mut i: usize = 0;
    assert(byte_views(lines@).take(0) =~= Seq::<Seq<u8>>::empty());
    assert(string_views(texts@) =~= Seq::<Seq<char>>::empty());
    while i < lines.len()
        invariant
            i <= lines@.len(),
            string_views(texts@) == decoded_lines(byte_views(lines@).take(i as int)),
        decreases lines@.len() - i,
    {
        let ghost before = string_views(texts@);
        assert(byte_views(lines@).take(i + 1).drop_last() =~= byte_views(lines@).take(i as int));
        match decode_utf8(lines[i].as_slice()) {
            None => {
                assert(before + seq![] =~= before);
            },
            Some(t) => {
                texts.push(t);
                assert(string_views(texts@) =~= before + seq![texts@.last()@]);
            },
        }
        i = i + 1;
    }
    assert(byte_views(lines@).take(i as int) =~= byte_views(lines@));
    texts
}

/// The records of the text lines of the file `path` that the matcher
/// accepts, numbered from 0.
pub fn hits_in_lines<M: LineMatcher>(m: &M, path: &String, texts: &Vec<String>) -> (r: Vec<
    TodoLine,
>)
    ensures
        record_views(r@) == numbered_hits(m, path@, string_views(texts@)),
{
    let mut found: Vec<TodoLine> = Vec::new();
    let mut i: usize = 0;
    assert(string_views(texts@).take(0) =~= Seq::<Seq<char>>::empty());
    assert(record_views(found@) =~= Seq::<TodoLineView>::empty());
    while i < texts.len()
        invariant
            i <= texts@.len(),
            record_views(found@) == numbered_hits(m, path@, string_views(texts@).take(i as int)),
        decreases texts@.len() - i,
    {
        let ghost before = record_views(found@);
        let ghost prefix = string_views(texts@).take(i + 1);
        assert(prefix.drop_last() =~= string_views(texts@).take(i as int));
        assert(prefix[i as int] == texts@[i as int]@);
        if m.matches(texts[i].as_str()) {
            found.push(TodoLine::new(texts[i].clone(), path.clone(), i as u64));
            assert(record_views(found@) =~= before + seq![found@.last()@]);
        } else {
            assert(before + seq![] =~= before);
        }
        i = i + 1;
    }
    assert(string_views(texts@).take(i as int) =~= string_views(texts@));
    found
}

/// Appends to `results` the records of the new files, file after file and
/// line after line.
pub fn extract_for_new_files<M: LineMatcher>(
    files: &Vec<NewFile>,
    m: &M,
    results: &mut Vec<TodoLine>,
)
    ensures
        record_views(final(results)@) == record_views(old(results)@) + new_file_hits(m, files@),
{
    let mut i: usize = 0;
    let ghost start = record_views(results@);
    assert(files@.take(0) =~= Seq::<NewFile>::empty());
    assert(start + seq![] =~= start);
    while i < files.len()
        invariant
            i <= files@.len(),
            start == record_views(old(results)@),
            record_views(results@) == start + new_file_hits(m, files@.take(i as int)),
        decreases files@.len() - i,
    {
        let f = &files[i];
        assert(files@.take(i + 1).drop_last() =~= files@.take(i as int));
        let lines = split_lines(f.content.as_slice());
        let texts = decode_lines(&lines);
        let mut hits = hits_in_lines(m, &f.path, &texts);
        let ghost before = record_views(results@);
        let ghost hit_views = record_views(hits@);
        results.append(&mut hits);
        assert(record_views(results@) =~= before + hit_views);
        assert(start + new_file_hits(m, files@.take(i + 1)) =~= start + new_file_hits(
            m,
            files@.take(i as int),
        ) + file_hits(m, files[i as int]));
        i = i + 1;
    }
    assert(files@.take(i as int) =~= files@);
}

} // verus!
