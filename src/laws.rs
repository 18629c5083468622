use vstd::prelude::*;

use crate::diff_source::{diff_hits, diff_line_outcome, DiffLine, LineOutcome};
use crate::error::ScanError;
use crate::matcher::{comment_opener_at, no_newline_before, todo_marked, todo_word_at, LineMatcher};
use crate::record::TodoLineView;
use crate::scan::scan_result;
use crate::untracked::{decoded_lines, new_file_hits, new_paths, numbered_hits, NewFile, StatusEntry};
use crate::text::utf8_decoding;
use vstd::utf8::valid_utf8;

verus! {

/// A working directory that matches its head commit has an empty diff and
/// no new entry in its status: the scan then finds nothing.
pub proof fn lemma_clean_directory_no_matches<M: LineMatcher>(m: &M, entries: Seq<StatusEntry>)
    requires
        forall|k: int| 0 <= k < entries.len() ==> !(#[trigger] entries[k]).is_new,
    ensures
        new_paths(entries) == Ok::<Seq<Seq<char>>, ScanError>(seq![]),
        scan_result(m, seq![], seq![]) == Ok::<Seq<TodoLineView>, ScanError>(
            seq![],
        ),
    decreases entries.len(),
{
    if entries.len() > 0 {
        lemma_clean_directory_no_matches(m, entries.drop_last());
    }
    assert(Seq::<TodoLineView>::empty() + Seq::<TodoLineView>::empty() =~= seq![]);
}

/// Where one line of the diff is a text line added to the new file that the
/// matcher accepts and every other line yields nothing (unchanged context
/// lines and removed lines always yield nothing), the diff yields
/// exactly one record: that line, with its path and its new line number.
pub proof fn lemma_single_changed_line<M: LineMatcher>(m: &M, ds: Seq<DiffLine>, k: int)
    requires
        0 <= k < ds.len(),
        ds[k].is_addition,
        ds[k].new_lineno is Some,
        utf8_decoding(ds[k].content@) is Some,
        m.accepts(utf8_decoding(ds[k].content@)->Some_0),
        utf8_decoding(ds[k].path@) is Some,
        forall|j: int|
            0 <= j < ds.len() && j != k ==> #[trigger] diff_line_outcome(m, ds[j])
                == LineOutcome::Skip,
    ensures
        diff_hits(m, ds) == Ok::<Seq<TodoLineView>, ScanError>(
            seq![
                TodoLineView {
                    line: utf8_decoding(ds[k].content@)->Some_0,
                    filename: utf8_decoding(ds[k].path@)->Some_0,
                    lineno: ds[k].new_lineno->Some_0 as u64,
                },
            ],
        ),
{
    lemma_single_changed_line_prefix(m, ds, k, ds.len() as int);
    assert(ds.take(ds.len() as int) =~= ds);
}

proof fn lemma_single_changed_line_prefix<M: LineMatcher>(
    m: &M,
    ds: Seq<DiffLine>,
    k: int,
    n: int,
)
    requires
        0 <= k < ds.len(),
        0 <= n <= ds.len(),
        ds[k].is_addition,
        ds[k].new_lineno is Some,
        utf8_decoding(ds[k].content@) is Some,
        m.accepts(utf8_decoding(ds[k].content@)->Some_0),
        utf8_decoding(ds[k].path@) is Some,
        forall|j: int|
            0 <= j < ds.len() && j != k ==> #[trigger] diff_line_outcome(m, ds[j])
                == LineOutcome::Skip,
    ensures
        diff_hits(m, ds.take(n)) == Ok::<Seq<TodoLineView>, ScanError>(
            if n <= k {
                seq![]
            } else {
                seq![
                    TodoLineView {
                        line: utf8_decoding(ds[k].content@)->Some_0,
                        filename: utf8_decoding(ds[k].path@)->Some_0,
                        lineno: ds[k].new_lineno->Some_0 as u64,
                    },
                ]
            },
        ),
    decreases n,
{
    if n == 0 {
        assert(ds.take(0) =~= Seq::<DiffLine>::empty());
    } else {
        let i = n - 1;
        lemma_single_changed_line_prefix(m, ds, k, i);
        assert(ds.take(n).drop_last() =~= ds.take(i));
        assert(ds.take(n).last() == ds[i]);
        if i != k {
            assert(diff_line_outcome(m, ds[i]) == LineOutcome::Skip);
        } else {
            let hit = TodoLineView {
                line: utf8_decoding(ds[k].content@)->Some_0,
                filename: utf8_decoding(ds[k].path@)->Some_0,
                lineno: ds[k].new_lineno->Some_0 as u64,
            };
            assert(Seq::<TodoLineView>::empty().push(hit) =~= seq![hit]);
        }
    }
}

/// A text line of a new file that the matcher accepts yields a record of
/// that line, the file's path and the line's 0-based index.
pub proof fn lemma_new_file_line_found<M: LineMatcher>(
    m: &M,
    path: Seq<char>,
    texts: Seq<Seq<char>>,
    k: int,
)
    requires
        0 <= k < texts.len(),
        m.accepts(texts[k]),
    ensures
        numbered_hits(m, path, texts).contains(
            TodoLineView { line: texts[k], filename: path, lineno: k as u64 },
        ),
    decreases texts.len(),
{
    let r = TodoLineView { line: texts[k], filename: path, lineno: k as u64 };
    let prefix = numbered_hits(m, path, texts.drop_last());
    if k == texts.len() - 1 {
        let tail = seq![r];
        assert((prefix + tail)[prefix.len() as int] == r);
    } else {
        lemma_new_file_line_found(m, path, texts.drop_last(), k);
        let j = choose|j: int| 0 <= j < prefix.len() && prefix[j] == r;
        let tail = if m.accepts(texts[texts.len() - 1]) {
            seq![
                TodoLineView {
                    line: texts[texts.len() - 1],
                    filename: path,
                    lineno: (texts.len() - 1) as u64,
                },
            ]
        } else {
            seq![]
        };
        assert((prefix + tail)[j] == r);
    }
}

/// The letters of "todo" in lower case; any other character unchanged.
pub open spec fn fold_todo_letter(c: char) -> char {
    if c == 'T' {
        't'
    } else if c == 'O' {
        'o'
    } else if c == 'D' {
        'd'
    } else {
        c
    }
}

/// Two lines that differ only in the case of the letters t, o and d either
/// both match or both do not: `// Todo`, `// TODO` and `// ToDo` all match
/// where `// todo` does.
pub proof fn lemma_match_ignores_case(s: Seq<char>, t: Seq<char>)
    requires
        s.len() == t.len(),
        forall|k: int| 0 <= k < s.len() ==> fold_todo_letter(#[trigger] s[k]) == fold_todo_letter(t[k]),
    ensures
        todo_marked(s) == todo_marked(t),
{
    assert forall|a: Seq<char>, b: Seq<char>|
        a.len() == b.len() && (forall|k: int|
            0 <= k < a.len() ==> fold_todo_letter(#[trigger] a[k]) == fold_todo_letter(b[k]))
            && todo_marked(a) implies todo_marked(b) by {
        let (i, j) = choose|i: int, j: int|
            #![trigger comment_opener_at(a, i), todo_word_at(a, j)]
            comment_opener_at(a, i) && i + 2 <= j && todo_word_at(a, j) && no_newline_before(a, j);
        assert(fold_todo_letter(a[i]) == fold_todo_letter(b[i]));
        assert(fold_todo_letter(a[i + 1]) == fold_todo_letter(b[i + 1]));
        assert(fold_todo_letter(a[j]) == fold_todo_letter(b[j]));
        assert(fold_todo_letter(a[j + 1]) == fold_todo_letter(b[j + 1]));
        assert(fold_todo_letter(a[j + 2]) == fold_todo_letter(b[j + 2]));
        assert(fold_todo_letter(a[j + 3]) == fold_todo_letter(b[j + 3]));
        assert forall|k: int| 0 <= k < j implies b[k] != '\n' by {
            assert(fold_todo_letter(a[k]) == fold_todo_letter(b[k]));
        }
        assert(comment_opener_at(b, i) && todo_word_at(b, j));
    }
}

/// A line without `//` never matches, whatever else it holds.
pub proof fn lemma_no_comment_opener_no_match(s: Seq<char>)
    requires
        forall|i: int| !comment_opener_at(s, i),
    ensures
        !todo_marked(s),
{
}

/// Bytes that start with a byte that begins no UTF-8 sequence (a stray
/// continuation byte, or one of 0xF8 to 0xFF) are not text.
pub proof fn lemma_stray_first_byte_not_text(b: Seq<u8>)
    requires
        b.len() > 0,
        0x80 <= b[0] <= 0xbf || 0xf8 <= b[0],
    ensures
        utf8_decoding(b) is None,
{
    reveal_with_fuel(valid_utf8, 1);
}

/// A diff line whose content is not text yields nothing and no error.
pub proof fn lemma_undecodable_diff_line_skipped<M: LineMatcher>(
    m: &M,
    ds: Seq<DiffLine>,
    d: DiffLine,
)
    requires
        utf8_decoding(d.content@) is None,
    ensures
        diff_hits(m, ds.push(d)) == diff_hits(m, ds),
{
    assert(ds.push(d).drop_last() =~= ds);
}

/// A line of a new file that is not text is dropped before lines are numbered.
pub proof fn lemma_undecodable_file_line_skipped(ls: Seq<Seq<u8>>, l: Seq<u8>)
    requires
        utf8_decoding(l) is None,
    ensures
        decoded_lines(ls.push(l)) == decoded_lines(ls),
{
    assert(ls.push(l).drop_last() =~= ls);
    assert(decoded_lines(ls) + seq![] =~= decoded_lines(ls));
}

/// A line that the working directory did not add, such as a removed line
/// or an unchanged context line, yields nothing, whatever its text.
pub proof fn lemma_unadded_line_skipped<M: LineMatcher>(m: &M, ds: Seq<DiffLine>, d: DiffLine)
    requires
        !d.is_addition || d.new_lineno is None,
    ensures
        diff_hits(m, ds.push(d)) == diff_hits(m, ds),
{
    assert(ds.push(d).drop_last() =~= ds);
}

/// `r` is the record of the diff line `d`: the line is added, has a
/// position in the new file, and its text and number are those of `r`.
pub open spec fn record_of_line(d: DiffLine, r: TodoLineView) -> bool {
    d.is_addition && d.new_lineno is Some && (d.new_lineno->Some_0 as u64) == r.lineno && utf8_decoding(d.content@)
        == Some(r.line)
}

/// Some line of `ds` has `r` as its record.
pub open spec fn from_some_line(ds: Seq<DiffLine>, r: TodoLineView) -> bool {
    exists|j: int| 0 <= j < ds.len() && record_of_line(#[trigger] ds[j], r)
}

/// Every record of the diff comes from a line added to the new file, with
/// that line's text and new line number: a removed line or an unchanged
/// context line never shows.
pub proof fn lemma_diff_records_are_new_lines<M: LineMatcher>(m: &M, ds: Seq<DiffLine>)
    requires
        diff_hits(m, ds) is Ok,
    ensures
        forall|x: int|
            0 <= x < diff_hits(m, ds)->Ok_0.len() ==> from_some_line(
                ds,
                #[trigger] diff_hits(m, ds)->Ok_0[x],
            ),
    decreases ds.len(),
{
    if ds.len() > 0 {
        let pre = ds.drop_last();
        lemma_diff_records_are_new_lines(m, pre);
        let acc = diff_hits(m, pre)->Ok_0;
        let hs = diff_hits(m, ds)->Ok_0;
        assert forall|x: int| 0 <= x < hs.len() implies from_some_line(ds, #[trigger] hs[x]) by {
            if x < acc.len() {
                assert(hs[x] == acc[x]);
                assert(from_some_line(pre, acc[x]));
                let j = choose|j: int| 0 <= j < pre.len() && record_of_line(#[trigger] pre[j], acc[x]);
                assert(ds[j] == pre[j]);
            } else {
                let last = ds.len() - 1;
                assert(ds[last] == ds.last());
                assert(record_of_line(ds[last], hs[x]));
            }
        }
    }
}

/// The records of changed tracked files all come before those of new files,
/// whatever the paths.
pub proof fn lemma_diff_records_first<M: LineMatcher>(
    m: &M,
    diff: Seq<DiffLine>,
    files: Seq<NewFile>,
)
    requires
        diff_hits(m, diff) is Ok,
    ensures
        scan_result(m, diff, files) is Ok,
        ({
            let all = scan_result(m, diff, files)->Ok_0;
            let n = diff_hits(m, diff)->Ok_0.len();
            all.subrange(0, n as int) == diff_hits(m, diff)->Ok_0 && all.subrange(
                n as int,
                all.len() as int,
            ) == new_file_hits(m, files)
        }),
{
    let d = diff_hits(m, diff)->Ok_0;
    let all = d + new_file_hits(m, files);
    assert(all.subrange(0, d.len() as int) =~= d);
    assert(all.subrange(d.len() as int, all.len() as int) =~= new_file_hits(m, files));
}

} // verus!
