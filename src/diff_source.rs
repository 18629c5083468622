use vstd::prelude::*;

use crate::error::ScanError;
use crate::matcher::LineMatcher;
use crate::record::{record_views, TodoLine, TodoLineView};
use crate::text::{decode_utf8, utf8_decoding};

verus! {

/// One line of a change hunk in the diff between the head commit's tree and
/// the working directory: the new file's path, whether the line is added by
/// the working directory (not context, not removed), the raw content of the
/// line, and its 1-based position in the new file (`None` for a removed line).
pub struct DiffLine {
    pub path: Vec<u8>,
    pub is_addition: bool,
    pub content: Vec<u8>,
    pub new_lineno: Option<u32>,
}

/// What a single line contributes to a scan.
pub enum LineOutcome {
    Skip,
    Hit(TodoLineView),
    Fail(ScanError),
}

/// The outcome of a decoded diff line: no record unless the matcher accepts
/// the text, and then a record, or `InvalidPath` where the path is not text.
pub open spec fn decoded_line_outcome<M: LineMatcher>(
    m: &M,
    text: Seq<char>,
    path: Option<Seq<char>>,
    lineno: u64,
) -> LineOutcome {
    if !m.accepts(text) {
        LineOutcome::Skip
    } else {
        match path {
            None => LineOutcome::Fail(ScanError::InvalidPath),
            Some(p) => LineOutcome::Hit(TodoLineView { line: text, filename: p, lineno }),
        }
    }
}

/// The outcome of a raw diff line: a line that the working directory did
/// not add (an unchanged context line, a removed line), a line with no
/// position in the new file, or one whose content is not text, is skipped.
pub open spec fn diff_line_outcome<M: LineMatcher>(m: &M, d: DiffLine) -> LineOutcome {
    if !d.is_addition {
        LineOutcome::Skip
    } else {
        match d.new_lineno {
            None => LineOutcome::Skip,
            Some(n) => match utf8_decoding(d.content@) {
                None => LineOutcome::Skip,
                Some(text) => decoded_line_outcome(m, text, utf8_decoding(d.path@), n as u64),
            },
        }
    }
}

/// The records of the diff lines `ds`, in order, or the first error.
pub open spec fn diff_hits<M: LineMatcher>(m: &M, ds: Seq<DiffLine>) -> Result<
    Seq<TodoLineView>,
    ScanError,
>
    decreases ds.len(),
{
    if ds.len() == 0 {
        Ok(seq![])
    } else {
        match diff_hits(m, ds.drop_last()) {
            Err(e) => Err(e),
            Ok(acc) => match diff_line_outcome(m, ds.last()) {
                LineOutcome::Skip => Ok(acc),
                LineOutcome::Hit(t) => Ok(acc.push(t)),
                LineOutcome::Fail(e) => Err(e),
            },
        }
    }
}

/// The text of an optional string.
pub open spec fn option_view(s: Option<String>) -> Option<Seq<char>> {
    match s {
        Some(p) => Some(p@),
        None => None,
    }
}

/// Decides what one decoded diff line yields: `Ok(None)` when the matcher
/// rejects the text, else a record of the text, the path and the line
/// number, or `InvalidPath` when the path did not decode.
pub fn diff_line_hit<M: LineMatcher>(m: &M, text: String, path: Option<String>, lineno: u64) -> (r:
    Result<Option<TodoLine>, ScanError>)
    ensures
        match decoded_line_outcome(m, text@, option_view(path), lineno) {
            LineOutcome::Skip => r == Ok::<Option<TodoLine>, ScanError>(None),
            LineOutcome::Fail(e) => r == Err::<Option<TodoLine>, ScanError>(e),
            LineOutcome::Hit(t) => r is Ok && r->Ok_0 is Some && r->Ok_0->Some_0@ == t,
        },
{
    if !m.matches(text.as_str()) {
        return Ok(None);
    }
    match path {
        None => Err(ScanError::InvalidPath),
        Some(p) => Ok(Some(TodoLine::new(text, p, lineno))),
    }
}

/// Once a prefix of the diff fails, the whole diff fails with that error.
proof fn lemma_diff_error_persists<M: LineMatcher>(m: &M, ds: Seq<DiffLine>, n: int)
    requires
        0 <= n <= ds.len(),
        diff_hits(m, ds.take(n)) is Err,
    ensures
        diff_hits(m, ds) == diff_hits(m, ds.take(n)),
    decreases ds.len() - n,
{
    if n < ds.len() {
        assert(ds.take(n + 1).drop_last() =~= ds.take(n));
        lemma_diff_error_persists(m, ds, n + 1);
    } else {
        assert(ds.take(n) =~= ds);
    }
}

/// Appends to `results` the records of the diff lines, in the order of the
/// diff. On an error `results` is left as it was.
pub fn extract_for_existing_files<M: LineMatcher>(
    diff: &Vec<DiffLine>,
    m: &M,
    results: &mut Vec<TodoLine>,
) -> (r: Result<(), ScanError>)
    ensures
        match diff_hits(m, diff@) {
            Ok(hs) => r is Ok && record_views(final(results)@) == record_views(old(results)@) + hs,
            Err(e) => r == Err::<(), ScanError>(e) && final(results)@ == old(results)@,
        },
{
    let mut found: Vec<TodoLine> = Vec::new();
    let mut i: usize = 0;
    assert(diff@.take(0) =~= Seq::<DiffLine>::empty());
    assert(record_views(found@) =~= Seq::<TodoLineView>::empty());
    while i < diff.len()
        invariant
            i <= diff@.len(),
            diff_hits(m, diff@.take(i as int)) == Ok::<Seq<TodoLineView>, ScanError>(
                record_views(found@),
            ),
        decreases diff@.len() - i,
    {
        let d = &diff[i];
        assert(diff@.take(i + 1).drop_last() =~= diff@.take(i as int));
        assert(diff@.take(i + 1).last() == diff[i as int]);
        match (d.is_addition, d.new_lineno) {
            (true, Some(n)) => {
                match decode_utf8(d.content.as_slice()) {
                    None => {},
                    Some(text) => {
                        let path = decode_utf8(d.path.as_slice());
                        match diff_line_hit(m, text, path, n as u64) {
                            Err(e) => {
                                proof {
                                    lemma_diff_error_persists(m, diff@, i + 1);
                                }
                                return Err(e);
                            },
                            Ok(None) => {},
                            Ok(Some(t)) => {
                                let ghost before = record_views(found@);
                                found.push(t);
                                assert(record_views(found@) =~= before.push(found@.last()@));
                            },
                        }
                    },
                }
            },
            _ => {},
        }
        i = i + 1;
    }
    assert(diff@.take(i as int) =~= diff@);
    let ghost old_views = record_views(results@);
    let ghost found_views = record_views(found@);
    results.append(&mut found);
    assert(record_views(results@) =~= old_views + found_views);
    Ok(())
}

} // verus!
