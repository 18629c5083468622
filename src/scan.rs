use vstd::prelude::*;

use crate::diff_source::{diff_hits, extract_for_existing_files, DiffLine};
use crate::error::ScanError;
use crate::matcher::LineMatcher;
use crate::record::{output_line, record_views, TodoLine, TodoLineView};
use crate::text::trim_end_of;
use crate::untracked::{extract_for_new_files, new_file_hits, NewFile};

verus! {

/// The result of a whole scan: the records of the diff, then those of the
/// new files; or the diff's first error.
pub open spec fn scan_result<M: LineMatcher>(
    m: &M,
    diff: Seq<DiffLine>,
    files: Seq<NewFile>,
) -> Result<Seq<TodoLineView>, ScanError> {
    match diff_hits(m, diff) {
        Err(e) => Err(e),
        Ok(hs) => Ok(hs + new_file_hits(m, files)),
    }
}

/// Collects the records of the changed lines of tracked files, then those
/// of the new files.
pub fn scan<M: LineMatcher>(m: &M, diff: &Vec<DiffLine>, files: &Vec<NewFile>) -> (r: Result<
    Vec<TodoLine>,
    ScanError,
>)
    ensures
        match scan_result(m, diff@, files@) {
            Ok(v) => r is Ok && record_views(r->Ok_0@) == v,
            Err(e) => r == Err::<Vec<TodoLine>, ScanError>(e),
        },
{
    let mut results: Vec<TodoLine> = Vec::new();
    assert(record_views(results@) =~= Seq::<TodoLineView>::empty());
    match extract_for_existing_files(diff, m, &mut results) {
        Err(e) => Err(e),
        Ok(()) => {
            proof {
                let hs = diff_hits(m, diff@)->Ok_0;
                assert(Seq::<TodoLineView>::empty() + hs =~= hs);
            }
            extract_for_new_files(files, m, &mut results);
            Ok(results)
        },
    }
}

/// The output line of each record, in order.
pub fn render_all(records: &Vec<TodoLine>) -> (r: Vec<String>)
    ensures
        r@.len() == records@.len(),
        forall|k: int|
            0 <= k < records@.len() ==> #[trigger] r@[k]@ == output_line(
                records@[k].filename@,
                records@[k].lineno,
                trim_end_of(records@[k].line@),
            ),
{
    let mut out: Vec<String> = Vec::new();
    let mut i: usize = 0;
    while i < records.len()
        invariant
            i <= records@.len(),
            out@.len() == i,
            forall|k: int|
                0 <= k < i ==> #[trigger] out@[k]@ == output_line(
                    records@[k].filename@,
                    records@[k].lineno,
                    trim_end_of(records@[k].line@),
                ),
        decreases records@.len() - i,
    {
        out.push(records[i].render());
        i = i + 1;
    }
    out
}

} // verus!
