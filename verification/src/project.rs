//! The decisions of `kei build`: every file is checked first, and the output
//! tree is written only when all of them are clean (nothing half-written).
//! Reading the directory and writing the files stay with the caller.
use vstd::prelude::*;
use crate::diagnostic::{Diagnostic, Severity};
use crate::emit::emit_module;
use crate::lexer::max_source_len;
use crate::text::{cat2, owned};

verus! {

/// One output file: its path below the output directory and its content.
pub struct OutputFile {
    pub path: String,
    pub content: String,
}

/// One file that did not check clean: its source text and diagnostics.
pub struct Failure {
    pub source: String,
    pub diagnostics: Vec<Diagnostic>,
}

/// The number of error diagnostics in `ds`.
pub open spec fn error_count(ds: Seq<Diagnostic>) -> nat
    decreases ds.len(),
{
    if ds.len() == 0 {
        0
    } else {
        error_count(ds.drop_last()) + if ds.last().severity == Severity::Error { 1nat } else { 0nat }
    }
}

/// Counts the error diagnostics (saturating at `usize::MAX`).
pub fn count_errors(ds: &Vec<Diagnostic>) -> (r: usize)
    ensures
        r == (if error_count(ds@) <= usize::MAX { error_count(ds@) } else { usize::MAX as nat }),
{
    let mut n: usize = 0;
    let mut i: usize = 0;
    while i < ds.len()
        invariant
            i <= ds@.len(),
            n == (if error_count(ds@.take(i as int)) <= usize::MAX { error_count(ds@.take(i as int)) } else { usize::MAX as nat }),
        decreases ds@.len() - i,
    {
        assert(ds@.take(i + 1).drop_last() =~= ds@.take(i as int));
        let is_error = match ds[i].severity {
            Severity::Error => true,
            _ => false,
        };
        if is_error {
            n = n.saturating_add(1);
        }
        i = i + 1;
    }
    assert(ds@.take(ds@.len() as int) =~= ds@);
    n
}

/// Whether some diagnostic is an error (the exit status of a check).
pub fn has_errors(ds: &Vec<Diagnostic>) -> (r: bool)
    ensures
        r <==> exists|i: int| 0 <= i < ds@.len() && (#[trigger] ds@[i]).severity == Severity::Error,
{
    let mut i: usize = 0;
    while i < ds.len()
        invariant
            i <= ds@.len(),
            forall|k: int| 0 <= k < i ==> (#[trigger] ds@[k]).severity != Severity::Error,
        decreases ds@.len() - i,
    {
        if let Severity::Error = ds[i].severity {
            return true;
        }
        i = i + 1;
    }
    false
}

/// Transpiles every `(path relative to the project, source)` file. When all
/// are clean, the files to write: for each module its TypeScript at the
/// module's output path (without the source-map comment when `source_map`
/// is off) and, with `source_map`, the map beside it as `<path>.map`. Else
/// the failing files, in input order, and nothing to write.
pub fn plan_build(files: &Vec<(String, String)>, source_map: bool) -> (r: Result<Vec<OutputFile>, Vec<Failure>>)
    requires
        forall|i: int| 0 <= i < files@.len() ==> (#[trigger] files@[i]).1@.len() < max_source_len(),
    ensures
        r matches Ok(out) ==> out@.len() == files@.len() * (if source_map { 2nat } else { 1nat }),
        r matches Ok(out) ==> source_map ==> forall|k: int| 0 <= k < files@.len() ==>
            (#[trigger] out@[2 * k + 1]).path@ == out@[2 * k].path@ + ".map"@,
        r matches Err(fails) ==> fails@.len() > 0 && fails@.len() <= files@.len()
            && forall|k: int| 0 <= k < fails@.len() ==> (#[trigger] fails@[k]).diagnostics@.len() > 0,
{
    let mut outs: Vec<OutputFile> = Vec::new();
    let mut fails: Vec<Failure> = Vec::new();
    let mut i: usize = 0;
    while i < files.len()
        invariant
            i <= files@.len(),
            forall|k: int| 0 <= k < files@.len() ==> (#[trigger] files@[k]).1@.len() < max_source_len(),
            fails@.len() <= i,
            forall|k: int| 0 <= k < fails@.len() ==> (#[trigger] fails@[k]).diagnostics@.len() > 0,
            fails@.len() == 0 ==> outs@.len() == i * (if source_map { 2nat } else { 1nat }),
            fails@.len() == 0 && source_map ==> forall|k: int| 0 <= k < i ==>
                (#[trigger] outs@[2 * k + 1]).path@ == outs@[2 * k].path@ + ".map"@,
        decreases files@.len() - i,
    {
        let (rel, source) = (&files[i].0, &files[i].1);
        match emit_module(rel.as_str(), source.as_str()) {
            Ok(out) => {
                if fails.len() == 0 {
                    let ghost before = outs@;
                    let ts = if source_map {
                        out.ts
                    } else {
                        crate::paths::strip_source_mapping_url(out.ts.as_str())
                    };
                    let ts_path = out.ts_path;
                    let map_path = cat2(ts_path.as_str(), ".map");
                    outs.push(OutputFile { path: ts_path, content: ts });
                    if source_map {
                        outs.push(OutputFile { path: map_path, content: out.map });
                    }
                    proof {
                        if source_map {
                            assert forall|k: int| 0 <= k < i + 1 implies
                                (#[trigger] outs@[2 * k + 1]).path@ == outs@[2 * k].path@ + ".map"@ by {
                                if k < i {
                                    assert(outs@[2 * k + 1] == before[2 * k + 1]);
                                    assert(outs@[2 * k] == before[2 * k]);
                                }
                            }
                        }
                    }
                }
            },
            Err(diags) => {
                fails.push(Failure { source: owned(source.as_str()), diagnostics: diags });
            },
        }
        i = i + 1;
    }
    if fails.len() > 0 {
        Err(fails)
    } else {
        Ok(outs)
    }
}

} // verus!
