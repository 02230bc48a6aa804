//! What is written out of the kept demos.

use crate::demo::{IncludedDemo, IncludedDemoView};
use vstd::prelude::*;

verus! {

/// The lines that one record contributes to a list of paths: the path of the
/// demo, and after it that of the sidecar where there is one and sidecars are
/// asked for.
pub open spec fn record_lines(demo: IncludedDemoView, include_json: bool) -> Seq<Seq<char>> {
    if include_json && demo.events_json_path is Some {
        seq![demo.demo_path, demo.events_json_path->0]
    } else {
        seq![demo.demo_path]
    }
}

/// The list of paths of the given records: the lines of each record, in the
/// order of the records.
pub open spec fn path_lines(files: Seq<IncludedDemoView>, include_json: bool) -> Seq<Seq<char>>
    decreases files.len(),
{
    if files.len() == 0 {
        Seq::empty()
    } else {
        path_lines(files.drop_last(), include_json) + record_lines(files.last(), include_json)
    }
}

/// The list holds a line for each record, and one more for each sidecar
/// where sidecars are asked for; without them it is the paths of the demos.
pub proof fn path_lines_count(files: Seq<IncludedDemoView>, include_json: bool)
    ensures
        files.len() <= path_lines(files, include_json).len() <= 2 * files.len(),
        !include_json ==> path_lines(files, include_json) == Seq::new(
            files.len(),
            |i: int| files[i].demo_path,
        ),
    decreases files.len(),
{
    if files.len() > 0 {
        path_lines_count(files.drop_last(), include_json);
        if !include_json {
            assert(path_lines(files, include_json) =~= Seq::new(
                files.len(),
                |i: int| files[i].demo_path,
            ));
        }
    } else {
        assert(path_lines(files, include_json) =~= Seq::new(
            files.len(),
            |i: int| files[i].demo_path,
        ));
    }
}

/// Lists the paths of the kept demos, one to a line, each followed by the
/// path of its sidecar where it has one and `include_json` is set.
pub fn export_lines(files: &Vec<IncludedDemo>, include_json: bool) -> (lines: Vec<String>)
    ensures
        lines.deep_view() == path_lines(files.deep_view(), include_json),
{
    let ghost all = files.deep_view();
    let mut lines: Vec<String> = Vec::new();
    let mut i: usize = 0;
    assert(lines.deep_view() =~= path_lines(all.take(0), include_json));
    while i < files.len()
        invariant
            i <= files.len(),
            all == files.deep_view(),
            lines.deep_view() == path_lines(all.take(i as int), include_json),
        decreases files.len() - i,
    {
        let ghost so_far = lines.deep_view();
        proof {
            assert(all.take(i + 1).drop_last() =~= all.take(i as int));
            assert(all.take(i + 1).last() == files@[i as int]@);
        }
        lines.push(files[i].demo_path.clone());
        if include_json {
            match &files[i].events_json_path {
                Some(json_path) => {
                    lines.push(json_path.clone());
                },
                None => {},
            }
        }
        assert(lines.deep_view() =~= so_far + record_lines(files@[i as int]@, include_json));
        i += 1;
    }
    assert(all.take(i as int) =~= all);
    lines
}

} // verus!
