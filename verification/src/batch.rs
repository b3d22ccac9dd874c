use vstd::prelude::*;
use crate::classify::{InputKind, SupportedInput};
use crate::paths::{file_name_of, find_last};
use crate::resolve::{get_destination_path, join_segments, resolve_spec, ResolveError};
use vstd::string::StrSliceExecFns;

verus! {

/// The three directories the batch works with, already resolved and
/// validated by the caller.
pub struct AppSettings {
    pub input_path: String,
    pub output_path: String,
    pub processed_input_path: String,
}

/// What the batch decides to do with one classified entry, at the
/// specification level.
pub ghost enum EntryPlanData {
    SkipNoDestination(ResolveError),
    ExtractAndMove(Seq<Seq<char>>),
    ResolveOnly(Seq<Seq<char>>),
}

/// What the batch decides to do with one classified entry: skip it, extract
/// it to its destination and move it to the processed holding area, or — for
/// kinds with no end-to-end action yet — record the resolved destination
/// only.
pub enum EntryPlan {
    SkipNoDestination(ResolveError),
    ExtractAndMove { destination: Vec<String> },
    ResolveOnly { destination: Vec<String> },
}

impl View for EntryPlan {
    type V = EntryPlanData;

    open spec fn view(&self) -> EntryPlanData {
        match self {
            EntryPlan::SkipNoDestination(e) => EntryPlanData::SkipNoDestination(*e),
            EntryPlan::ExtractAndMove { destination } => EntryPlanData::ExtractAndMove(
                destination.deep_view(),
            ),
            EntryPlan::ResolveOnly { destination } => EntryPlanData::ResolveOnly(
                destination.deep_view(),
            ),
        }
    }
}

/// The decision for a classified entry: resolution failures are skipped;
/// a resolved archive is extracted and moved; any other resolved kind has
/// no action defined yet.
pub open spec fn plan_spec(
    output: Seq<Seq<char>>,
    input: InputKind,
    data: Seq<u8>,
) -> EntryPlanData {
    match resolve_spec(output, input, data) {
        Err(e) => EntryPlanData::SkipNoDestination(e),
        Ok(p) => match input {
            InputKind::Archive(_) => EntryPlanData::ExtractAndMove(p),
            _ => EntryPlanData::ResolveOnly(p),
        },
    }
}

/// Decides what to do with one classified entry, given the configured
/// output segments and the entry's raw contents.
pub fn plan_entry(output_folder: &Vec<String>, input: &SupportedInput, data: &Vec<u8>) -> (r:
    EntryPlan)
    ensures
        r@ == plan_spec(output_folder.deep_view(), input@, data@),
{
    match get_destination_path(output_folder, input, data) {
        Err(e) => EntryPlan::SkipNoDestination(e),
        Ok(p) => match input {
            SupportedInput::ZipInput(_) => EntryPlan::ExtractAndMove { destination: p },
            _ => EntryPlan::ResolveOnly { destination: p },
        },
    }
}

/// Where a processed archive is relocated to: the processed holding area,
/// keeping the archive's own file name. An input path without a file name
/// yields nothing.
pub fn move_destination(processed_root: &Vec<String>, archive_path: &String) -> (r: Option<
    Vec<String>,
>)
    ensures
        match r {
            Some(p) => file_name_of(archive_path@).len() > 0 && p.deep_view()
                == processed_root.deep_view().push(file_name_of(archive_path@)),
            None => file_name_of(archive_path@).len() == 0,
        },
{
    let s: &str = archive_path.as_str();
    let n: usize = s.unicode_len();
    let name: String = match find_last(s, '/') {
        Some(i) => {
            if i + 1 == n {
                return None;
            }
            s.substring_char(i + 1, n).to_owned()
        },
        None => {
            if n == 0 {
                return None;
            }
            proof {
                assert(file_name_of(archive_path@) =~= archive_path@);
            }
            archive_path.clone()
        },
    };
    let mut tail: Vec<String> = Vec::new();
    tail.push(name);
    proof {
        assert(tail.deep_view() =~= seq![file_name_of(archive_path@)]);
    }
    let out: Vec<String> = join_segments(processed_root, &tail);
    proof {
        assert(processed_root.deep_view() + tail.deep_view() =~= processed_root.deep_view().push(
            file_name_of(archive_path@),
        ));
    }
    Some(out)
}

} // verus!
