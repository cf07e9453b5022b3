//! How an artifact reaches durable storage: whole, or not at all.
//!
//! The bytes are first written beside their place, under the place's name
//! with `.tmp` behind it, and then moved onto the place in one step. A
//! reader of the place sees the old bytes or the new ones, never a part.
//! This library names the steps; whoever owns the files takes them, in
//! order, and stops at the first that fails.
use vstd::prelude::*;

verus! {

/// One step on durable storage.
#[derive(Debug, Clone, PartialEq, Eq)]
pub enum FileStep {
    /// Write `bytes` to the file at `path`, in place of what it held.
    Write { path: String, bytes: Vec<u8> },
    /// Move the file at `from` onto `to`.
    Rename { from: String, to: String },
}

/// A step, with its paths and bytes as plain sequences.
pub enum FileStepView {
    Write { path: Seq<char>, bytes: Seq<u8> },
    Rename { from: Seq<char>, to: Seq<char> },
}

impl View for FileStep {
    type V = FileStepView;

    open spec fn view(&self) -> FileStepView {
        match self {
            FileStep::Write { path, bytes } => FileStepView::Write { path: path@, bytes: bytes@ },
            FileStep::Rename { from, to } => FileStepView::Rename { from: from@, to: to@ },
        }
    }
}

/// The name under which bytes wait before they are moved onto `path`.
pub open spec fn temp_of(path: Seq<char>) -> Seq<char> {
    path + ".tmp"@
}

/// The steps that put `bytes` at `path`: write them beside it, then move
/// them onto it.
pub open spec fn replacing(path: Seq<char>, bytes: Seq<u8>) -> Seq<FileStepView> {
    seq![
        FileStepView::Write { path: temp_of(path), bytes },
        FileStepView::Rename { from: temp_of(path), to: path },
    ]
}

/// The views of a run of steps.
pub open spec fn views(steps: Seq<FileStep>) -> Seq<FileStepView> {
    steps.map_values(|step: FileStep| step@)
}

/// Names the file where bytes wait before they are moved onto `path`.
pub fn temp_path(path: &str) -> (temp: String)
    ensures
        temp@ == temp_of(path@),
{
    let mut temp = String::from_str(path);
    temp.append(".tmp");
    temp
}

/// Lays out the steps that put `bytes` at `path`.
pub fn replace_file(path: &str, bytes: Vec<u8>) -> (steps: Vec<FileStep>)
    ensures
        views(steps@) == replacing(path@, bytes@),
{
    let mut steps: Vec<FileStep> = Vec::new();
    steps.push(FileStep::Write { path: temp_path(path), bytes });
    steps.push(FileStep::Rename { from: temp_path(path), to: String::from_str(path) });
    assert(views(steps@) =~= replacing(path@, bytes@));
    steps
}

/// Puts one run of steps behind another, as for a store of two artifacts:
/// the second artifact is begun only when the first is in place.
pub fn one_after_another(first: Vec<FileStep>, second: Vec<FileStep>) -> (steps: Vec<FileStep>)
    ensures
        steps@ == first@ + second@,
{
    let mut steps = first;
    let mut rest = second;
    steps.append(&mut rest);
    steps
}

} // verus!
