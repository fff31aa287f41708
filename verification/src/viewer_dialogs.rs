//! What follows when a dialog or an editor of the viewer is closed.

use vstd::prelude::*;

use crate::api_handler::{put_tags, tags_or_none, tags_put, Persist};
use crate::diff::FileStatus;
use crate::filters::{filtering, is_filtering};
use crate::seqs::kept;
use crate::state::{annotation_elsewhere, AppState, HunkAnnotation, HunkTagsView};
use crate::tag_editor::{TagEditor, TagEditorResult, TagEditorView};
use crate::tag_names::normalized;
use crate::text::{concat2, decimal, strs, trimmed, usize_text};
use crate::text_laws::{decimals_stand_for_the_number, normal_tags_are_those_written, number_of};
use crate::viewer::{
    body_height, body_height_of, list_height, list_height_of, max_scroll, scroll_limit, Env, Step,
};

verus! {

broadcast use vstd::std_specs::hash::group_hash_axioms;

/// What was chosen in a dialog.
#[derive(Debug, Clone, Copy, PartialEq, Eq, Structural)]
pub enum ModalResult {
    FileSelected(usize),
    AnnotationJump { file_index: usize, hunk_index: usize },
    AnnotationEdit { file_index: usize, hunk_index: usize },
    AnnotationDelete { file_index: usize, hunk_index: usize },
    AnnotationCopyAll,
    AnnotationExport,
    Dismissed,
}

/// What follows a choice that leaves the state as it is.
pub open spec fn choice_steps(state: AppState, result: ModalResult, env: Env) -> Seq<Step> {
    match result {
        ModalResult::FileSelected(file) => if filtering(state) {
            seq![
                Step::RevealFile(file),
                Step::SelectFile(file),
                Step::ApplyFilter,
                Step::SelectInSidebar(list_height(env) as usize),
                Step::CloseModal,
            ]
        } else {
            seq![
                Step::RevealFile(file),
                Step::SelectFile(file),
                Step::SelectInSidebar(list_height(env) as usize),
                Step::CloseModal,
            ]
        },
        ModalResult::AnnotationJump { file_index, hunk_index } => seq![
            Step::SelectFile(file_index),
            Step::FocusHunk {
                file_index,
                hunk_index,
                visible_height: body_height(env) as usize,
                max_scroll: scroll_limit(state, env) as usize,
            },
            Step::CloseModal,
        ],
        ModalResult::AnnotationEdit { file_index, hunk_index } => match state.annotation_of(
            file_index,
            hunk_index,
        ) {
            Some(a) => seq![
                Step::OpenAnnotationEditor { file_index, hunk_index, line_range: a.line_range },
                Step::SelectFile(file_index),
                Step::SetFocus(hunk_index),
                Step::CloseModal,
            ],
            None => seq![Step::CloseModal],
        },
        ModalResult::AnnotationCopyAll => seq![Step::CopyAnnotations, Step::CloseModal],
        ModalResult::AnnotationExport => seq![Step::ExportAnnotations],
        _ => seq![Step::CloseModal],
    }
}

/// The annotations of a hunk were taken away, and the first of them is to be removed from
/// the store.
pub open spec fn annotation_dropped(
    before: AppState,
    after: AppState,
    persist: Persist,
    file: usize,
    hunk: usize,
) -> bool {
    match before.annotation_of(file, hunk) {
        Some(a) => {
            &&& after.annotations@ == kept(before.annotations@, annotation_elsewhere(file, hunk))
            &&& after == AppState { annotations: after.annotations, ..before }
            &&& persist == Persist::Remove(a)
        },
        None => after == before && persist == Persist::Nothing,
    }
}

/// What follows a choice in a dialog.
pub open spec fn choice_handled(
    before: AppState,
    after: AppState,
    r: (Seq<Step>, Persist),
    result: ModalResult,
    env: Env,
) -> bool {
    match result {
        ModalResult::AnnotationDelete { file_index, hunk_index } => {
            &&& annotation_dropped(before, after, r.1, file_index, hunk_index)
            &&& r.0 == if after.annotations@.len() > 0 {
                seq![Step::OpenAnnotationList]
            } else {
                seq![Step::CloseModal]
            }
        },
        _ => after == before && r.0 == choice_steps(before, result, env) && r.1
            == Persist::Nothing,
    }
}

fn drop_annotation(state: &mut AppState, file_index: usize, hunk_index: usize) -> (persist: Persist)
    ensures
        annotation_dropped(*old(state), *final(state), persist, file_index, hunk_index),
{
    let existing = match state.get_annotation(file_index, hunk_index) {
        Some(a) => a.clone(),
        None => {
            return Persist::Nothing;
        },
    };
    state.remove_annotation(file_index, hunk_index);
    Persist::Remove(existing)
}

fn choice_steps_of(state: &AppState, result: ModalResult, env: Env) -> (steps: Vec<Step>)
    requires
        state.wf(),
    ensures
        steps@ == choice_steps(*state, result, env),
{
    match result {
        ModalResult::FileSelected(file) => if is_filtering(state) {
            vec![
                Step::RevealFile(file),
                Step::SelectFile(file),
                Step::ApplyFilter,
                Step::SelectInSidebar(list_height_of(env)),
                Step::CloseModal,
            ]
        } else {
            vec![
                Step::RevealFile(file),
                Step::SelectFile(file),
                Step::SelectInSidebar(list_height_of(env)),
                Step::CloseModal,
            ]
        },
        ModalResult::AnnotationJump { file_index, hunk_index } => vec![
            Step::SelectFile(file_index),
            Step::FocusHunk {
                file_index,
                hunk_index,
                visible_height: body_height_of(env),
                max_scroll: max_scroll(state, env),
            },
            Step::CloseModal,
        ],
        ModalResult::AnnotationEdit { file_index, hunk_index } => match state.get_annotation(
            file_index,
            hunk_index,
        ) {
            Some(a) => vec![
                Step::OpenAnnotationEditor { file_index, hunk_index, line_range: a.line_range },
                Step::SelectFile(file_index),
                Step::SetFocus(hunk_index),
                Step::CloseModal,
            ],
            None => vec![Step::CloseModal],
        },
        ModalResult::AnnotationCopyAll => vec![Step::CopyAnnotations, Step::CloseModal],
        ModalResult::AnnotationExport => vec![Step::ExportAnnotations],
        _ => vec![Step::CloseModal],
    }
}

/// Handles a choice in a dialog, and returns the steps that follow and what has to be
/// stored.
pub fn handle_modal_result(state: &mut AppState, result: ModalResult, env: Env) -> (r: (
    Vec<Step>,
    Persist,
))
    requires
        old(state).wf(),
    ensures
        choice_handled(*old(state), *final(state), (r.0@, r.1), result, env),
{
    match result {
        ModalResult::AnnotationDelete { file_index, hunk_index } => {
            let persist = drop_annotation(state, file_index, hunk_index);
            let steps = if state.annotations.len() > 0 {
                vec![Step::OpenAnnotationList]
            } else {
                vec![Step::CloseModal]
            };
            assert(steps@ =~= if state.annotations@.len() > 0 {
                seq![Step::OpenAnnotationList]
            } else {
                seq![Step::CloseModal]
            });
            (steps, persist)
        },
        _ => (choice_steps_of(state, result, env), Persist::Nothing),
    }
}

// ---------------------------------------------------------------------------
// The annotation editor
// ---------------------------------------------------------------------------
/// What was done in the annotation editor.
#[derive(Debug)]
pub enum AnnotationEditorResult {
    Continue,
    Save(HunkAnnotation),
    Delete { file_index: usize, hunk_index: usize },
    Cancel,
}

/// What follows from the annotation editor.
pub open spec fn annotation_edited(
    before: AppState,
    after: AppState,
    r: (Seq<Step>, Persist),
    result: AnnotationEditorResult,
) -> bool {
    match result {
        AnnotationEditorResult::Continue => after == before && r.0 == Seq::<Step>::empty() && r.1
            == Persist::Nothing,
        AnnotationEditorResult::Save(a) => {
            &&& after.annotations@ == kept(
                before.annotations@,
                annotation_elsewhere(a.file_index, a.hunk_index),
            ).push(a)
            &&& after == AppState { annotations: after.annotations, ..before }
            &&& r.0 == seq![Step::CloseAnnotationEditor]
            &&& r.1 == Persist::Upsert(a)
        },
        AnnotationEditorResult::Delete { file_index, hunk_index } => {
            &&& annotation_dropped(before, after, r.1, file_index, hunk_index)
            &&& r.0 == seq![Step::CloseAnnotationEditor]
        },
        AnnotationEditorResult::Cancel => after == before && r.0 == seq![
            Step::CloseAnnotationEditor,
        ] && r.1 == Persist::Nothing,
    }
}

/// Handles what was done in the annotation editor, and returns the steps that follow and
/// what has to be stored.
pub fn handle_annotation_editor(state: &mut AppState, result: AnnotationEditorResult) -> (r: (
    Vec<Step>,
    Persist,
))
    ensures
        annotation_edited(*old(state), *final(state), (r.0@, r.1), result),
{
    let close = vec![Step::CloseAnnotationEditor];
    assert(close@ =~= seq![Step::CloseAnnotationEditor]);
    match result {
        AnnotationEditorResult::Continue => (Vec::new(), Persist::Nothing),
        AnnotationEditorResult::Save(a) => {
            let stored = a.clone();
            state.set_annotation(a);
            (close, Persist::Upsert(stored))
        },
        AnnotationEditorResult::Delete { file_index, hunk_index } => {
            let persist = drop_annotation(state, file_index, hunk_index);
            (close, persist)
        },
        AnnotationEditorResult::Cancel => (close, Persist::Nothing),
    }
}

// ---------------------------------------------------------------------------
// The tag editor
// ---------------------------------------------------------------------------
/// The dialog for the tags of a hunk, with the tags that it has.
pub fn tag_editor_for(
    state: &AppState,
    file_index: usize,
    hunk_index: usize,
    line_range: (usize, usize),
) -> (r: Option<TagEditor>)
    ensures
        match r {
            None => file_index >= state.file_diffs@.len(),
            Some(editor) => {
                &&& file_index < state.file_diffs@.len()
                &&& editor@ == (TagEditorView {
                    file_index,
                    hunk_index,
                    filename: state.file_diffs@[file_index as int].filename@,
                    line_range,
                    input: seq![],
                    available: normalized(strs(state.tag_inventory@)),
                    filtered: seq![],
                    selected_index: 0,
                    selected: normalized(
                        tags_or_none(state.tags_of(file_index, hunk_index)),
                    ),
                }).refreshed()
                &&& editor@.wf()
                &&& editor@.input.len() == 0
                &&& editor@.line_range == line_range
                &&& editor@.filename == state.file_diffs@[file_index as int].filename@
                &&& forall|i: int|
                    0 <= i < state.tag_inventory@.len() && trimmed(
                        (#[trigger] state.tag_inventory@[i])@,
                    ).len() > 0 ==> editor@.available.contains(trimmed(state.tag_inventory@[i]@))
                &&& state.tags_of(file_index, hunk_index) matches Some(t) ==> forall|i: int|
                    0 <= i < t.tags@.len() && trimmed((#[trigger] t.tags@[i])@).len() > 0
                        ==> editor@.selected.contains(trimmed(t.tags@[i]@))
                &&& state.tags_of(file_index, hunk_index) is None ==> editor@.selected.len() == 0
                &&& editor.file_index == file_index
                &&& editor.hunk_index == hunk_index
            },
        },
{
    if file_index >= state.file_diffs.len() {
        return None;
    }
    let current = match state.get_hunk_tags(file_index, hunk_index) {
        Some(t) => t.tags.clone(),
        None => Vec::new(),
    };
    let available = state.tag_inventory.clone();
    proof {
        assert(strs(available@) =~= strs(state.tag_inventory@));
        assert(strs(current@) =~= tags_or_none(
            state.tags_of(file_index, hunk_index),
        ));
        let known = strs(state.tag_inventory@);
        let on = tags_or_none(state.tags_of(file_index, hunk_index));
        normal_tags_are_those_written(known);
        normal_tags_are_those_written(on);
        assert forall|i: int|
            0 <= i < state.tag_inventory@.len() && trimmed(
                (#[trigger] state.tag_inventory@[i])@,
            ).len() > 0 implies normalized(known).contains(
            trimmed(state.tag_inventory@[i]@),
        ) by {
            assert(known[i] == state.tag_inventory@[i]@);
        }
        if let Some(t) = state.tags_of(file_index, hunk_index) {
            assert forall|i: int|
                0 <= i < t.tags@.len() && trimmed(
                    (#[trigger] t.tags@[i])@,
                ).len() > 0 implies normalized(on).contains(trimmed(t.tags@[i]@)) by {
                assert(on[i] == t.tags@[i]@);
            }
        } else {
            if normalized(on).len() > 0 {
                assert(normalized(on)[0].len() > 0);
            }
        }
    }
    Some(
        TagEditor::new(
            file_index,
            hunk_index,
            state.file_diffs[file_index].filename.clone(),
            line_range,
            current,
            available,
        ),
    )
}

/// What follows from the tag editor of a hunk.
pub open spec fn tags_edited(
    before: AppState,
    after: AppState,
    r: (Seq<Step>, Persist),
    file: usize,
    hunk: usize,
    result: TagEditorResult,
) -> bool {
    match result {
        TagEditorResult::Continue => after == before && r.0 == Seq::<Step>::empty() && r.1
            == Persist::Nothing,
        TagEditorResult::Cancel => after == before && r.0 == seq![Step::CloseTagEditor] && r.1
            == Persist::Nothing,
        TagEditorResult::Save(tags) => {
            &&& r.0 == seq![Step::ApplyFilter, Step::CloseTagEditor]
            &&& if file < before.file_diffs@.len() {
                &&& tags_put(
                    before.hunk_tags@,
                    after.hunk_tags@,
                    HunkTagsView {
                        file_index: file,
                        hunk_index: hunk,
                        filename: before.file_diffs@[file as int].filename@,
                        tags: strs(tags@),
                    },
                )
                &&& after == AppState { hunk_tags: after.hunk_tags, ..before }
                &&& r.1 == Persist::SetTags { file_index: file, hunk_index: hunk, tags }
            } else {
                after == before && r.1 == Persist::Nothing
            }
        },
    }
}

/// Handles what was done in the tag editor of a hunk, and returns the steps that follow
/// and what has to be stored. What is stored comes before the steps.
pub fn handle_tag_editor(
    state: &mut AppState,
    file_index: usize,
    hunk_index: usize,
    result: TagEditorResult,
) -> (r: (Vec<Step>, Persist))
    ensures
        tags_edited(*old(state), *final(state), (r.0@, r.1), file_index, hunk_index, result),
{
    match result {
        TagEditorResult::Continue => (Vec::new(), Persist::Nothing),
        TagEditorResult::Cancel => {
            let steps = vec![Step::CloseTagEditor];
            assert(steps@ =~= seq![Step::CloseTagEditor]);
            (steps, Persist::Nothing)
        },
        TagEditorResult::Save(tags) => {
            let steps = vec![Step::ApplyFilter, Step::CloseTagEditor];
            assert(steps@ =~= seq![Step::ApplyFilter, Step::CloseTagEditor]);
            if file_index < state.file_diffs.len() {
                put_tags(state, file_index, hunk_index, &tags);
                (steps, Persist::SetTags { file_index, hunk_index, tags })
            } else {
                (steps, Persist::Nothing)
            }
        },
    }
}

// ---------------------------------------------------------------------------
// What dialogs show
// ---------------------------------------------------------------------------
/// A file to choose.
#[derive(Debug)]
pub struct FilePickerItem {
    pub name: String,
    pub file_index: usize,
    pub status: FileStatus,
    pub viewed: bool,
}

/// The files to choose from, in their order.
pub fn file_picker_items(state: &AppState) -> (r: Vec<FilePickerItem>)
    ensures
        r@.len() == state.file_diffs@.len(),
        forall|i: int|
            0 <= i < r@.len() ==> (#[trigger] r@[i]) == (FilePickerItem {
                name: state.file_diffs@[i].filename,
                file_index: i as usize,
                status: state.file_diffs@[i].status,
                viewed: state.viewed_files@.contains(i as usize),
            }),
        forall|i: int|
            0 <= i < state.file_diffs@.len() ==> (#[trigger] r@[i]).file_index == i && r@[i].name@
                == state.file_diffs@[i].filename@ && r@[i].status == state.file_diffs@[i].status,
        forall|i: usize|
            i < r@.len() ==> ((#[trigger] r@[i as int]).viewed <==> state.viewed_files@.contains(i)),
{
    let mut r: Vec<FilePickerItem> = Vec::new();
    let mut i: usize = 0;
    while i < state.file_diffs.len()
        invariant
            i == r@.len(),
            i <= state.file_diffs@.len(),
            forall|k: int|
                0 <= k < i ==> (#[trigger] r@[k]) == (FilePickerItem {
                    name: state.file_diffs@[k].filename,
                    file_index: k as usize,
                    status: state.file_diffs@[k].status,
                    viewed: state.viewed_files@.contains(k as usize),
                }),
        decreases state.file_diffs@.len() - i,
    {
        r.push(
            FilePickerItem {
                name: state.file_diffs[i].filename.clone(),
                file_index: i,
                status: state.file_diffs[i].status,
                viewed: state.viewed_files.contains(&i),
            },
        );
        i += 1;
    }
    r
}

/// The arguments for the text editor: the line where there is one, and the file.
pub fn editor_arguments(line: Option<usize>, filename: &str) -> (r: Vec<String>)
    ensures
        strs(r@) == (match line {
            Some(n) => seq!["+"@ + decimal(n as nat), filename@],
            None => seq![filename@],
        }),
        r@.len() > 0 && r@.last()@ == filename@,
        line is None ==> r@.len() == 1,
        line matches Some(n) ==> r@.len() == 2 && r@[0]@.len() > 1 && r@[0]@[0] == '+'
            && number_of(r@[0]@.skip(1)) == n,
{
    let mut r: Vec<String> = Vec::new();
    if let Some(n) = line {
        r.push(concat2("+", usize_text(n).as_str()));
    }
    r.push(filename.to_string());
    proof {
        reveal_strlit("+");
        if let Some(n) = line {
            decimals_stand_for_the_number(n as nat);
            assert(("+"@ + decimal(n as nat)).skip(1) =~= decimal(n as nat));
        }
    }
    assert(strs(r@) =~= match line {
        Some(n) => seq!["+"@ + decimal(n as nat), filename@],
        None => seq![filename@],
    });
    r
}

/// The message that the annotations could not be written to a file.
pub fn export_error(cause: &str) -> (r: String)
    ensures
        r@ == "Failed to write: "@ + cause@,
        r@.skip(r@.len() - cause@.len()) == cause@,
{
    assert(("Failed to write: "@ + cause@).skip("Failed to write: "@.len() as int) =~= cause@);
    concat2("Failed to write: ", cause)
}

} // verus!
