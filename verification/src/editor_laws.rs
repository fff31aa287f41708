//! What holds of the dialog in which the tags of a hunk are edited.

use vstd::prelude::*;

use crate::keys::{Key, KeyCode};
use crate::tag_editor::{
    fits, fitting, lemma_normalized_push, lemma_without_one, EditorResultView, TagEditorView,
};
use crate::tag_names::{normal_lists_are_fixed, trimming_is_idempotent};
use crate::text::{is_white_space, lowercase, trimmed};
use crate::text_laws::blank_texts_are_white_space;

verus! {

proof fn lemma_fitting(available: Seq<Seq<char>>, n: int, input: Seq<char>)
    requires
        0 <= n <= available.len(),
        n <= usize::MAX,
    ensures
        ({
            let r = fitting(available, n, input);
            &&& forall|i: int, k: int| 0 <= i < k < r.len() ==> #[trigger] r[i] < #[trigger] r[k]
            &&& forall|i: int| 0 <= i < r.len() ==> #[trigger] r[i] < n
            &&& forall|t: usize| #[trigger]
                r.contains(t) <==> t < n && fits(available[t as int], input)
        }),
    decreases n,
{
    if n > 0 {
        lemma_fitting(available, n - 1, input);
        let less = fitting(available, n - 1, input);
        let r = fitting(available, n, input);
        let last = (n - 1) as usize;
        if fits(available[n - 1], input) {
            assert forall|t: usize| #[trigger] r.contains(t) <==> t < n && fits(
                available[t as int],
                input,
            ) by {
                assert(r[less.len() as int] == last);
                if r.contains(t) {
                    let i = choose|i: int| 0 <= i < r.len() && r[i] == t;
                    if i < less.len() {
                        assert(less[i] == t);
                        assert(less.contains(t));
                    }
                }
                if t < n - 1 && fits(available[t as int], input) {
                    assert(less.contains(t));
                    let i = choose|i: int| 0 <= i < less.len() && less[i] == t;
                    assert(r[i] == t);
                }
            }
        }
    }
}

/// The tags on offer are all those that hold what was typed, in capitals or not, and no others,
/// in order.
pub proof fn tags_on_offer_hold_the_input(available: Seq<Seq<char>>, input: Seq<char>)
    requires
        available.len() <= usize::MAX,
    ensures
        ({
            let r = fitting(available, available.len() as int, input);
            let part = lowercase(input);
            &&& forall|i: int, k: int| 0 <= i < k < r.len() ==> #[trigger] r[i] < #[trigger] r[k]
            &&& forall|t: usize| #[trigger]
                r.contains(t) <==> t < available.len() && exists|p: int|
                    0 <= p <= lowercase(available[t as int]).len() - part.len()
                        && #[trigger] lowercase(available[t as int]).subrange(p, p + part.len())
                        == part
        }),
{
    lemma_fitting(available, available.len() as int, input);
}

/// What stays the same of a dialog that keys do not close: the hunk that it is about.
pub open spec fn same_hunk(a: TagEditorView, b: TagEditorView) -> bool {
    &&& a.file_index == b.file_index && a.hunk_index == b.hunk_index
    &&& a.filename == b.filename && a.line_range == b.line_range
}

/// The offer was made anew for what is typed: the cursor stays where it is, or goes to the first
/// tag where that place is gone.
pub open spec fn offer_renewed(before: TagEditorView, after: TagEditorView) -> bool {
    let offer = fitting(after.available, after.available.len() as int, after.input);
    &&& after.filtered == offer
    &&& before.selected_index < offer.len() ==> after.selected_index == before.selected_index
    &&& before.selected_index >= offer.len() ==> after.selected_index == 0
}

/// Typing appends a character, and Backspace takes the last one away; the offer follows, and
/// the tags that are chosen and known stay.
pub proof fn typing_changes_the_input(editor: TagEditorView, c: char, control: bool, alt: bool)
    ensures
        ({
            let key = Key { code: KeyCode::Char(c), control: false, alt: false };
            let (typed, r) = editor.after_key(key);
            let back = Key { code: KeyCode::Backspace, control, alt };
            let (less, s) = editor.after_key(back);
            &&& c != ' ' ==> {
                &&& r is Continue && same_hunk(typed, editor)
                &&& typed.input.len() == editor.input.len() + 1
                &&& typed.input.drop_last() == editor.input && typed.input.last() == c
                &&& typed.selected == editor.selected && typed.available == editor.available
                &&& offer_renewed(editor, typed)
                &&& typed.after_key(back).0.input == editor.input
            }
            &&& s is Continue && same_hunk(less, editor)
            &&& less.selected == editor.selected && less.available == editor.available
            &&& offer_renewed(editor, less)
            &&& editor.input.len() == 0 ==> less.input == editor.input
            &&& editor.input.len() > 0 ==> less.input.push(editor.input.last()) == editor.input
        }),
{
    assert(editor.input.push(c).drop_last() =~= editor.input);
    if editor.input.len() > 0 {
        assert(editor.input.drop_last().push(editor.input.last()) =~= editor.input);
    }
}

/// The cursor moves by one row, up or down, with the arrows or with `k` and `j` and a modifier,
/// and not past the ends. One move undoes the other. Nothing else changes.
pub proof fn cursor_moves_by_one(editor: TagEditorView, control: bool, alt: bool)
    requires
        0 <= editor.selected_index,
        editor.selected_index < editor.filtered.len() || editor.selected_index == 0,
    ensures
        ({
            let up = Key { code: KeyCode::Up, control, alt };
            let down = Key { code: KeyCode::Down, control, alt };
            let (above, r) = editor.after_key(up);
            let (below, s) = editor.after_key(down);
            &&& r is Continue && s is Continue
            &&& above == TagEditorView { selected_index: above.selected_index, ..editor }
            &&& below == TagEditorView { selected_index: below.selected_index, ..editor }
            &&& editor.selected_index > 0 ==> above.selected_index + 1 == editor.selected_index
                && above.after_key(down).0 == editor
            &&& editor.selected_index == 0 ==> above == editor
            &&& editor.selected_index < editor.filtered.len() - 1 ==> below.selected_index - 1
                == editor.selected_index && below.after_key(up).0 == editor
            &&& editor.selected_index >= editor.filtered.len() - 1 ==> below == editor
            &&& control || alt ==> editor.after_key(Key { code: KeyCode::Char('k'), control, alt })
                == editor.after_key(up)
            &&& control || alt ==> editor.after_key(Key { code: KeyCode::Char('j'), control, alt })
                == editor.after_key(down)
        }),
{
}

/// Esc, and `c` with Control, close the dialog and change nothing of it.
pub proof fn closing_changes_nothing(editor: TagEditorView, control: bool, alt: bool)
    ensures
        editor.after_key(Key { code: KeyCode::Esc, control, alt }) == (
            editor,
            EditorResultView::Cancel,
        ),
        editor.after_key(Key { code: KeyCode::Char('c'), control: true, alt }) == (
            editor,
            EditorResultView::Cancel,
        ),
{
}

/// The space bar chooses the tag at the cursor, or gives it up where it was chosen; every other
/// tag stays chosen or not, and nothing else changes.
pub proof fn space_toggles_the_tag_at_the_cursor(editor: TagEditorView, alt: bool, t: Seq<char>)
    requires
        editor.wf(),
        editor.available.len() <= usize::MAX,
    ensures
        ({
            let (after, r) = editor.after_key(
                Key { code: KeyCode::Char(' '), control: false, alt },
            );
            let i = editor.selected_index;
            &&& r is Continue
            &&& after == TagEditorView { selected: after.selected, ..editor }
            &&& i >= editor.filtered.len() ==> after == editor
            &&& i < editor.filtered.len() ==> {
                let tag = editor.available[editor.filtered[i] as int];
                &&& after.selected.contains(tag) <==> !editor.selected.contains(tag)
                &&& t != tag ==> (after.selected.contains(t) <==> editor.selected.contains(t))
            }
        }),
{
    normal_lists_are_fixed(editor.selected);
    normal_lists_are_fixed(editor.available);
    lemma_fitting(editor.available, editor.available.len() as int, editor.input);
    if editor.selected_index < editor.filtered.len() {
        let place = editor.filtered[editor.selected_index];
        let tag = editor.available[place as int];
        assert(editor.tag_at_cursor() == Some(tag));
        if editor.selected.contains(tag) {
            lemma_without_one(editor.selected, tag);
        } else {
            lemma_normalized_push(editor.selected, tag);
        }
    }
}

/// Enter saves the tags that are chosen, and what is typed as one more where it is not blank.
/// No tag is given up, and none but the typed one is added; that one is known from then on.
pub proof fn enter_saves_the_choice(editor: TagEditorView, control: bool, alt: bool, t: Seq<char>)
    requires
        editor.wf(),
    ensures
        ({
            let (after, r) = editor.after_key(Key { code: KeyCode::Enter, control, alt });
            let blank = forall|k: int|
                0 <= k < editor.input.len() ==> is_white_space(#[trigger] editor.input[k]);
            let typed = trimmed(editor.input);
            &&& r == EditorResultView::Save(after.selected)
            &&& blank ==> after == editor
            &&& !blank ==> {
                &&& same_hunk(after, editor)
                &&& after.input.len() == 0
                &&& offer_renewed(editor, after)
                &&& after.selected.contains(t) <==> editor.selected.contains(t) || t == typed
                &&& after.available.contains(t) <==> editor.available.contains(t) || t == typed
            }
        }),
{
    blank_texts_are_white_space(editor.input);
    normal_lists_are_fixed(editor.selected);
    normal_lists_are_fixed(editor.available);
    let typed = trimmed(editor.input);
    if typed.len() > 0 {
        trimming_is_idempotent(editor.input);
        lemma_normalized_push(editor.selected, typed);
        lemma_normalized_push(editor.available, typed);
    }
}

} // verus!
