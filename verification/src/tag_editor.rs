//! The dialog in which the tags of a hunk are chosen.

use vstd::prelude::*;

use crate::diff::has_line;
use crate::keys::{Key, KeyCode};
use crate::tag_names::{
    ascending_lists_are_unique, is_normal, is_tag_of, lex_less_irreflexive, normal_form_exists,
    normal_lists_are_fixed, normal_without_one, normalize_tags, normalized,
    normalizing_is_idempotent, trimming_is_idempotent,
};
use crate::text::{
    after_last, concat2, decimal, join_strings, joined, lex_less, lowercase, occurs_in,
    part_after_last, str_contains, strs, trimmed, usize_text,
};

verus! {

/// What a key did to the dialog.
#[derive(Debug)]
pub enum TagEditorResult {
    /// The dialog stays open.
    Continue,
    /// The dialog is closed, and the hunk gets these tags.
    Save(Vec<String>),
    /// The dialog is closed, and nothing changes.
    Cancel,
}

/// The model of a `TagEditorResult`.
pub enum EditorResultView {
    Continue,
    Save(Seq<Seq<char>>),
    Cancel,
}

impl View for TagEditorResult {
    type V = EditorResultView;

    open spec fn view(&self) -> EditorResultView {
        match self {
            TagEditorResult::Continue => EditorResultView::Continue,
            TagEditorResult::Save(tags) => EditorResultView::Save(strs(tags@)),
            TagEditorResult::Cancel => EditorResultView::Cancel,
        }
    }
}

/// The dialog in which the tags of a hunk are chosen: the tags that there are, those of
/// them that fit what was typed, and those that are chosen.
#[derive(Debug)]
pub struct TagEditor {
    pub file_index: usize,
    pub hunk_index: usize,
    pub filename: String,
    pub line_range: (usize, usize),
    pub input: String,
    pub available_tags: Vec<String>,
    pub filtered_indices: Vec<usize>,
    pub selected_index: usize,
    pub selected_tags: Vec<String>,
}

/// The model of a `TagEditor`.
#[verifier::ext_equal]
pub struct TagEditorView {
    pub file_index: usize,
    pub hunk_index: usize,
    pub filename: Seq<char>,
    pub line_range: (usize, usize),
    pub input: Seq<char>,
    pub available: Seq<Seq<char>>,
    pub filtered: Seq<usize>,
    pub selected_index: int,
    pub selected: Seq<Seq<char>>,
}

impl View for TagEditor {
    type V = TagEditorView;

    open spec fn view(&self) -> TagEditorView {
        TagEditorView {
            file_index: self.file_index,
            hunk_index: self.hunk_index,
            filename: self.filename@,
            line_range: self.line_range,
            input: self.input@,
            available: strs(self.available_tags@),
            filtered: self.filtered_indices@,
            selected_index: self.selected_index as int,
            selected: strs(self.selected_tags@),
        }
    }
}

/// Whether a tag fits what was typed: it contains it, upper and lower case aside.
pub open spec fn fits(tag: Seq<char>, input: Seq<char>) -> bool {
    occurs_in(lowercase(input), lowercase(tag))
}

/// The positions of those of the first `n` tags that fit what was typed.
pub open spec fn fitting(available: Seq<Seq<char>>, n: int, input: Seq<char>) -> Seq<usize>
    decreases n,
{
    if n <= 0 {
        seq![]
    } else if fits(available[n - 1], input) {
        fitting(available, n - 1, input).push((n - 1) as usize)
    } else {
        fitting(available, n - 1, input)
    }
}

impl TagEditorView {
    /// The tags that there are and those that are chosen are in normal form, the ones
    /// that are listed are those that fit what was typed, and the cursor is on one of
    /// them, or on the first line where the list is empty.
    pub open spec fn wf(self) -> bool {
        &&& normalized(self.available) == self.available
        &&& normalized(self.selected) == self.selected
        &&& self.filtered == fitting(self.available, self.available.len() as int, self.input)
        &&& 0 <= self.selected_index
        &&& self.selected_index < self.filtered.len() || self.selected_index == 0
    }

    /// The list brought up to date with what was typed.
    pub open spec fn refreshed(self) -> TagEditorView {
        let filtered = fitting(self.available, self.available.len() as int, self.input);
        TagEditorView {
            filtered,
            selected_index: if self.selected_index >= filtered.len() {
                0
            } else {
                self.selected_index
            },
            ..self
        }
    }

    /// The tag that the cursor is on.
    pub open spec fn tag_at_cursor(self) -> Option<Seq<char>> {
        if 0 <= self.selected_index < self.filtered.len() && self.filtered[self.selected_index]
            < self.available.len() {
            Some(self.available[self.filtered[self.selected_index] as int])
        } else {
            None
        }
    }

    /// The tag that the cursor is on chosen, or no longer chosen where it was.
    pub open spec fn toggled(self) -> TagEditorView {
        match self.tag_at_cursor() {
            Some(tag) => TagEditorView {
                selected: if self.selected.contains(tag) {
                    self.selected.remove(self.selected.index_of_first(tag)->0)
                } else {
                    normalized(self.selected.push(tag))
                },
                ..self
            },
            None => self,
        }
    }

    /// A new tag chosen and put among those that there are, with nothing typed.
    pub open spec fn with_tag(self, tag: Seq<char>) -> TagEditorView {
        TagEditorView {
            selected: if self.selected.contains(tag) {
                self.selected
            } else {
                normalized(self.selected.push(tag))
            },
            available: if self.available.contains(tag) {
                self.available
            } else {
                normalized(self.available.push(tag))
            },
            input: seq![],
            ..self
        }.refreshed()
    }

    /// What a key does. A character is typed, but for the space, which chooses the tag at
    /// the cursor; with control or alt held down, `j` and `k` move the cursor.
    pub open spec fn after_key(self, key: Key) -> (TagEditorView, EditorResultView) {
        match key.code {
            KeyCode::Esc => (self, EditorResultView::Cancel),
            KeyCode::Up => (self.moved_up(), EditorResultView::Continue),
            KeyCode::Down => (self.moved_down(), EditorResultView::Continue),
            KeyCode::Backspace => (
                TagEditorView {
                    input: if self.input.len() > 0 {
                        self.input.drop_last()
                    } else {
                        self.input
                    },
                    ..self
                }.refreshed(),
                EditorResultView::Continue,
            ),
            KeyCode::Enter => {
                let after = if trimmed(self.input).len() > 0 {
                    self.with_tag(trimmed(self.input))
                } else {
                    self
                };
                (after, EditorResultView::Save(after.selected))
            },
            KeyCode::Char(c) => if c == 'c' && key.control {
                (self, EditorResultView::Cancel)
            } else if c == ' ' {
                (self.toggled(), EditorResultView::Continue)
            } else if !key.control && !key.alt {
                (
                    TagEditorView { input: self.input.push(c), ..self }.refreshed(),
                    EditorResultView::Continue,
                )
            } else if c == 'k' {
                (self.moved_up(), EditorResultView::Continue)
            } else if c == 'j' {
                (self.moved_down(), EditorResultView::Continue)
            } else {
                (self, EditorResultView::Continue)
            },
            _ => (self, EditorResultView::Continue),
        }
    }

    /// The cursor one line up.
    pub open spec fn moved_up(self) -> TagEditorView {
        TagEditorView {
            selected_index: if self.selected_index > 0 {
                self.selected_index - 1
            } else {
                self.selected_index
            },
            ..self
        }
    }

    /// The cursor one line down.
    pub open spec fn moved_down(self) -> TagEditorView {
        TagEditorView {
            selected_index: if self.selected_index + 1 < self.filtered.len() {
                self.selected_index + 1
            } else {
                self.selected_index
            },
            ..self
        }
    }
}

/// The position of a text among lines.
fn position_of(lines: &Vec<String>, line: &String) -> (r: Option<usize>)
    ensures
        match r {
            Some(i) => strs(lines@).index_of_first(line@) == Some(i as int) && i < lines@.len(),
            None => !strs(lines@).contains(line@),
        },
{
    let mut i: usize = 0;
    while i < lines.len()
        invariant
            i <= lines@.len(),
            forall|k: int| 0 <= k < i ==> #[trigger] strs(lines@)[k] != line@,
        decreases lines@.len() - i,
    {
        if lines[i] == *line {
            proof {
                let s = strs(lines@);
                assert(s[i as int] == line@);
                assert(s.contains(line@));
                s.index_of_first_ensures(line@);
                let f = s.index_of_first(line@)->0;
                if f < i {
                    assert(s[f] != line@);
                }
            }
            return Some(i);
        }
        i += 1;
    }
    None
}

/// Whatever key is pressed, the lists stay in normal form, the ones that fit are listed,
/// and the cursor stays on the list.
pub proof fn keys_keep_the_dialog_well_formed(editor: TagEditorView, key: Key)
    requires
        editor.wf(),
    ensures
        editor.after_key(key).0.wf(),
{
    normal_lists_are_fixed(editor.selected);
    normal_lists_are_fixed(editor.available);
    if let Some(tag) = editor.tag_at_cursor() {
        let chosen = editor.selected;
        if chosen.contains(tag) {
            chosen.index_of_first_ensures(tag);
            let i = chosen.index_of_first(tag)->0;
            normal_without_one(chosen, i);
            normal_lists_are_fixed(chosen.remove(i));
        } else {
            normalizing_is_idempotent(chosen.push(tag));
        }
    }
    let typed = trimmed(editor.input);
    normalizing_is_idempotent(editor.selected.push(typed));
    normalizing_is_idempotent(editor.available.push(typed));
}

impl TagEditor {
    /// A dialog for a hunk with some tags, in a repository with some tags in use.
    pub fn new(
        file_index: usize,
        hunk_index: usize,
        filename: String,
        line_range: (usize, usize),
        current_tags: Vec<String>,
        available_tags: Vec<String>,
    ) -> (r: Self)
        ensures
            r@ == (TagEditorView {
                file_index,
                hunk_index,
                filename: filename@,
                line_range,
                input: seq![],
                available: normalized(strs(available_tags@)),
                filtered: seq![],
                selected_index: 0,
                selected: normalized(strs(current_tags@)),
            }).refreshed(),
            r@.wf(),
            r@.input.len() == 0 && r@.selected_index == 0,
            r@.filename == filename@ && r@.line_range == line_range,
            r@.selected == normalized(strs(current_tags@)),
            r@.available == normalized(strs(available_tags@)),
            r.file_index == file_index,
            r.hunk_index == hunk_index,
    {
        proof {
            normalizing_is_idempotent(strs(available_tags@));
            normalizing_is_idempotent(strs(current_tags@));
        }
        let mut editor = TagEditor {
            file_index,
            hunk_index,
            filename,
            line_range,
            input: String::new(),
            available_tags: normalize_tags(available_tags),
            filtered_indices: Vec::new(),
            selected_index: 0,
            selected_tags: normalize_tags(current_tags),
        };
        editor.refresh_filter();
        editor
    }

    /// Brings the list up to date with what was typed.
    fn refresh_filter(&mut self)
        ensures
            final(self)@ == old(self)@.refreshed(),
    {
        let query = self.input.to_lowercase();
        let mut filtered: Vec<usize> = Vec::new();
        let mut i: usize = 0;
        while i < self.available_tags.len()
            invariant
                i <= self.available_tags@.len(),
                query@ == lowercase(self.input@),
                filtered@ == fitting(strs(self.available_tags@), i as int, self.input@),
            decreases self.available_tags@.len() - i,
        {
            let lower = self.available_tags[i].to_lowercase();
            if str_contains(lower.as_str(), query.as_str()) {
                filtered.push(i);
            }
            i += 1;
        }
        self.filtered_indices = filtered;
        if self.selected_index >= self.filtered_indices.len() {
            self.selected_index = 0;
        }
    }

    /// The tag that the cursor is on.
    pub fn selected_tag_from_list(&self) -> (r: Option<&String>)
        ensures
            match r {
                Some(tag) => self@.tag_at_cursor() == Some(tag@),
                None => self@.tag_at_cursor() is None,
            },
    {
        if self.selected_index < self.filtered_indices.len() {
            let index = self.filtered_indices[self.selected_index];
            if index < self.available_tags.len() {
                return Some(&self.available_tags[index]);
            }
        }
        None
    }

    /// Chooses the tag that the cursor is on, or no longer where it is chosen.
    fn toggle_selected_tag(&mut self)
        ensures
            final(self)@ == old(self)@.toggled(),
    {
        let tag: String = match self.selected_tag_from_list() {
            Some(tag) => tag.clone(),
            None => {
                return ;
            },
        };
        let ghost before = strs(self.selected_tags@);
        match position_of(&self.selected_tags, &tag) {
            Some(i) => {
                proof {
                    before.index_of_first_ensures(tag@);
                    if !before.contains(tag@) {
                        assert(before.index_of_first(tag@) is None);
                    }
                }
                self.selected_tags.remove(i);
                assert(strs(self.selected_tags@) == before.remove(i as int));
            },
            None => {
                let mut tags = self.selected_tags.clone();
                assert(strs(tags@) == before);
                tags.push(tag);
                assert(strs(tags@) == before.push(tag@));
                self.selected_tags = normalize_tags(tags);
            },
        }
    }

    /// Chooses a new tag, puts it among those that there are, and clears what was typed.
    fn add_tag(&mut self, tag: String)
        ensures
            final(self)@ == old(self)@.with_tag(tag@),
    {
        if !has_line(&self.selected_tags, &tag) {
            let ghost before = strs(self.selected_tags@);
            let mut tags = self.selected_tags.clone();
            assert(strs(tags@) == before);
            tags.push(tag.clone());
            assert(strs(tags@) == before.push(tag@));
            self.selected_tags = normalize_tags(tags);
        }
        if !has_line(&self.available_tags, &tag) {
            let ghost before = strs(self.available_tags@);
            let mut tags = self.available_tags.clone();
            assert(strs(tags@) == before);
            tags.push(tag);
            assert(strs(tags@) == before.push(tag@));
            self.available_tags = normalize_tags(tags);
        }
        self.input = String::new();
        self.refresh_filter();
    }

    /// What a key does.
    pub fn handle_input(&mut self, key: Key) -> (r: TagEditorResult)
        requires
            old(self)@.wf(),
        ensures
            (final(self)@, r@) == old(self)@.after_key(key),
            final(self)@.wf(),
            final(self).file_index == old(self).file_index,
            final(self).hunk_index == old(self).hunk_index,
    {
        proof {
            keys_keep_the_dialog_well_formed(self@, key);
        }
        match key.code {
            KeyCode::Esc => TagEditorResult::Cancel,
            KeyCode::Up => {
                self.move_up();
                TagEditorResult::Continue
            },
            KeyCode::Down => {
                self.move_down();
                TagEditorResult::Continue
            },
            KeyCode::Backspace => {
                self.input.pop();
                self.refresh_filter();
                TagEditorResult::Continue
            },
            KeyCode::Enter => {
                let typed = self.input.trim().to_string();
                if !typed.as_str().is_empty() {
                    self.add_tag(typed);
                }
                let tags = self.selected_tags.clone();
                assert(strs(tags@) == strs(self.selected_tags@));
                TagEditorResult::Save(tags)
            },
            KeyCode::Char(c) => {
                if c == 'c' && key.control {
                    return TagEditorResult::Cancel;
                }
                if c == ' ' {
                    self.toggle_selected_tag();
                } else if !key.control && !key.alt {
                    self.input.push(c);
                    self.refresh_filter();
                } else if c == 'k' {
                    self.move_up();
                } else if c == 'j' {
                    self.move_down();
                }
                TagEditorResult::Continue
            },
            _ => TagEditorResult::Continue,
        }
    }

    fn move_up(&mut self)
        ensures
            final(self)@ == old(self)@.moved_up(),
    {
        if self.selected_index > 0 {
            self.selected_index -= 1;
        }
    }

    fn move_down(&mut self)
        requires
            old(self)@.wf(),
        ensures
            final(self)@ == old(self)@.moved_down(),
    {
        if self.selected_index < self.filtered_indices.len() && self.selected_index + 1
            < self.filtered_indices.len() {
            self.selected_index += 1;
        }
    }
}

// ---------------------------------------------------------------------------
// How the dialog looks
// ---------------------------------------------------------------------------
/// A rectangle of cells.
#[derive(Debug, Clone, Copy, PartialEq, Eq, Structural)]
pub struct Area {
    pub x: u16,
    pub y: u16,
    pub width: u16,
    pub height: u16,
}

/// The smaller of two numbers.
pub open spec fn least(a: int, b: int) -> int {
    if a < b {
        a
    } else {
        b
    }
}

/// What is left of `a` when `b` is taken away, and nothing where `b` is more.
pub open spec fn without(a: int, b: int) -> int {
    if a < b {
        0
    } else {
        a - b
    }
}

/// The place of the dialog on a screen: in the middle, of 64 by 12 cells, or smaller where
/// the screen leaves no margin of 4.
pub fn modal_area(width: u16, height: u16) -> (r: Area)
    ensures
        r.width == least(64, without(width as int, 4)),
        r.height == least(12, without(height as int, 4)),
        r.x == (width - r.width) / 2,
        r.y == (height - r.height) / 2,
        r.x + r.width <= width,
        r.y + r.height <= height,
        width >= 68 ==> r.width == 64,
        4 <= width < 68 ==> r.width + 4 == width,
        height >= 16 ==> r.height == 12,
        4 <= height < 16 ==> r.height + 4 == height,
        0 <= width - r.width - 2 * r.x <= 1,
        0 <= height - r.height - 2 * r.y <= 1,
{
    let w: u16 = if width.saturating_sub(4) < 64 {
        width.saturating_sub(4)
    } else {
        64
    };
    let h: u16 = if height.saturating_sub(4) < 12 {
        height.saturating_sub(4)
    } else {
        12
    };
    Area { x: (width - w) / 2, y: (height - h) / 2, width: w, height: h }
}

impl TagEditor {
    /// What was typed.
    pub fn input(&self) -> (r: &String)
        ensures
            r@ == self@.input,
    {
        &self.input
    }

    /// The title: the name of the file without its directories, and the lines of the hunk.
    pub fn title(&self) -> (r: String)
        ensures
            r@ == " "@ + after_last(self@.filename, '/') + " \u{b7} L"@ + decimal(
                self@.line_range.0 as nat,
            ) + "-"@ + decimal(self@.line_range.1 as nat) + " "@,
            (" "@ + after_last(self@.filename, '/')).is_prefix_of(r@),
            exists|n: int|
                0 <= n <= r@.len() && #[trigger] r@.skip(n) == "L"@ + decimal(
                    self@.line_range.0 as nat,
                ) + "-"@ + decimal(self@.line_range.1 as nat) + " "@,
    {
        proof {
            reveal_strlit(" \u{b7} L");
            reveal_strlit("L");
            let (from, to) = self@.line_range;
            let start = " "@ + after_last(self@.filename, '/');
            let end = decimal(from as nat) + "-"@ + decimal(to as nat) + " "@;
            let all = start + " \u{b7} L"@ + decimal(from as nat) + "-"@ + decimal(to as nat) + " "@;
            let n = start.len() + 3;
            assert(start.is_prefix_of(all));
            assert(all.skip(n as int) =~= "L"@ + decimal(from as nat) + "-"@ + decimal(to as nat)
                + " "@);
        }
        let name = part_after_last(self.filename.as_str(), '/');
        let mut r = concat2(" ", name.as_str());
        r.append(" \u{b7} L");
        r.append(usize_text(self.line_range.0).as_str());
        r.append("-");
        r.append(usize_text(self.line_range.1).as_str());
        r.append(" ");
        r
    }

    /// The line that says which tags are chosen.
    pub fn tags_line(&self) -> (r: String)
        ensures
            r@ == (if self@.selected.len() == 0 {
                "Tags: (none)"@
            } else {
                "Tags: "@ + joined(self@.selected, ", "@)
            }),
            "Tags: "@.is_prefix_of(r@),
            self@.selected.len() == 0 ==> r@.skip(6) == "(none)"@,
            self@.selected.len() > 0 ==> r@.skip(6) == joined(self@.selected, ", "@),
    {
        proof {
            reveal_strlit("Tags: ");
            reveal_strlit("(none)");
            reveal_strlit("Tags: (none)");
            let all = "Tags: "@ + joined(self@.selected, ", "@);
            assert("Tags: "@.is_prefix_of(all));
            assert(all.skip(6) =~= joined(self@.selected, ", "@));
            assert("Tags: (none)"@ =~= "Tags: "@ + "(none)"@);
            assert("Tags: "@.is_prefix_of("Tags: (none)"@));
            assert("Tags: (none)"@.skip(6) =~= "(none)"@);
        }
        assert(strs(self.selected_tags@).len() == self.selected_tags@.len());
        if self.selected_tags.len() == 0 {
            "Tags: (none)".to_string()
        } else {
            concat2("Tags: ", join_strings(&self.selected_tags, ", ").as_str())
        }
    }

    /// The tags that are listed, and whether each is chosen.
    pub fn list_lines(&self) -> (r: Vec<(bool, String)>)
        requires
            self@.wf(),
        ensures
            r@.len() == self@.filtered.len(),
            forall|i: int|
                0 <= i < r@.len() ==> (#[trigger] r@[i]).1@
                    == self@.available[self@.filtered[i] as int] && r@[i].0
                    == self@.selected.contains(r@[i].1@),
    {
        let mut r: Vec<(bool, String)> = Vec::new();
        let mut i: usize = 0;
        while i < self.filtered_indices.len()
            invariant
                self@.wf(),
                i == r@.len(),
                i <= self.filtered_indices@.len(),
                forall|k: int|
                    0 <= k < r@.len() ==> (#[trigger] r@[k]).1@
                        == self@.available[self@.filtered[k] as int] && r@[k].0
                        == self@.selected.contains(r@[k].1@),
            decreases self.filtered_indices@.len() - i,
        {
            assert(self.available_tags.len() == self.available_tags@.len());
            proof {
                lemma_fitting_in_range(
                    self@.available,
                    self@.available.len() as int,
                    self@.input,
                    i as int,
                );
            }
            let tag = &self.available_tags[self.filtered_indices[i]];
            r.push((has_line(&self.selected_tags, tag), tag.clone()));
            i += 1;
        }
        r
    }

    /// The line of the list that the cursor is on.
    pub fn cursor_row(&self) -> (r: Option<usize>)
        requires
            self@.wf(),
        ensures
            match r {
                Some(row) => row == self@.selected_index && row < self@.filtered.len(),
                None => self@.filtered.len() == 0,
            },
    {
        if self.filtered_indices.len() == 0 {
            None
        } else {
            Some(self.selected_index)
        }
    }
}

proof fn lemma_fitting_in_range(available: Seq<Seq<char>>, n: int, input: Seq<char>, i: int)
    requires
        0 <= n <= available.len() <= usize::MAX,
        0 <= i < fitting(available, n, input).len(),
    ensures
        fitting(available, n, input)[i] < n,
    decreases n,
{
    if n > 0 && i < fitting(available, n - 1, input).len() {
        lemma_fitting_in_range(available, n - 1, input, i);
    }
}

// ---------------------------------------------------------------------------
// Laws
// ---------------------------------------------------------------------------
pub(crate) proof fn lemma_normalized_push(tags: Seq<Seq<char>>, t: Seq<char>)
    requires
        is_normal(tags),
        t.len() > 0,
        trimmed(t) == t,
    ensures
        is_normal(normalized(tags.push(t))),
        forall|u: Seq<char>| #[trigger]
            normalized(tags.push(t)).contains(u) <==> tags.contains(u) || u == t,
{
    let more = tags.push(t);
    normal_lists_are_fixed(more);
    normal_form_exists(more);
    assert forall|u: Seq<char>| #[trigger] normalized(more).contains(u) <==> tags.contains(u) || u
        == t by {
        if is_tag_of(u, more) {
            let k = choose|k: int| 0 <= k < more.len() && trimmed(#[trigger] more[k]) == u;
            if k < tags.len() {
                assert(tags[k] == u);
            }
        }
        if tags.contains(u) {
            let k = choose|k: int| 0 <= k < tags.len() && tags[k] == u;
            assert(trimmed(more[k]) == u);
            assert(tags[k].len() > 0);
        }
        if u == t {
            assert(trimmed(more[tags.len() as int]) == u);
        }
    }
}

pub(crate) proof fn lemma_without_one(tags: Seq<Seq<char>>, t: Seq<char>)
    requires
        is_normal(tags),
        tags.contains(t),
    ensures
        ({
            let rest = tags.remove(tags.index_of_first(t)->0);
            &&& is_normal(rest)
            &&& forall|u: Seq<char>| #[trigger] rest.contains(u) <==> tags.contains(u) && u != t
        }),
{
    tags.index_of_first_ensures(t);
    let i = tags.index_of_first(t)->0;
    let rest = tags.remove(i);
    normal_without_one(tags, i);
    assert forall|u: Seq<char>| #[trigger] rest.contains(u) <==> tags.contains(u) && u != t by {
        if rest.contains(u) {
            let k = choose|k: int| 0 <= k < rest.len() && rest[k] == u;
            let x = if k < i {
                k
            } else {
                k + 1
            };
            assert(tags[x] == u);
            lex_less_irreflexive(t);
            if x < i {
                assert(lex_less(tags[x], tags[i]));
            } else {
                assert(lex_less(tags[i], tags[x]));
            }
        }
        if tags.contains(u) && u != t {
            let k = choose|k: int| 0 <= k < tags.len() && tags[k] == u;
            if k < i {
                assert(rest[k] == u);
            } else {
                assert(rest[k - 1] == u);
            }
        }
    }
}

/// Choosing a tag and then no longer, or the other way round, changes nothing.
pub proof fn toggling_twice_changes_nothing(editor: TagEditorView)
    requires
        editor.wf(),
    ensures
        editor.toggled().toggled() == editor,
{
    normal_lists_are_fixed(editor.selected);
    normal_lists_are_fixed(editor.available);
    if let Some(tag) = editor.tag_at_cursor() {
        let chosen = editor.selected;
        let once = editor.toggled();
        let twice = once.toggled();
        assert(once.tag_at_cursor() == Some(tag));
        if chosen.contains(tag) {
            lemma_without_one(chosen, tag);
            lemma_normalized_push(once.selected, tag);
        } else {
            lemma_normalized_push(chosen, tag);
            lemma_without_one(once.selected, tag);
        }
        ascending_lists_are_unique(twice.selected, chosen);
    }
}

/// What was typed is among the tags that the enter key saves.
pub proof fn typed_tag_is_saved(editor: TagEditorView, key: Key)
    requires
        editor.wf(),
        key.code == KeyCode::Enter,
        trimmed(editor.input).len() > 0,
    ensures
        editor.after_key(key).1 matches EditorResultView::Save(tags) && tags.contains(
            trimmed(editor.input),
        ),
{
    let typed = trimmed(editor.input);
    normal_lists_are_fixed(editor.selected);
    trimming_is_idempotent(editor.input);
    if !editor.selected.contains(typed) {
        lemma_normalized_push(editor.selected, typed);
    }
}

/// The dialog after a text was typed, character by character.
pub open spec fn after_typing(editor: TagEditorView, text: Seq<char>) -> TagEditorView
    decreases text.len(),
{
    if text.len() == 0 {
        editor
    } else {
        after_typing(editor, text.drop_last()).after_key(
            Key { code: KeyCode::Char(text.last()), control: false, alt: false },
        ).0
    }
}

proof fn lemma_typing(editor: TagEditorView, text: Seq<char>)
    requires
        editor.wf(),
        !text.contains(' '),
    ensures
        after_typing(editor, text).wf(),
        after_typing(editor, text).input == editor.input + text,
    decreases text.len(),
{
    if text.len() > 0 {
        let rest = text.drop_last();
        if rest.contains(' ') {
            let i = choose|i: int| 0 <= i < rest.len() && rest[i] == ' ';
            assert(text[i] == ' ');
        }
        lemma_typing(editor, rest);
        let key = Key { code: KeyCode::Char(text.last()), control: false, alt: false };
        keys_keep_the_dialog_well_formed(after_typing(editor, rest), key);
        assert(text.last() == text[text.len() - 1]);
        assert(editor.input + text == (editor.input + rest).push(text.last()));
    } else {
        assert(editor.input + text == editor.input);
    }
}

/// Any new tag without spaces can be typed: its characters and the enter key, in a dialog
/// in which nothing was typed, save it.
pub proof fn new_tags_can_be_typed(editor: TagEditorView, tag: Seq<char>, enter: Key)
    requires
        editor.wf(),
        editor.input.len() == 0,
        tag.len() > 0,
        trimmed(tag) == tag,
        !tag.contains(' '),
        enter.code == KeyCode::Enter,
    ensures
        after_typing(editor, tag).after_key(enter).1 matches EditorResultView::Save(tags)
            && tags.contains(tag),
{
    lemma_typing(editor, tag);
    assert(editor.input + tag == tag);
    typed_tag_is_saved(after_typing(editor, tag), enter);
}

/// The tags that are saved are in normal form.
pub proof fn saved_tags_are_normal(editor: TagEditorView, key: Key)
    requires
        editor.wf(),
    ensures
        editor.after_key(key).1 matches EditorResultView::Save(tags) ==> is_normal(tags),
{
    keys_keep_the_dialog_well_formed(editor, key);
    normal_lists_are_fixed(editor.after_key(key).0.selected);
}

} // verus!
