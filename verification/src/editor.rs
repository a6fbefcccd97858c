//! The multi-tab text editor model: per-tab line buffers with a cursor and
//! a scroll offset, and the tab list with its active index.  What touches
//! the filesystem (loading and persisting a buffer) is split off: opening
//! takes the file's text, saving hands back the path and the text to
//! persist.

use vstd::prelude::*;
use vstd::string::*;
use crate::text::{join_nl, spec_join_nl, spec_lines, split_lines, string_from_chars, subvec, to_chars, views_of};

verus! {

/// Relies on `std::time::SystemTime`: a tab identifier derived from the
/// clock; nothing is promised of its value.
#[verifier::external_body]
fn fresh_tab_id() -> u32 {
    std::time::SystemTime::now().duration_since(std::time::UNIX_EPOCH).map(
        |d| d.as_nanos() as u32,
    ).unwrap_or(0)
}

/// One open buffer.
#[derive(Debug, Clone)]
pub struct EditorTab {
    pub file_path: Option<String>,
    pub file_name: String,
    pub content: String,
    pub lines: Vec<Vec<char>>,
    pub cursor_line: usize,
    pub cursor_col: usize,
    pub scroll_offset: usize,
    pub is_modified: bool,
    pub id: u32,
}

impl EditorTab {
    /// Well-formedness: at least one line, and the cursor inside the text.
    pub open spec fn wf(self) -> bool {
        &&& self.lines@.len() > 0
        &&& self.cursor_line < self.lines@.len()
        &&& self.cursor_col <= self.lines@[self.cursor_line as int]@.len()
    }

    /// An unnamed empty buffer: one empty line, cursor at the origin.
    pub fn new() -> (r: EditorTab)
        ensures
            r.file_path is None,
            r.file_name@ == "Untitled"@,
            r.content@ == Seq::<char>::empty(),
            r.lines@.len() == 1,
            r.lines@[0]@ == Seq::<char>::empty(),
            r.cursor_line == 0,
            r.cursor_col == 0,
            r.scroll_offset == 0,
            r.is_modified == false,
            r.wf(),
    {
        let mut lines: Vec<Vec<char>> = Vec::new();
        lines.push(Vec::new());
        EditorTab {
            file_path: None,
            file_name: String::from_str("Untitled"),
            content: String::new(),
            lines,
            cursor_line: 0,
            cursor_col: 0,
            scroll_offset: 0,
            is_modified: false,
            id: fresh_tab_id(),
        }
    }

    /// A buffer over a file's text: the text split into lines (one empty
    /// line when the text is empty), cursor at the origin.
    pub fn from_content(file_path: String, file_name: String, content: String) -> (r: EditorTab)
        ensures
            r.file_path == Some(file_path),
            r.file_name == file_name,
            r.content == content,
            views_of(r.lines@) == (if content@.len() == 0 {
                seq![Seq::<char>::empty()]
            } else {
                spec_lines(content@)
            }),
            r.cursor_line == 0,
            r.cursor_col == 0,
            r.scroll_offset == 0,
            r.is_modified == false,
            r.wf(),
    {
        let lines: Vec<Vec<char>> = if content.as_str().unicode_len() == 0 {
            let mut ls: Vec<Vec<char>> = Vec::new();
            ls.push(Vec::new());
            proof {
                assert(views_of(ls@) =~= seq![Seq::<char>::empty()]);
            }
            ls
        } else {
            split_lines(&to_chars(content.as_str()))
        };
        proof {
            if content@.len() > 0 {
                if crate::text::spec_find_char(content@, 0, '\n') is Some {
                    crate::text::lemma_find_char_bounds(content@, 0, '\n');
                }
                assert(spec_lines(content@).len() >= 1);
            }
            assert(views_of(lines@).len() == lines@.len());
        }
        EditorTab {
            file_path: Some(file_path),
            file_name,
            content,
            lines,
            cursor_line: 0,
            cursor_col: 0,
            scroll_offset: 0,
            is_modified: false,
            id: fresh_tab_id(),
        }
    }

    /// Inserts a character at the cursor when the cursor is inside the
    /// text; otherwise the buffer is unchanged.
    pub fn insert_char(&mut self, c: char)
        requires
            old(self).cursor_col < usize::MAX,
        ensures
            if old(self).cursor_line < old(self).lines@.len() && old(self).cursor_col <= old(self).lines@[old(self).cursor_line as int]@.len() {
                &&& final(self).lines@ == old(self).lines@.update(
                    old(self).cursor_line as int,
                    final(self).lines@[old(self).cursor_line as int],
                )
                &&& final(self).lines@[old(self).cursor_line as int]@ == old(self).lines@[old(self).cursor_line as int]@.insert(old(self).cursor_col as int, c)
                &&& final(self).cursor_col == old(self).cursor_col + 1
                &&& final(self).is_modified == true
                &&& final(self).cursor_line == old(self).cursor_line
                &&& final(self).scroll_offset == old(self).scroll_offset
                &&& final(self).file_path == old(self).file_path
                &&& final(self).file_name == old(self).file_name
                &&& final(self).content == old(self).content
                &&& final(self).id == old(self).id
            } else {
                *final(self) == *old(self)
            },
    {
        if self.cursor_line < self.lines.len() {
            let line_len = self.lines[self.cursor_line].len();
            if self.cursor_col <= line_len {
                let cl = self.cursor_line;
                let cc = self.cursor_col;
                self.lines[cl].insert(cc, c);
                self.cursor_col = cc + 1;
                self.is_modified = true;
            }
        }
    }

    /// Splits the current line at the cursor and moves to the start of the
    /// new line; with the cursor outside the text, the buffer is unchanged.
    pub fn insert_newline(&mut self)
        requires
            old(self).cursor_line < old(self).lines@.len() ==> old(self).cursor_col <= old(self).lines@[old(self).cursor_line as int]@.len(),
        ensures
            if old(self).cursor_line < old(self).lines@.len() {
                let cl = old(self).cursor_line as int;
                let cur = old(self).lines@[cl]@;
                &&& final(self).lines@.len() == old(self).lines@.len() + 1
                &&& final(self).lines@[cl]@ == cur.take(old(self).cursor_col as int)
                &&& final(self).lines@[cl + 1]@ == cur.skip(old(self).cursor_col as int)
                &&& (forall|k: int|
                    0 <= k < cl ==> final(self).lines@[k] == old(self).lines@[k])
                &&& (forall|k: int|
                    cl + 1 < k < final(self).lines@.len() ==> final(self).lines@[k] == old(self).lines@[k - 1])
                &&& final(self).cursor_line == old(self).cursor_line + 1
                &&& final(self).cursor_col == 0
                &&& final(self).is_modified == true
                &&& final(self).scroll_offset == old(self).scroll_offset
                &&& final(self).file_path == old(self).file_path
                &&& final(self).file_name == old(self).file_name
                &&& final(self).content == old(self).content
                &&& final(self).id == old(self).id
            } else {
                *final(self) == *old(self)
            },
    {
        if self.cursor_line < self.lines.len() {
            let cl = self.cursor_line;
            let cc = self.cursor_col;
            let right = subvec(&self.lines[cl], cc, self.lines[cl].len());
            self.lines[cl].truncate(cc);
            proof {
                assert(self.lines@[cl as int]@ =~= old(self).lines@[cl as int]@.take(cc as int));
            }
            self.lines.insert(cl + 1, right);
            self.cursor_line = cl + 1;
            self.cursor_col = 0;
            self.is_modified = true;
        }
    }

    /// Deletes backwards: the character before the cursor, or — at a line's
    /// start — the line break, joining the line onto the previous one.
    pub fn backspace(&mut self)
        requires
            old(self).cursor_col == 0 && old(self).cursor_line > 0 ==> old(self).cursor_line < old(self).lines@.len(),
        ensures
            ({
                let cl = old(self).cursor_line as int;
                let cc = old(self).cursor_col as int;
                if cc > 0 {
                    if cl < old(self).lines@.len() && cc <= old(self).lines@[cl]@.len() {
                        &&& final(self).lines@.len() == old(self).lines@.len()
                        &&& final(self).lines@[cl]@ == old(self).lines@[cl]@.remove(cc - 1)
                        &&& (forall|k: int|
                            0 <= k < final(self).lines@.len() && k != cl ==> final(self).lines@[k]
                                == old(self).lines@[k])
                        &&& final(self).cursor_col == cc - 1
                        &&& final(self).cursor_line == cl
                        &&& final(self).is_modified == true
                    } else {
                        *final(self) == *old(self)
                    }
                } else if cl > 0 {
                    &&& final(self).lines@.len() == old(self).lines@.len() - 1
                    &&& final(self).lines@[cl - 1]@ == old(self).lines@[cl - 1]@ + old(self).lines@[cl]@
                    &&& (forall|k: int|
                        0 <= k < cl - 1 ==> final(self).lines@[k] == old(self).lines@[k])
                    &&& (forall|k: int|
                        cl - 1 < k < final(self).lines@.len() ==> final(self).lines@[k] == old(self).lines@[k + 1])
                    &&& final(self).cursor_line == cl - 1
                    &&& final(self).cursor_col == old(self).lines@[cl - 1]@.len()
                    &&& final(self).is_modified == true
                } else {
                    *final(self) == *old(self)
                }
            }),
            final(self).scroll_offset == old(self).scroll_offset,
            final(self).file_path == old(self).file_path,
            final(self).file_name == old(self).file_name,
            final(self).content == old(self).content,
            final(self).id == old(self).id,
    {
        if self.cursor_col > 0 {
            if self.cursor_line < self.lines.len() {
                let cl = self.cursor_line;
                let cc = self.cursor_col;
                if cc <= self.lines[cl].len() {
                    self.lines[cl].remove(cc - 1);
                    self.cursor_col = cc - 1;
                    self.is_modified = true;
                }
            }
        } else if self.cursor_line > 0 {
            let cl = self.cursor_line;
            let mut current = self.lines.remove(cl);
            self.cursor_line = cl - 1;
            self.cursor_col = self.lines[cl - 1].len();
            self.lines[cl - 1].append(&mut current);
            self.is_modified = true;
        }
    }

    /// Moves up one line, clamping the column to the new line's length.
    pub fn move_cursor_up(&mut self)
        ensures
            if old(self).cursor_line > 0 {
                &&& final(self).cursor_line == old(self).cursor_line - 1
                &&& final(self).cursor_col == (if final(self).cursor_line < old(self).lines@.len() {
                    vstd::math::min(
                        old(self).cursor_col as int,
                        old(self).lines@[final(self).cursor_line as int]@.len() as int,
                    )
                } else {
                    old(self).cursor_col as int
                })
                &&& final(self).lines == old(self).lines
                &&& final(self).scroll_offset == old(self).scroll_offset
                &&& final(self).is_modified == old(self).is_modified
                &&& final(self).file_path == old(self).file_path
                &&& final(self).file_name == old(self).file_name
                &&& final(self).content == old(self).content
                &&& final(self).id == old(self).id
            } else {
                *final(self) == *old(self)
            },
    {
        if self.cursor_line > 0 {
            self.cursor_line = self.cursor_line - 1;
            self.adjust_cursor_col();
        }
    }

    /// Moves down one line (never past the last), clamping the column.
    pub fn move_cursor_down(&mut self)
        ensures
            if old(self).cursor_line + 1 < old(self).lines@.len() {
                &&& final(self).cursor_line == old(self).cursor_line + 1
                &&& final(self).cursor_col == vstd::math::min(
                    old(self).cursor_col as int,
                    old(self).lines@[final(self).cursor_line as int]@.len() as int,
                )
                &&& final(self).lines == old(self).lines
                &&& final(self).scroll_offset == old(self).scroll_offset
                &&& final(self).is_modified == old(self).is_modified
                &&& final(self).file_path == old(self).file_path
                &&& final(self).file_name == old(self).file_name
                &&& final(self).content == old(self).content
                &&& final(self).id == old(self).id
            } else {
                *final(self) == *old(self)
            },
    {
        if self.lines.len() > 0 && self.cursor_line < self.lines.len() - 1 {
            self.cursor_line = self.cursor_line + 1;
            self.adjust_cursor_col();
        }
    }

    /// Moves left one character, or to the end of the previous line.
    pub fn move_cursor_left(&mut self)
        ensures
            final(self).lines == old(self).lines,
            final(self).scroll_offset == old(self).scroll_offset,
            final(self).is_modified == old(self).is_modified,
            final(self).file_path == old(self).file_path,
            final(self).file_name == old(self).file_name,
            final(self).content == old(self).content,
            final(self).id == old(self).id,
            if old(self).cursor_col > 0 {
                final(self).cursor_col == old(self).cursor_col - 1 && final(self).cursor_line
                    == old(self).cursor_line
            } else if old(self).cursor_line > 0 {
                final(self).cursor_line == old(self).cursor_line - 1 && final(self).cursor_col == (
                if old(self).cursor_line - 1 < old(self).lines@.len() {
                    old(self).lines@[old(self).cursor_line - 1]@.len() as int
                } else {
                    0
                })
            } else {
                final(self).cursor_line == old(self).cursor_line && final(self).cursor_col == old(self).cursor_col
            },
    {
        if self.cursor_col > 0 {
            self.cursor_col = self.cursor_col - 1;
        } else if self.cursor_line > 0 {
            self.cursor_line = self.cursor_line - 1;
            if self.cursor_line < self.lines.len() {
                self.cursor_col = self.lines[self.cursor_line].len();
            } else {
                self.cursor_col = 0;
            }
        }
    }

    /// Moves right one character, or to the start of the next line.
    pub fn move_cursor_right(&mut self)
        ensures
            final(self).lines == old(self).lines,
            final(self).scroll_offset == old(self).scroll_offset,
            final(self).is_modified == old(self).is_modified,
            final(self).file_path == old(self).file_path,
            final(self).file_name == old(self).file_name,
            final(self).content == old(self).content,
            final(self).id == old(self).id,
            ({
                let cl = old(self).cursor_line as int;
                if cl < old(self).lines@.len() {
                    if old(self).cursor_col < old(self).lines@[cl]@.len() {
                        final(self).cursor_col == old(self).cursor_col + 1 && final(self).cursor_line == old(self).cursor_line
                    } else if cl + 1 < old(self).lines@.len() {
                        final(self).cursor_line == old(self).cursor_line + 1 && final(self).cursor_col == 0
                    } else {
                        final(self).cursor_line == old(self).cursor_line && final(self).cursor_col
                            == old(self).cursor_col
                    }
                } else {
                    final(self).cursor_line == old(self).cursor_line && final(self).cursor_col
                        == old(self).cursor_col
                }
            }),
    {
        if self.cursor_line < self.lines.len() {
            let line_len = self.lines[self.cursor_line].len();
            if self.cursor_col < line_len {
                self.cursor_col = self.cursor_col + 1;
            } else if self.lines.len() > 0 && self.cursor_line < self.lines.len() - 1 {
                self.cursor_line = self.cursor_line + 1;
                self.cursor_col = 0;
            }
        }
    }

    /// Clamps the column to the current line's length.
    pub fn adjust_cursor_col(&mut self)
        ensures
            final(self).cursor_col == (if old(self).cursor_line < old(self).lines@.len() {
                vstd::math::min(
                    old(self).cursor_col as int,
                    old(self).lines@[old(self).cursor_line as int]@.len() as int,
                )
            } else {
                old(self).cursor_col as int
            }),
            final(self).cursor_line == old(self).cursor_line,
            final(self).lines == old(self).lines,
            final(self).scroll_offset == old(self).scroll_offset,
            final(self).is_modified == old(self).is_modified,
            final(self).file_path == old(self).file_path,
            final(self).file_name == old(self).file_name,
            final(self).content == old(self).content,
            final(self).id == old(self).id,
    {
        if self.cursor_line < self.lines.len() {
            let line_len = self.lines[self.cursor_line].len();
            if self.cursor_col > line_len {
                self.cursor_col = line_len;
            }
        }
    }

    /// Moves the scroll window so the cursor's line is visible within
    /// `visible_lines` rows.
    pub fn ensure_cursor_visible(&mut self, visible_lines: usize)
        requires
            visible_lines >= 1,
        ensures
            final(self).scroll_offset == (if old(self).cursor_line < old(self).scroll_offset {
                old(self).cursor_line as int
            } else if old(self).cursor_line >= old(self).scroll_offset + visible_lines {
                old(self).cursor_line - (visible_lines - 1)
            } else {
                old(self).scroll_offset as int
            }),
            final(self).cursor_line == old(self).cursor_line,
            final(self).cursor_col == old(self).cursor_col,
            final(self).lines == old(self).lines,
            final(self).is_modified == old(self).is_modified,
            final(self).file_path == old(self).file_path,
            final(self).file_name == old(self).file_name,
            final(self).content == old(self).content,
            final(self).id == old(self).id,
    {
        if self.cursor_line < self.scroll_offset {
            self.scroll_offset = self.cursor_line;
        } else if self.cursor_line - self.scroll_offset >= visible_lines {
            self.scroll_offset = self.cursor_line - (visible_lines - 1);
        }
    }

    /// Rejoins the lines into the buffer's text and marks it clean; hands
    /// back the path and the text for the caller to persist.  A buffer
    /// without a file path is left untouched.
    pub fn save(&mut self) -> (r: Option<(String, String)>)
        ensures
            match old(self).file_path {
                Some(p) => {
                    &&& r matches Some(t) && t.0 == p && t.1@ == spec_join_nl(
                        views_of(old(self).lines@),
                    )
                    &&& final(self).content@ == spec_join_nl(views_of(old(self).lines@))
                    &&& final(self).is_modified == false
                    &&& final(self).lines == old(self).lines
                    &&& final(self).file_path == old(self).file_path
                    &&& final(self).file_name == old(self).file_name
                    &&& final(self).cursor_line == old(self).cursor_line
                    &&& final(self).cursor_col == old(self).cursor_col
                    &&& final(self).scroll_offset == old(self).scroll_offset
                    &&& final(self).id == old(self).id
                },
                None => r is None && *final(self) == *old(self),
            },
    {
        match &self.file_path {
            Some(p) => {
                let path = p.clone();
                let content = string_from_chars(&join_nl(&self.lines));
                self.content = content.clone();
                self.is_modified = false;
                Some((path, content))
            },
            None => None,
        }
    }
}

/// Where the scroll window stands after the cursor was pulled back into
/// view within `visible` rows.
pub open spec fn spec_scroll_after(cursor_line: int, offset: int, visible: int) -> int {
    if cursor_line < offset {
        cursor_line
    } else if cursor_line >= offset + visible {
        cursor_line - (visible - 1)
    } else {
        offset
    }
}

/// What a tab strip needs to show of one tab.
#[derive(Debug, Clone)]
pub struct TabInfo {
    pub file_name: String,
    pub is_modified: bool,
}

/// Whether some tab holds the given path.
pub open spec fn spec_find_tab(tabs: Seq<EditorTab>, path: Seq<char>) -> Option<int>
    decreases tabs.len(),
{
    if tabs.len() == 0 {
        None
    } else if tabs[0].file_path matches Some(p) && p@ == path {
        Some(0)
    } else {
        match spec_find_tab(tabs.drop_first(), path) {
            Some(k) => Some(k + 1),
            None => None,
        }
    }
}

/// The position of the tab with the given identifier.
pub open spec fn spec_find_tab_by_id(tabs: Seq<EditorTab>, id: u32) -> Option<int>
    decreases tabs.len(),
{
    if tabs.len() == 0 {
        None
    } else if tabs[0].id == id {
        Some(0)
    } else {
        match spec_find_tab_by_id(tabs.drop_first(), id) {
            Some(k) => Some(k + 1),
            None => None,
        }
    }
}

/// The open tabs and the active one.
pub struct Editor {
    pub tabs: Vec<EditorTab>,
    pub active_tab: usize,
}

impl Editor {
    /// Well-formedness: with any tab open, the active index is in range.
    pub open spec fn wf(self) -> bool {
        self.tabs@.len() > 0 ==> self.active_tab < self.tabs@.len()
    }

    pub fn new() -> (r: Editor)
        ensures
            r.tabs@.len() == 0,
            r.active_tab == 0,
            r.wf(),
    {
        Editor { tabs: Vec::new(), active_tab: 0 }
    }

    pub fn has_open_files(&self) -> (r: bool)
        ensures
            r == (self.tabs@.len() > 0),
    {
        self.tabs.len() > 0
    }

    pub fn get_tab_count(&self) -> (r: usize)
        ensures
            r == self.tabs@.len(),
    {
        self.tabs.len()
    }

    /// Opens a fresh unnamed buffer and makes it active.
    pub fn new_file(&mut self)
        ensures
            final(self).tabs@.len() == old(self).tabs@.len() + 1,
            forall|k: int|
                0 <= k < old(self).tabs@.len() ==> final(self).tabs@[k] == old(self).tabs@[k],
            final(self).tabs@[old(self).tabs@.len() as int].wf(),
            final(self).tabs@[old(self).tabs@.len() as int].file_path is None,
            final(self).active_tab == old(self).tabs@.len(),
            final(self).wf(),
    {
        let new_tab = EditorTab::new();
        self.tabs.push(new_tab);
        self.active_tab = self.tabs.len() - 1;
    }

    /// Switches to the tab already holding `path`, or opens a new tab over
    /// the given text and makes it active.
    pub fn open_file(&mut self, path: String, file_name: String, content: String)
        ensures
            match spec_find_tab(old(self).tabs@, path@) {
                Some(k) => final(self).tabs@ == old(self).tabs@ && final(self).active_tab == k,
                None => {
                    let nt = final(self).tabs@[old(self).tabs@.len() as int];
                    &&& final(self).tabs@.len() == old(self).tabs@.len() + 1
                    &&& (forall|k: int|
                        0 <= k < old(self).tabs@.len() ==> final(self).tabs@[k] == old(self).tabs@[k])
                    &&& nt.file_path == Some(path)
                    &&& nt.file_name == file_name
                    &&& nt.content == content
                    &&& views_of(nt.lines@) == (if content@.len() == 0 {
                        seq![Seq::<char>::empty()]
                    } else {
                        spec_lines(content@)
                    })
                    &&& nt.cursor_line == 0
                    &&& nt.cursor_col == 0
                    &&& nt.scroll_offset == 0
                    &&& nt.is_modified == false
                    &&& nt.wf()
                    &&& final(self).active_tab == old(self).tabs@.len()
                },
            },
            final(self).wf(),
    {
        let ghost tabs0 = self.tabs@;
        let mut index: usize = 0;
        proof {
            assert(tabs0.skip(0) =~= tabs0);
        }
        while index < self.tabs.len()
            invariant
                index <= self.tabs@.len(),
                tabs0 == old(self).tabs@,
                self.tabs@ == tabs0,
                spec_find_tab(tabs0.skip(index as int), path@) == (match spec_find_tab(
                    tabs0,
                    path@,
                ) {
                    Some(k) => Some(k - index),
                    None => None::<int>,
                }),
            decreases self.tabs@.len() - index,
        {
            proof {
                assert(tabs0.skip(index as int)[0] == tabs0[index as int]);
                assert(tabs0.skip(index as int).drop_first() =~= tabs0.skip(index + 1));
            }
            let matches_path = match &self.tabs[index].file_path {
                Some(p) => *p == path,
                None => false,
            };
            if matches_path {
                self.active_tab = index;
                proof {
                    assert(spec_find_tab(tabs0.skip(index as int), path@) == Some(0int));
                }
                return;
            }
            proof {
                assert(spec_find_tab(tabs0.skip(index as int), path@) == (
                match spec_find_tab(tabs0.skip(index + 1), path@) {
                    Some(m) => Some(m + 1),
                    None => None::<int>,
                }));
            }
            index += 1;
        }
        proof {
            assert(tabs0.skip(index as int) =~= Seq::<EditorTab>::empty());
        }
        let new_tab = EditorTab::from_content(path, file_name, content);
        self.tabs.push(new_tab);
        self.active_tab = self.tabs.len() - 1;
    }

    /// Closes the active tab; the active index is pulled back into range.
    pub fn close_current_file(&mut self)
        requires
            old(self).wf(),
        ensures
            if old(self).tabs@.len() > 0 {
                &&& final(self).tabs@ == old(self).tabs@.remove(old(self).active_tab as int)
                &&& final(self).active_tab == (if old(self).active_tab >= final(self).tabs@.len()
                    && final(self).tabs@.len() > 0 {
                    final(self).tabs@.len() - 1
                } else {
                    old(self).active_tab as int
                })
            } else {
                *final(self) == *old(self)
            },
            final(self).wf(),
    {
        if self.tabs.len() > 0 {
            let at = self.active_tab;
            self.tabs.remove(at);
            if self.active_tab >= self.tabs.len() && self.tabs.len() > 0 {
                self.active_tab = self.tabs.len() - 1;
            }
        }
    }

    /// Closes the tab with the given identifier, if any, keeping the
    /// active tab's position sensible.
    pub fn close_tab_by_id(&mut self, tab_id: u32)
        requires
            old(self).wf(),
        ensures
            match spec_find_tab_by_id(old(self).tabs@, tab_id) {
                Some(index) => {
                    &&& final(self).tabs@ == old(self).tabs@.remove(index)
                    &&& final(self).active_tab == (if old(self).active_tab >= final(self).tabs@.len() && final(self).tabs@.len() > 0 {
                        final(self).tabs@.len() - 1
                    } else if index <= old(self).active_tab && old(self).active_tab > 0 {
                        old(self).active_tab - 1
                    } else {
                        old(self).active_tab as int
                    })
                },
                None => *final(self) == *old(self),
            },
            final(self).wf(),
    {
        match self.find_index_by_id(tab_id) {
            Some(index) => {
                self.tabs.remove(index);
                if self.active_tab >= self.tabs.len() && self.tabs.len() > 0 {
                    self.active_tab = self.tabs.len() - 1;
                } else if index <= self.active_tab && self.active_tab > 0 {
                    self.active_tab = self.active_tab - 1;
                }
            },
            None => {},
        }
    }

    /// Closes the tab at `index`, if it exists, keeping the active tab's
    /// position sensible.
    pub fn close_tab_by_index(&mut self, index: usize)
        requires
            old(self).wf(),
        ensures
            if index < old(self).tabs@.len() {
                &&& final(self).tabs@ == old(self).tabs@.remove(index as int)
                &&& final(self).active_tab == (if old(self).active_tab >= final(self).tabs@.len()
                    && final(self).tabs@.len() > 0 {
                    final(self).tabs@.len() - 1
                } else if index <= old(self).active_tab && old(self).active_tab > 0 {
                    old(self).active_tab - 1
                } else {
                    old(self).active_tab as int
                })
            } else {
                *final(self) == *old(self)
            },
            final(self).wf(),
    {
        if index < self.tabs.len() {
            self.tabs.remove(index);
            if self.active_tab >= self.tabs.len() && self.tabs.len() > 0 {
                self.active_tab = self.tabs.len() - 1;
            } else if index <= self.active_tab && self.active_tab > 0 {
                self.active_tab = self.active_tab - 1;
            }
        }
    }

    /// Moves the tab at `from_index` to `to_index`, following the active
    /// tab if it was moved and shifting it if it lay between the two.
    pub fn reorder_tabs(&mut self, from_index: usize, to_index: usize)
        ensures
            if from_index < old(self).tabs@.len() && to_index < old(self).tabs@.len() && from_index
                != to_index {
                &&& final(self).tabs@ == old(self).tabs@.remove(from_index as int).insert(
                    to_index as int,
                    old(self).tabs@[from_index as int],
                )
                &&& final(self).active_tab == (if old(self).active_tab == from_index {
                    to_index as int
                } else if from_index < to_index && old(self).active_tab > from_index && old(self).active_tab <= to_index {
                    old(self).active_tab - 1
                } else if from_index > to_index && old(self).active_tab >= to_index && old(self).active_tab < from_index {
                    old(self).active_tab + 1
                } else {
                    old(self).active_tab as int
                })
            } else {
                *final(self) == *old(self)
            },
    {
        if from_index < self.tabs.len() && to_index < self.tabs.len() && from_index != to_index {
            let tab = self.tabs.remove(from_index);
            self.tabs.insert(to_index, tab);
            if self.active_tab == from_index {
                self.active_tab = to_index;
            } else if from_index < to_index && self.active_tab > from_index && self.active_tab
                <= to_index {
                self.active_tab = self.active_tab - 1;
            } else if from_index > to_index && self.active_tab >= to_index && self.active_tab
                < from_index {
                self.active_tab = self.active_tab + 1;
            }
        }
    }

    pub fn get_tab_id_at_index(&self, index: usize) -> (r: Option<u32>)
        ensures
            match r {
                Some(id) => index < self.tabs@.len() && id == self.tabs@[index as int].id,
                None => index >= self.tabs@.len(),
            },
    {
        if index < self.tabs.len() {
            Some(self.tabs[index].id)
        } else {
            None
        }
    }

    /// The position of the tab with the given identifier
    /// (`spec_find_tab_by_id`), exactly.
    pub fn get_tab_index_by_id(&self, tab_id: u32) -> (r: Option<usize>)
        ensures
            match r {
                Some(k) => spec_find_tab_by_id(self.tabs@, tab_id) == Some(k as int),
                None => spec_find_tab_by_id(self.tabs@, tab_id) is None,
            },
    {
        self.find_index_by_id(tab_id)
    }

    fn find_index_by_id(&self, tab_id: u32) -> (r: Option<usize>)
        ensures
            match r {
                Some(k) => spec_find_tab_by_id(self.tabs@, tab_id) == Some(k as int) && k
                    < self.tabs@.len(),
                None => spec_find_tab_by_id(self.tabs@, tab_id) is None,
            },
    {
        let ghost tabs0 = self.tabs@;
        let mut index: usize = 0;
        proof {
            assert(tabs0.skip(0) =~= tabs0);
        }
        loop
            invariant
                index <= tabs0.len(),
                self.tabs@ == tabs0,
                spec_find_tab_by_id(tabs0.skip(index as int), tab_id) == (match spec_find_tab_by_id(
                    tabs0,
                    tab_id,
                ) {
                    Some(k) => Some(k - index),
                    None => None::<int>,
                }),
            decreases tabs0.len() - index,
        {
            if index >= self.tabs.len() {
                proof {
                    assert(tabs0.skip(index as int) =~= Seq::<EditorTab>::empty());
                }
                return None;
            }
            proof {
                assert(tabs0.skip(index as int)[0] == tabs0[index as int]);
                assert(tabs0.skip(index as int).drop_first() =~= tabs0.skip(index + 1));
            }
            if self.tabs[index].id == tab_id {
                return Some(index);
            }
            index += 1;
        }
    }

    /// Cycles forward through the tabs.
    pub fn switch_to_next_tab(&mut self)
        requires
            old(self).wf(),
        ensures
            final(self).tabs == old(self).tabs,
            if old(self).tabs@.len() > 0 {
                final(self).active_tab == (old(self).active_tab + 1) % old(self).tabs@.len() as int
            } else {
                final(self).active_tab == old(self).active_tab
            },
            final(self).wf(),
    {
        if self.tabs.len() > 0 {
            self.active_tab = (self.active_tab + 1) % self.tabs.len();
        }
    }

    /// Cycles backward through the tabs.
    pub fn switch_to_previous_tab(&mut self)
        requires
            old(self).wf(),
        ensures
            final(self).tabs == old(self).tabs,
            if old(self).tabs@.len() > 0 {
                final(self).active_tab == (if old(self).active_tab == 0 {
                    old(self).tabs@.len() - 1
                } else {
                    old(self).active_tab - 1
                })
            } else {
                final(self).active_tab == old(self).active_tab
            },
            final(self).wf(),
    {
        if self.tabs.len() > 0 {
            if self.active_tab == 0 {
                self.active_tab = self.tabs.len() - 1;
            } else {
                self.active_tab = self.active_tab - 1;
            }
        }
    }

    /// Switches to the tab at `index`, if it exists.
    pub fn switch_to_tab(&mut self, index: usize)
        ensures
            final(self).tabs == old(self).tabs,
            final(self).active_tab == (if index < old(self).tabs@.len() {
                index as int
            } else {
                old(self).active_tab as int
            }),
    {
        if index < self.tabs.len() {
            self.active_tab = index;
        }
    }

    /// Saves the active tab (`EditorTab::save`): hands back the path and
    /// text to persist, if the tab has a file path.
    pub fn save_current_file(&mut self) -> (r: Option<(String, String)>)
        ensures
            if old(self).active_tab < old(self).tabs@.len() {
                ({
                    let tab = old(self).tabs@[old(self).active_tab as int];
                    &&& final(self).tabs@.len() == old(self).tabs@.len()
                    &&& (forall|k: int|
                        0 <= k < old(self).tabs@.len() && k != old(self).active_tab ==> final(self).tabs@[k] == old(self).tabs@[k])
                    &&& match tab.file_path {
                        Some(p) => r matches Some(t) && t.0 == p && t.1@ == spec_join_nl(
                            views_of(tab.lines@),
                        ) && final(self).tabs@[old(self).active_tab as int].is_modified == false,
                        None => r is None && final(self).tabs@[old(self).active_tab as int] == tab,
                    }
                })
            } else {
                r is None && *final(self) == *old(self)
            },
            final(self).active_tab == old(self).active_tab,
    {
        if self.active_tab < self.tabs.len() {
            let at = self.active_tab;
            let r = self.tabs[at].save();
            r
        } else {
            None
        }
    }

    pub fn get_current_tab(&self) -> (r: Option<&EditorTab>)
        ensures
            match r {
                Some(t) => self.active_tab < self.tabs@.len() && *t == self.tabs@[self.active_tab as int],
                None => self.active_tab >= self.tabs@.len(),
            },
    {
        if self.active_tab < self.tabs.len() {
            Some(&self.tabs[self.active_tab])
        } else {
            None
        }
    }

    /// Inserts a character into the active tab and keeps the cursor
    /// visible.
    pub fn insert_char(&mut self, c: char)
        requires
            old(self).active_tab < old(self).tabs@.len() ==> old(self).tabs@[old(self).active_tab as int].cursor_col < usize::MAX,
        ensures
            final(self).active_tab == old(self).active_tab,
            final(self).tabs@.len() == old(self).tabs@.len(),
            forall|k: int|
                0 <= k < old(self).tabs@.len() && k != old(self).active_tab ==> final(self).tabs@[k] == old(self).tabs@[k],
            old(self).active_tab < old(self).tabs@.len() ==> ({
                let tab = old(self).tabs@[old(self).active_tab as int];
                let nt = final(self).tabs@[old(self).active_tab as int];
                let cl = tab.cursor_line as int;
                if tab.cursor_line < tab.lines@.len() && tab.cursor_col <= tab.lines@[cl]@.len() {
                    &&& nt.lines@.len() == tab.lines@.len()
                    &&& nt.lines@[cl]@ == tab.lines@[cl]@.insert(tab.cursor_col as int, c)
                    &&& (forall|m: int|
                        0 <= m < nt.lines@.len() && m != cl ==> nt.lines@[m] == tab.lines@[m])
                    &&& nt.cursor_col == tab.cursor_col + 1
                    &&& nt.cursor_line == tab.cursor_line
                    &&& nt.is_modified == true
                } else {
                    nt.lines == tab.lines && nt.cursor_line == tab.cursor_line && nt.cursor_col
                        == tab.cursor_col && nt.is_modified == tab.is_modified
                }
            }),
            old(self).active_tab < old(self).tabs@.len() ==> ({
                let tab = old(self).tabs@[old(self).active_tab as int];
                let nt = final(self).tabs@[old(self).active_tab as int];
                &&& nt.scroll_offset == spec_scroll_after(
                    nt.cursor_line as int,
                    tab.scroll_offset as int,
                    20,
                )
                &&& nt.file_path == tab.file_path
                &&& nt.file_name == tab.file_name
                &&& nt.content == tab.content
                &&& nt.id == tab.id
            }),
    {
        if self.active_tab < self.tabs.len() {
            let at = self.active_tab;
            self.tabs[at].insert_char(c);
            self.tabs[at].ensure_cursor_visible(20);
        }
    }

    /// Splits the active tab's line at the cursor and keeps the cursor
    /// visible.
    pub fn insert_newline(&mut self)
        requires
            old(self).active_tab < old(self).tabs@.len() ==> ({
                let tab = old(self).tabs@[old(self).active_tab as int];
                tab.cursor_line < tab.lines@.len() ==> tab.cursor_col <= tab.lines@[tab.cursor_line as int]@.len()
            }),
        ensures
            final(self).active_tab == old(self).active_tab,
            final(self).tabs@.len() == old(self).tabs@.len(),
            forall|k: int|
                0 <= k < old(self).tabs@.len() && k != old(self).active_tab ==> final(self).tabs@[k] == old(self).tabs@[k],
            old(self).active_tab < old(self).tabs@.len() ==> ({
                let tab = old(self).tabs@[old(self).active_tab as int];
                let nt = final(self).tabs@[old(self).active_tab as int];
                let cl = tab.cursor_line as int;
                if tab.cursor_line < tab.lines@.len() {
                    &&& nt.lines@.len() == tab.lines@.len() + 1
                    &&& nt.lines@[cl]@ == tab.lines@[cl]@.take(tab.cursor_col as int)
                    &&& nt.lines@[cl + 1]@ == tab.lines@[cl]@.skip(tab.cursor_col as int)
                    &&& (forall|m: int| 0 <= m < cl ==> nt.lines@[m] == tab.lines@[m])
                    &&& (forall|m: int|
                        cl + 1 < m < nt.lines@.len() ==> nt.lines@[m] == tab.lines@[m - 1])
                    &&& nt.cursor_line == tab.cursor_line + 1
                    &&& nt.cursor_col == 0
                    &&& nt.is_modified == true
                } else {
                    nt.lines == tab.lines && nt.cursor_line == tab.cursor_line && nt.cursor_col
                        == tab.cursor_col && nt.is_modified == tab.is_modified
                }
            }),
            old(self).active_tab < old(self).tabs@.len() ==> ({
                let tab = old(self).tabs@[old(self).active_tab as int];
                let nt = final(self).tabs@[old(self).active_tab as int];
                &&& nt.scroll_offset == spec_scroll_after(
                    nt.cursor_line as int,
                    tab.scroll_offset as int,
                    20,
                )
                &&& nt.file_path == tab.file_path
                &&& nt.file_name == tab.file_name
                &&& nt.content == tab.content
                &&& nt.id == tab.id
            }),
    {
        if self.active_tab < self.tabs.len() {
            let at = self.active_tab;
            self.tabs[at].insert_newline();
            self.tabs[at].ensure_cursor_visible(20);
        }
    }

    /// Deletes backwards in the active tab and keeps the cursor visible.
    pub fn backspace(&mut self)
        requires
            old(self).active_tab < old(self).tabs@.len() ==> ({
                let tab = old(self).tabs@[old(self).active_tab as int];
                tab.cursor_col == 0 && tab.cursor_line > 0 ==> tab.cursor_line < tab.lines@.len()
            }),
        ensures
            final(self).active_tab == old(self).active_tab,
            final(self).tabs@.len() == old(self).tabs@.len(),
            forall|k: int|
                0 <= k < old(self).tabs@.len() && k != old(self).active_tab ==> final(self).tabs@[k] == old(self).tabs@[k],
            old(self).active_tab < old(self).tabs@.len() ==> ({
                let tab = old(self).tabs@[old(self).active_tab as int];
                let nt = final(self).tabs@[old(self).active_tab as int];
                let cl = tab.cursor_line as int;
                let cc = tab.cursor_col as int;
                if cc > 0 {
                    if cl < tab.lines@.len() && cc <= tab.lines@[cl]@.len() {
                        &&& nt.lines@.len() == tab.lines@.len()
                        &&& nt.lines@[cl]@ == tab.lines@[cl]@.remove(cc - 1)
                        &&& (forall|m: int|
                            0 <= m < nt.lines@.len() && m != cl ==> nt.lines@[m] == tab.lines@[m])
                        &&& nt.cursor_col == cc - 1
                        &&& nt.cursor_line == cl
                        &&& nt.is_modified == true
                    } else {
                        nt.lines == tab.lines && nt.cursor_line == tab.cursor_line && nt.cursor_col
                            == tab.cursor_col && nt.is_modified == tab.is_modified
                    }
                } else if cl > 0 {
                    &&& nt.lines@.len() == tab.lines@.len() - 1
                    &&& nt.lines@[cl - 1]@ == tab.lines@[cl - 1]@ + tab.lines@[cl]@
                    &&& (forall|m: int| 0 <= m < cl - 1 ==> nt.lines@[m] == tab.lines@[m])
                    &&& (forall|m: int|
                        cl - 1 < m < nt.lines@.len() ==> nt.lines@[m] == tab.lines@[m + 1])
                    &&& nt.cursor_line == cl - 1
                    &&& nt.cursor_col == tab.lines@[cl - 1]@.len()
                    &&& nt.is_modified == true
                } else {
                    nt.lines == tab.lines && nt.cursor_line == tab.cursor_line && nt.cursor_col
                        == tab.cursor_col && nt.is_modified == tab.is_modified
                }
            }),
            old(self).active_tab < old(self).tabs@.len() ==> ({
                let tab = old(self).tabs@[old(self).active_tab as int];
                let nt = final(self).tabs@[old(self).active_tab as int];
                &&& nt.scroll_offset == spec_scroll_after(
                    nt.cursor_line as int,
                    tab.scroll_offset as int,
                    20,
                )
                &&& nt.file_path == tab.file_path
                &&& nt.file_name == tab.file_name
                &&& nt.content == tab.content
                &&& nt.id == tab.id
            }),
    {
        if self.active_tab < self.tabs.len() {
            let at = self.active_tab;
            self.tabs[at].backspace();
            self.tabs[at].ensure_cursor_visible(20);
        }
    }

    /// Moves the active tab's cursor up and keeps it visible.
    pub fn move_cursor_up(&mut self)
        ensures
            final(self).active_tab == old(self).active_tab,
            final(self).tabs@.len() == old(self).tabs@.len(),
            forall|k: int|
                0 <= k < old(self).tabs@.len() && k != old(self).active_tab ==> final(self).tabs@[k] == old(self).tabs@[k],
            old(self).active_tab < old(self).tabs@.len() ==> ({
                let tab = old(self).tabs@[old(self).active_tab as int];
                let nt = final(self).tabs@[old(self).active_tab as int];
                &&& nt.lines == tab.lines
                &&& nt.is_modified == tab.is_modified
                &&& (if tab.cursor_line > 0 {
                    nt.cursor_line == tab.cursor_line - 1 && nt.cursor_col == (if nt.cursor_line
                        < tab.lines@.len() {
                        vstd::math::min(
                            tab.cursor_col as int,
                            tab.lines@[nt.cursor_line as int]@.len() as int,
                        )
                    } else {
                        tab.cursor_col as int
                    })
                } else {
                    nt.cursor_line == tab.cursor_line && nt.cursor_col == tab.cursor_col
                })
            }),
            old(self).active_tab < old(self).tabs@.len() ==> ({
                let tab = old(self).tabs@[old(self).active_tab as int];
                let nt = final(self).tabs@[old(self).active_tab as int];
                &&& nt.scroll_offset == spec_scroll_after(
                    nt.cursor_line as int,
                    tab.scroll_offset as int,
                    20,
                )
                &&& nt.file_path == tab.file_path
                &&& nt.file_name == tab.file_name
                &&& nt.content == tab.content
                &&& nt.id == tab.id
            }),
    {
        if self.active_tab < self.tabs.len() {
            let at = self.active_tab;
            self.tabs[at].move_cursor_up();
            self.tabs[at].ensure_cursor_visible(20);
        }
    }

    /// Moves the active tab's cursor down and keeps it visible.
    pub fn move_cursor_down(&mut self)
        ensures
            final(self).active_tab == old(self).active_tab,
            final(self).tabs@.len() == old(self).tabs@.len(),
            forall|k: int|
                0 <= k < old(self).tabs@.len() && k != old(self).active_tab ==> final(self).tabs@[k] == old(self).tabs@[k],
            old(self).active_tab < old(self).tabs@.len() ==> ({
                let tab = old(self).tabs@[old(self).active_tab as int];
                let nt = final(self).tabs@[old(self).active_tab as int];
                &&& nt.lines == tab.lines
                &&& nt.is_modified == tab.is_modified
                &&& (if tab.cursor_line + 1 < tab.lines@.len() {
                    nt.cursor_line == tab.cursor_line + 1 && nt.cursor_col == vstd::math::min(
                        tab.cursor_col as int,
                        tab.lines@[nt.cursor_line as int]@.len() as int,
                    )
                } else {
                    nt.cursor_line == tab.cursor_line && nt.cursor_col == tab.cursor_col
                })
            }),
            old(self).active_tab < old(self).tabs@.len() ==> ({
                let tab = old(self).tabs@[old(self).active_tab as int];
                let nt = final(self).tabs@[old(self).active_tab as int];
                &&& nt.scroll_offset == spec_scroll_after(
                    nt.cursor_line as int,
                    tab.scroll_offset as int,
                    20,
                )
                &&& nt.file_path == tab.file_path
                &&& nt.file_name == tab.file_name
                &&& nt.content == tab.content
                &&& nt.id == tab.id
            }),
    {
        if self.active_tab < self.tabs.len() {
            let at = self.active_tab;
            self.tabs[at].move_cursor_down();
            self.tabs[at].ensure_cursor_visible(20);
        }
    }

    /// Moves the active tab's cursor left and keeps it visible.
    pub fn move_cursor_left(&mut self)
        ensures
            final(self).active_tab == old(self).active_tab,
            final(self).tabs@.len() == old(self).tabs@.len(),
            forall|k: int|
                0 <= k < old(self).tabs@.len() && k != old(self).active_tab ==> final(self).tabs@[k] == old(self).tabs@[k],
            old(self).active_tab < old(self).tabs@.len() ==> ({
                let tab = old(self).tabs@[old(self).active_tab as int];
                let nt = final(self).tabs@[old(self).active_tab as int];
                &&& nt.lines == tab.lines
                &&& nt.is_modified == tab.is_modified
                &&& (if tab.cursor_col > 0 {
                    nt.cursor_col == tab.cursor_col - 1 && nt.cursor_line == tab.cursor_line
                } else if tab.cursor_line > 0 {
                    nt.cursor_line == tab.cursor_line - 1 && nt.cursor_col == (if tab.cursor_line
                        - 1 < tab.lines@.len() {
                        tab.lines@[tab.cursor_line - 1]@.len() as int
                    } else {
                        0
                    })
                } else {
                    nt.cursor_line == tab.cursor_line && nt.cursor_col == tab.cursor_col
                })
            }),
            old(self).active_tab < old(self).tabs@.len() ==> ({
                let tab = old(self).tabs@[old(self).active_tab as int];
                let nt = final(self).tabs@[old(self).active_tab as int];
                &&& nt.scroll_offset == spec_scroll_after(
                    nt.cursor_line as int,
                    tab.scroll_offset as int,
                    20,
                )
                &&& nt.file_path == tab.file_path
                &&& nt.file_name == tab.file_name
                &&& nt.content == tab.content
                &&& nt.id == tab.id
            }),
    {
        if self.active_tab < self.tabs.len() {
            let at = self.active_tab;
            self.tabs[at].move_cursor_left();
            self.tabs[at].ensure_cursor_visible(20);
        }
    }

    /// Moves the active tab's cursor right and keeps it visible.
    pub fn move_cursor_right(&mut self)
        ensures
            final(self).active_tab == old(self).active_tab,
            final(self).tabs@.len() == old(self).tabs@.len(),
            forall|k: int|
                0 <= k < old(self).tabs@.len() && k != old(self).active_tab ==> final(self).tabs@[k] == old(self).tabs@[k],
            old(self).active_tab < old(self).tabs@.len() ==> ({
                let tab = old(self).tabs@[old(self).active_tab as int];
                let nt = final(self).tabs@[old(self).active_tab as int];
                let cl = tab.cursor_line as int;
                &&& nt.lines == tab.lines
                &&& nt.is_modified == tab.is_modified
                &&& (if cl < tab.lines@.len() {
                    if tab.cursor_col < tab.lines@[cl]@.len() {
                        nt.cursor_col == tab.cursor_col + 1 && nt.cursor_line == tab.cursor_line
                    } else if cl + 1 < tab.lines@.len() {
                        nt.cursor_line == tab.cursor_line + 1 && nt.cursor_col == 0
                    } else {
                        nt.cursor_line == tab.cursor_line && nt.cursor_col == tab.cursor_col
                    }
                } else {
                    nt.cursor_line == tab.cursor_line && nt.cursor_col == tab.cursor_col
                })
            }),
            old(self).active_tab < old(self).tabs@.len() ==> ({
                let tab = old(self).tabs@[old(self).active_tab as int];
                let nt = final(self).tabs@[old(self).active_tab as int];
                &&& nt.scroll_offset == spec_scroll_after(
                    nt.cursor_line as int,
                    tab.scroll_offset as int,
                    20,
                )
                &&& nt.file_path == tab.file_path
                &&& nt.file_name == tab.file_name
                &&& nt.content == tab.content
                &&& nt.id == tab.id
            }),
    {
        if self.active_tab < self.tabs.len() {
            let at = self.active_tab;
            self.tabs[at].move_cursor_right();
            self.tabs[at].ensure_cursor_visible(20);
        }
    }

    /// One `TabInfo` per tab, in order.
    pub fn get_tab_info(&self) -> (r: Vec<TabInfo>)
        ensures
            r@.len() == self.tabs@.len(),
            forall|k: int|
                0 <= k < r@.len() ==> (#[trigger] r@[k]).file_name == self.tabs@[k].file_name
                    && r@[k].is_modified == self.tabs@[k].is_modified,
    {
        let mut r: Vec<TabInfo> = Vec::new();
        let mut i: usize = 0;
        while i < self.tabs.len()
            invariant
                i <= self.tabs@.len(),
                r@.len() == i,
                forall|k: int|
                    0 <= k < i ==> (#[trigger] r@[k]).file_name == self.tabs@[k].file_name
                        && r@[k].is_modified == self.tabs@[k].is_modified,
            decreases self.tabs@.len() - i,
        {
            r.push(
                TabInfo {
                    file_name: self.tabs[i].file_name.clone(),
                    is_modified: self.tabs[i].is_modified,
                },
            );
            i += 1;
        }
        r
    }

    pub fn get_active_tab_index(&self) -> (r: usize)
        ensures
            r == self.active_tab,
    {
        self.active_tab
    }

    pub fn get_current_file_info(&self) -> (r: Option<String>)
        ensures
            match r {
                Some(name) => self.active_tab < self.tabs@.len() && name
                    == self.tabs@[self.active_tab as int].file_name,
                None => self.active_tab >= self.tabs@.len(),
            },
    {
        if self.active_tab < self.tabs.len() {
            Some(self.tabs[self.active_tab].file_name.clone())
        } else {
            None
        }
    }

    /// The cursor as one-based (line, column), or (0, 0) with no open tab.
    pub fn get_cursor_position(&self) -> (r: (usize, usize))
        requires
            self.active_tab < self.tabs@.len() ==> ({
                let tab = self.tabs@[self.active_tab as int];
                tab.cursor_line < usize::MAX && tab.cursor_col < usize::MAX
            }),
        ensures
            if self.active_tab < self.tabs@.len() {
                r.0 == self.tabs@[self.active_tab as int].cursor_line + 1 && r.1
                    == self.tabs@[self.active_tab as int].cursor_col + 1
            } else {
                r.0 == 0 && r.1 == 0
            },
    {
        if self.active_tab < self.tabs.len() {
            let tab = &self.tabs[self.active_tab];
            (tab.cursor_line + 1, tab.cursor_col + 1)
        } else {
            (0, 0)
        }
    }

    pub fn is_current_file_modified(&self) -> (r: bool)
        ensures
            r == (self.active_tab < self.tabs@.len()
                && self.tabs@[self.active_tab as int].is_modified),
    {
        if self.active_tab < self.tabs.len() {
            self.tabs[self.active_tab].is_modified
        } else {
            false
        }
    }

    /// Scrolls the active tab up one line, never past the top.
    pub fn scroll_up(&mut self)
        ensures
            scrolled_up(*old(self), *final(self)),
    {
        if self.active_tab < self.tabs.len() {
            let at = self.active_tab;
            if self.tabs[at].scroll_offset > 0 {
                let so = self.tabs[at].scroll_offset;
                self.tabs[at].scroll_offset = so - 1;
            }
        }
    }

    /// Scrolls the active tab down one line, within a fixed fifteen-line
    /// window estimate.
    pub fn scroll_down(&mut self)
        ensures
            scrolled_down(*old(self), *final(self), 15),
    {
        self.scroll_down_by_visible(15);
    }

    /// Scrolls up one line (the window height does not matter going up).
    pub fn scroll_up_by_visible(&mut self, visible_lines: usize)
        ensures
            scrolled_up(*old(self), *final(self)),
    {
        self.scroll_up();
    }

    /// Scrolls down one line, not past the last windowful of lines.
    pub fn scroll_down_by_visible(&mut self, visible_lines: usize)
        ensures
            scrolled_down(*old(self), *final(self), visible_lines as int),
    {
        if self.active_tab < self.tabs.len() {
            let at = self.active_tab;
            if self.tabs[at].lines.len() > visible_lines {
                let max_scroll = self.tabs[at].lines.len() - visible_lines;
                if self.tabs[at].scroll_offset < max_scroll {
                    let so = self.tabs[at].scroll_offset;
                    self.tabs[at].scroll_offset = so + 1;
                }
            }
        }
    }
}

/// One scroll step up: only the active tab's offset changes, by one, never
/// below zero.
pub open spec fn scrolled_up(pre: Editor, post: Editor) -> bool {
    &&& post.active_tab == pre.active_tab
    &&& post.tabs@.len() == pre.tabs@.len()
    &&& (forall|k: int|
        0 <= k < pre.tabs@.len() && k != pre.active_tab ==> post.tabs@[k] == pre.tabs@[k])
    &&& (pre.active_tab < pre.tabs@.len() ==> ({
        let tab = pre.tabs@[pre.active_tab as int];
        let new_tab = post.tabs@[pre.active_tab as int];
        &&& new_tab.scroll_offset == (if tab.scroll_offset > 0 {
            tab.scroll_offset - 1
        } else {
            0
        })
        &&& new_tab.lines == tab.lines
        &&& new_tab.cursor_line == tab.cursor_line
        &&& new_tab.cursor_col == tab.cursor_col
        &&& new_tab.is_modified == tab.is_modified
        &&& new_tab.file_path == tab.file_path
        &&& new_tab.file_name == tab.file_name
        &&& new_tab.content == tab.content
        &&& new_tab.id == tab.id
    }))
    &&& (pre.active_tab >= pre.tabs@.len() ==> post.tabs@ == pre.tabs@)
}

/// One scroll step down within a window of `visible` lines: the offset
/// grows by one only while a windowful of lines remains below it.
pub open spec fn scrolled_down(pre: Editor, post: Editor, visible: int) -> bool {
    &&& post.active_tab == pre.active_tab
    &&& post.tabs@.len() == pre.tabs@.len()
    &&& (forall|k: int|
        0 <= k < pre.tabs@.len() && k != pre.active_tab ==> post.tabs@[k] == pre.tabs@[k])
    &&& (pre.active_tab < pre.tabs@.len() ==> ({
        let tab = pre.tabs@[pre.active_tab as int];
        let new_tab = post.tabs@[pre.active_tab as int];
        &&& new_tab.scroll_offset == (if tab.lines@.len() > visible && tab.scroll_offset
            < tab.lines@.len() - visible {
            tab.scroll_offset + 1
        } else {
            tab.scroll_offset as int
        })
        &&& new_tab.lines == tab.lines
        &&& new_tab.cursor_line == tab.cursor_line
        &&& new_tab.cursor_col == tab.cursor_col
        &&& new_tab.is_modified == tab.is_modified
        &&& new_tab.file_path == tab.file_path
        &&& new_tab.file_name == tab.file_name
        &&& new_tab.content == tab.content
        &&& new_tab.id == tab.id
    }))
    &&& (pre.active_tab >= pre.tabs@.len() ==> post.tabs@ == pre.tabs@)
}

} // verus!
