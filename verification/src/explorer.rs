//! The file-tree model shown in the sidebar: a node per path, directories
//! expandable, and the flattened list of visible nodes.  Reading the real
//! directory tree happens outside the verified library; the tree's nodes
//! are built from plain values.

use vstd::prelude::*;
use vstd::string::*;
use crate::layout::{get_file_icon, spec_file_icon};

verus! {

/// One node of the file tree.
pub struct FileNode {
    pub path: String,
    pub name: String,
    pub is_dir: bool,
    pub is_expanded: bool,
    pub depth: usize,
    pub children: Vec<FileNode>,
}

/// Two spaces per depth level.
pub open spec fn spec_indent(depth: int) -> Seq<char>
    decreases depth,
{
    if depth <= 0 {
        Seq::empty()
    } else {
        spec_indent(depth - 1) + "  "@
    }
}

/// The display line of one node: indentation, an expansion marker and a
/// folder or file icon, then the name.
pub open spec fn spec_display_name(n: FileNode) -> Seq<char> {
    if n.is_dir {
        spec_indent(n.depth as int) + (if n.is_expanded {
            "\u{25BC} \u{1F4C2} "@
        } else {
            "\u{25B6} \u{1F4C1} "@
        }) + n.name@
    } else {
        spec_indent(n.depth as int) + "  "@ + spec_file_icon(n.name@) + " "@ + n.name@
    }
}

/// The visible nodes under `n` in display order: the node itself, then —
/// for an expanded directory — every child's visible nodes in turn.
pub open spec fn spec_flat(n: FileNode) -> Seq<FileNode>
    decreases n, 0int,
{
    seq![n] + if n.is_dir && n.is_expanded {
        spec_flat_from(n.children@, 0)
    } else {
        Seq::empty()
    }
}

pub open spec fn spec_flat_from(cs: Seq<FileNode>, i: int) -> Seq<FileNode>
    decreases cs, cs.len() - i,
{
    if i < 0 || i >= cs.len() {
        Seq::empty()
    } else {
        spec_flat(cs[i]) + spec_flat_from(cs, i + 1)
    }
}

/// The first visible node whose path is `target`, in display order.
pub open spec fn spec_find_by_path(n: FileNode, target: Seq<char>) -> Option<FileNode>
    decreases n, 0int,
{
    if n.path@ == target {
        Some(n)
    } else if n.is_dir && n.is_expanded {
        spec_find_from(n.children@, 0, target)
    } else {
        None
    }
}

pub open spec fn spec_find_from(cs: Seq<FileNode>, i: int, target: Seq<char>) -> Option<FileNode>
    decreases cs, cs.len() - i,
{
    if i < 0 || i >= cs.len() {
        None
    } else {
        match spec_find_by_path(cs[i], target) {
            Some(f) => Some(f),
            None => spec_find_from(cs, i + 1, target),
        }
    }
}

impl FileNode {
    /// The node's display line (`spec_display_name`), exactly.
    pub fn get_display_name(&self) -> (r: String)
        ensures
            r@ == spec_display_name(*self),
    {
        let mut indent = String::new();
        let mut d: usize = 0;
        while d < self.depth
            invariant
                d <= self.depth,
                indent@ == spec_indent(d as int),
            decreases self.depth - d,
        {
            indent.append("  ");
            d += 1;
        }
        if self.is_dir {
            let mut r = indent;
            if self.is_expanded {
                r.append("\u{25BC} \u{1F4C2} ");
            } else {
                r.append("\u{25B6} \u{1F4C1} ");
            }
            r.append(self.name.as_str());
            r
        } else {
            let mut r = indent;
            r.append("  ");
            r.append(get_file_icon(self.name.as_str()));
            r.append(" ");
            r.append(self.name.as_str());
            r
        }
    }

    /// Flips a directory's expansion; a file is unchanged.
    pub fn toggle_expand(&mut self)
        ensures
            final(self).is_expanded == (if old(self).is_dir {
                !old(self).is_expanded
            } else {
                old(self).is_expanded
            }),
            final(self).path == old(self).path,
            final(self).name == old(self).name,
            final(self).is_dir == old(self).is_dir,
            final(self).depth == old(self).depth,
            final(self).children == old(self).children,
    {
        if self.is_dir {
            self.is_expanded = !self.is_expanded;
        }
    }

    /// The visible nodes under this one (`spec_flat`), exactly, in display
    /// order.
    pub fn get_flat_list(&self) -> (r: Vec<&FileNode>)
        ensures
            derefs(r@) == spec_flat(*self),
            r@.len() == spec_flat(*self).len(),
            forall|k: int| 0 <= k < r@.len() ==> *(#[trigger] r@[k]) == spec_flat(*self)[k],
        decreases *self, 0int,
    {
        let mut r: Vec<&FileNode> = Vec::new();
        r.push(self);
        proof {
            assert(derefs(r@) =~= seq![*self]);
        }
        if self.is_dir && self.is_expanded {
            let mut i: usize = 0;
            proof {
                assert(derefs(r@) + spec_flat_from(self.children@, 0) =~= spec_flat(*self));
            }
            while i < self.children.len()
                invariant
                    i <= self.children@.len(),
                    derefs(r@) + spec_flat_from(self.children@, i as int) == spec_flat(*self),
                decreases self.children@.len() - i,
            {
                let mut sub = self.children[i].get_flat_list();
                let ghost pre = derefs(r@);
                let ghost sub_flat = derefs(sub@);
                r.append(&mut sub);
                proof {
                    assert(derefs(r@) =~= pre + sub_flat);
                    assert(spec_flat_from(self.children@, i as int) == spec_flat(
                        self.children@[i as int],
                    ) + spec_flat_from(self.children@, i + 1));
                    assert(derefs(r@) + spec_flat_from(self.children@, i + 1) =~= spec_flat(
                        *self,
                    ));
                }
                i += 1;
            }
            proof {
                assert(spec_flat_from(self.children@, self.children@.len() as int)
                    =~= Seq::<FileNode>::empty());
                assert(derefs(r@) =~= spec_flat(*self));
            }
        } else {
            proof {
                assert(spec_flat(*self) =~= seq![*self]);
            }
        }
        proof {
            assert forall|k: int| 0 <= k < r@.len() implies *(r@[k]) == spec_flat(*self)[k] by {
                assert(derefs(r@)[k] == *(r@[k]));
            }
        }
        r
    }

    /// The visible node at `index` of the flattened list, if the list is
    /// that long.
    pub fn find_node_at_index(&self, index: usize) -> (r: Option<&FileNode>)
        ensures
            match r {
                Some(f) => index < spec_flat(*self).len() && *f == spec_flat(*self)[index as int],
                None => index >= spec_flat(*self).len(),
            },
    {
        let flat = self.get_flat_list();
        if index < flat.len() {
            Some(flat[index])
        } else {
            None
        }
    }

    /// The first visible node holding `target` as its path
    /// (`spec_find_by_path`), exactly.
    pub fn find_node_by_path(&self, target: &String) -> (r: Option<&FileNode>)
        ensures
            match r {
                Some(f) => spec_find_by_path(*self, target@) == Some(*f),
                None => spec_find_by_path(*self, target@) is None,
            },
        decreases *self, 0int,
    {
        if self.path == *target {
            return Some(self);
        }
        if self.is_dir && self.is_expanded {
            let mut i: usize = 0;
            while i < self.children.len()
                invariant
                    i <= self.children@.len(),
                    self.path@ != target@,
                    spec_find_from(self.children@, i as int, target@) == spec_find_by_path(
                        *self,
                        target@,
                    ),
                decreases self.children@.len() - i,
            {
                match self.children[i].find_node_by_path(target) {
                    Some(f) => {
                        return Some(f);
                    },
                    None => {},
                }
                i += 1;
            }
            None
        } else {
            None
        }
    }

    /// The same lookup, usable where only shared access is available.
    pub fn find_node_by_path_read_only(&self, target: &String) -> (r: Option<&FileNode>)
        ensures
            match r {
                Some(f) => spec_find_by_path(*self, target@) == Some(*f),
                None => spec_find_by_path(*self, target@) is None,
            },
    {
        self.find_node_by_path(target)
    }
}

/// The nodes a list of references points at.
pub open spec fn derefs(s: Seq<&FileNode>) -> Seq<FileNode> {
    s.map_values(|x: &FileNode| *x)
}

} // verus!
