//! What the picker remembers between runs: the last folder and monitor, and the position
//! reached in each folder.
use vstd::prelude::*;
use crate::strmap::StrMap;
use crate::text::{owned, chars_of};

verus! {

#[derive(Debug)]
pub struct ShellState {
    pub version: u8,
    pub last_folder: Option<String>,
    pub last_monitor: String,
    pub last_index_by_folder: StrMap<usize>,
}

/// The position remembered for a folder, clamped to a list of `len` wallpapers (0 when none is
/// remembered or the list is empty).
pub open spec fn remembered_index_spec(m: StrMap<usize>, folder: Seq<char>, len: usize) -> usize {
    let i = match m.lookup(folder) {
        Some(i) => i,
        None => 0,
    };
    let cap = if len == 0 {
        0
    } else {
        (len - 1) as usize
    };
    if i < cap {
        i
    } else {
        cap
    }
}

impl ShellState {
    pub fn default_with_version() -> (r: Self)
        ensures
            r.version == 1,
            r.last_folder is None,
            r.last_monitor@ == "all"@,
            r.last_index_by_folder.wf(),
            r.last_index_by_folder.key_seq().len() == 0,
    {
        ShellState {
            version: 1,
            last_folder: None,
            last_monitor: owned("all"),
            last_index_by_folder: StrMap::new(),
        }
    }

    /// A state as read from disk, with an unset version read as 1 and an empty monitor as `all`.
    pub fn after_load(self) -> (r: Self)
        ensures
            r.version == if self.version == 0 {
                1
            } else {
                self.version
            },
            r.last_monitor@ == if self.last_monitor@.len() == 0 {
                "all"@
            } else {
                self.last_monitor@
            },
            r.last_folder == self.last_folder,
            r.last_index_by_folder == self.last_index_by_folder,
    {
        let mut s = self;
        if s.version == 0 {
            s.version = 1;
        }
        if chars_of(s.last_monitor.as_str()).len() == 0 {
            s.last_monitor = owned("all");
        }
        s
    }

    pub fn remembered_index(&self, folder: &str, len: usize) -> (r: usize)
        requires
            self.last_index_by_folder.wf(),
        ensures
            r == remembered_index_spec(self.last_index_by_folder, folder@, len),
    {
        let i = match self.last_index_by_folder.get(folder) {
            Some(i) => *i,
            None => 0,
        };
        let cap = if len == 0 {
            0
        } else {
            len - 1
        };
        if i < cap {
            i
        } else {
            cap
        }
    }

    /// Remembers the folder, the monitor, and the position reached in the folder.
    pub fn remember(&mut self, folder: &str, monitor: &str, index: usize)
        requires
            old(self).last_index_by_folder.wf(),
        ensures
            final(self).version == 1,
            final(self).last_folder matches Some(f) && f@ == folder@,
            final(self).last_monitor@ == monitor@,
            final(self).last_index_by_folder.wf(),
            final(self).last_index_by_folder.lookup(folder@) == Some(index),
            forall|q: Seq<char>|
                q != folder@ ==> final(self).last_index_by_folder.has(q) == old(self).last_index_by_folder.has(q)
                    && final(self).last_index_by_folder.lookup(q) == old(self).last_index_by_folder.lookup(q),
    {
        self.version = 1;
        self.last_folder = Some(owned(folder));
        self.last_monitor = owned(monitor);
        self.last_index_by_folder.insert(owned(folder), index);
    }
}

impl Default for ShellState {
    fn default() -> (r: Self)
        ensures
            r.version == 1,
            r.last_folder is None,
            r.last_monitor@ == "all"@,
            r.last_index_by_folder.wf(),
            r.last_index_by_folder.key_seq().len() == 0,
    {
        ShellState::default_with_version()
    }
}

/// What is remembered for a folder is what the next run starts from: after remembering
/// position `index` in `folder`, the position recalled there for a list of `len` wallpapers is
/// `index`, clamped to the list; other folders recall what they did before.
pub proof fn lemma_remember_then_recall(
    before: StrMap<usize>,
    after: StrMap<usize>,
    folder: Seq<char>,
    other: Seq<char>,
    index: usize,
    len: usize,
)
    requires
        after.lookup(folder) == Some(index),
        forall|q: Seq<char>| q != folder ==> after.lookup(q) == before.lookup(q),
    ensures
        remembered_index_spec(after, folder, len) == if len == 0 {
            0
        } else if index < len - 1 {
            index as int
        } else {
            len - 1
        },
        other != folder ==> remembered_index_spec(after, other, len) == remembered_index_spec(before, other, len),
{
}

} // verus!
