//! A model of the file system, on which the plans of the operations can be
//! run in a proof: `run` where every action must succeed, `attempt` where
//! the first failure ends the work, as it does for the caller of a plan.
//! The model is what the laws of this library are stated over; the program
//! that carries the actions out on a real disk is trusted to behave as the
//! model does.

use crate::backup::DirProbeView;
use crate::config::FileProbeView;
use crate::layout::{child, plain};
use crate::plan::ActionView;
use crate::settings::{SettingsProbeView, StoredSettingsView};
use vstd::prelude::*;

verus! {

/// How a settings record is written as text and read back.
pub ghost struct Format {
    pub write: spec_fn(StoredSettingsView) -> Seq<char>,
    pub read: spec_fn(Seq<char>) -> Option<StoredSettingsView>,
}

impl Format {
    /// The text of `record`.
    pub closed spec fn written(self, record: StoredSettingsView) -> Seq<char> {
        (self.write)(record)
    }

    /// The record that `text` holds, if it holds one.
    pub closed spec fn parsed(self, text: Seq<char>) -> Option<StoredSettingsView> {
        (self.read)(text)
    }

    /// Every record is read back as it was written.
    pub open spec fn faithful(self) -> bool {
        forall|record: StoredSettingsView| #[trigger]
            self.parsed(self.written(record)) == Some(record)
    }
}

/// The state of a file system: the files with their contents, the
/// directories, and the format of settings records.
pub ghost struct Disk {
    pub files: Map<Seq<char>, Seq<char>>,
    pub dirs: Set<Seq<char>>,
    pub format: Format,
}

impl Disk {
    /// The directory in which `path` would lie exists: `path` is the entry
    /// of an existing directory, under a name that holds no separator.
    pub open spec fn has_dir_for(self, path: Seq<char>) -> bool {
        exists|dir: Seq<char>, name: Seq<char>|
            self.dirs.contains(dir) && plain(name) && path == #[trigger] child(dir, name)
    }

    /// The disk with `content` in the file `path`.
    pub open spec fn put(self, path: Seq<char>, content: Seq<char>) -> Disk {
        Disk { files: self.files.insert(path, content), ..self }
    }

    /// The disk after `action`, or `None` where the action fails: a write
    /// or a copy into a directory that does not exist, a copy or a removal
    /// of a file that does not exist.
    pub open spec fn apply(self, action: ActionView) -> Option<Disk> {
        match action {
            ActionView::CreateDirAll { path } => Some(
                Disk { dirs: self.dirs.insert(path), ..self },
            ),
            ActionView::WriteFile { path, content } => if self.has_dir_for(path) {
                Some(self.put(path, content))
            } else {
                None
            },
            ActionView::WriteSettings { path, settings } => if self.has_dir_for(path) {
                Some(self.put(path, self.format.written(settings.stored())))
            } else {
                None
            },
            ActionView::CopyFile { from, to } => if self.files.contains_key(from)
                && self.has_dir_for(to) {
                Some(self.put(to, self.files[from]))
            } else {
                None
            },
            ActionView::RemoveFile { path } => if self.files.contains_key(path) {
                Some(Disk { files: self.files.remove(path), ..self })
            } else {
                None
            },
        }
    }

    /// The disk after `actions`, carried out in order, or `None` where one
    /// of them fails.
    pub open spec fn run(self, actions: Seq<ActionView>) -> Option<Disk>
        decreases actions.len(),
    {
        if actions.len() == 0 {
            Some(self)
        } else {
            match self.apply(actions[0]) {
                Some(next) => next.run(actions.drop_first()),
                None => None,
            }
        }
    }

    /// The disk on which an attempt at `actions` ends. They are carried out
    /// in order; the first that fails ends the attempt and leaves the disk
    /// as the actions before it made it.
    pub open spec fn attempt(self, actions: Seq<ActionView>) -> Disk
        decreases actions.len(),
    {
        if actions.len() == 0 {
            self
        } else {
            match self.apply(actions[0]) {
                Some(next) => next.attempt(actions.drop_first()),
                None => self,
            }
        }
    }

    /// `found` is what a look at the settings file at `path` gives on this
    /// disk when the read succeeds.
    pub open spec fn shows_settings(self, path: Seq<char>, found: SettingsProbeView) -> bool {
        if !self.files.contains_key(path) {
            found == SettingsProbeView::Absent
        } else {
            match self.format.parsed(self.files[path]) {
                Some(record) => found == SettingsProbeView::Stored(record),
                None => found is Malformed,
            }
        }
    }

    /// `found` is what a look at the text file at `path` gives on this disk
    /// when the read succeeds.
    pub open spec fn shows_text(self, path: Seq<char>, found: FileProbeView) -> bool {
        if !self.files.contains_key(path) {
            found == FileProbeView::Absent
        } else {
            found == FileProbeView::Content(self.files[path])
        }
    }

    /// `names` are the names of the files in the directory `dir`, in any
    /// order: the names without a separator under which `dir` has a file.
    pub open spec fn lists(self, dir: Seq<char>, names: Seq<Seq<char>>) -> bool {
        forall|name: Seq<char>|
            #![trigger names.contains(name)]
            names.contains(name) <==> plain(name) && self.files.contains_key(child(dir, name))
    }

    /// `found` is what a look at the directory `dir` gives on this disk when
    /// the listing succeeds.
    pub open spec fn shows_entries(self, dir: Seq<char>, found: DirProbeView) -> bool {
        if !self.dirs.contains(dir) {
            found == DirProbeView::Absent
        } else {
            found matches DirProbeView::Entries(names) && self.lists(dir, names)
        }
    }
}

/// Two actions, the second carried out on what the first leaves.
pub proof fn lemma_run_two(disk: Disk, first: ActionView, second: ActionView)
    ensures
        disk.run(seq![first, second]) == match disk.apply(first) {
            Some(next) => next.apply(second),
            None => None,
        },
{
    let actions = seq![first, second];
    reveal_with_fuel(Disk::run, 3);
    assert(actions.drop_first() =~= seq![second]);
    assert(actions.drop_first().drop_first() =~= Seq::<ActionView>::empty());
}

/// An attempt at two actions: nothing changes where the first fails, the
/// first alone is done where the second fails.
pub proof fn lemma_attempt_two(disk: Disk, first: ActionView, second: ActionView)
    ensures
        disk.attempt(seq![first, second]) == match disk.apply(first) {
            Some(next) => match next.apply(second) {
                Some(last) => last,
                None => next,
            },
            None => disk,
        },
{
    let actions = seq![first, second];
    reveal_with_fuel(Disk::attempt, 3);
    assert(actions.drop_first() =~= seq![second]);
    assert(actions.drop_first().drop_first() =~= Seq::<ActionView>::empty());
}

/// An attempt in which no action fails ends on the disk of the run.
pub proof fn lemma_attempt_of_run(disk: Disk, actions: Seq<ActionView>)
    requires
        disk.run(actions) is Some,
    ensures
        disk.attempt(actions) == disk.run(actions)->0,
    decreases actions.len(),
{
    if actions.len() > 0 {
        lemma_attempt_of_run(disk.apply(actions[0])->0, actions.drop_first());
    }
}

/// An attempt at `head` followed by `tail` goes on to `tail` exactly where
/// the run of `head` succeeds.
pub proof fn lemma_attempt_append(disk: Disk, head: Seq<ActionView>, tail: Seq<ActionView>)
    ensures
        disk.attempt(head + tail) == match disk.run(head) {
            Some(next) => next.attempt(tail),
            None => disk.attempt(head),
        },
    decreases head.len(),
{
    if head.len() == 0 {
        assert(head + tail =~= tail);
    } else {
        assert((head + tail).drop_first() =~= head.drop_first() + tail);
        assert((head + tail)[0] == head[0]);
        match disk.apply(head[0]) {
            Some(next) => lemma_attempt_append(next, head.drop_first(), tail),
            None => {},
        }
    }
}

/// A run of `head` followed by `tail` is a run of `tail` on what `head`
/// leaves.
pub proof fn lemma_run_append(disk: Disk, head: Seq<ActionView>, tail: Seq<ActionView>)
    ensures
        disk.run(head + tail) == match disk.run(head) {
            Some(next) => next.run(tail),
            None => None,
        },
    decreases head.len(),
{
    if head.len() == 0 {
        assert(head + tail =~= tail);
    } else {
        assert((head + tail).drop_first() =~= head.drop_first() + tail);
        assert((head + tail)[0] == head[0]);
        match disk.apply(head[0]) {
            Some(next) => lemma_run_append(next, head.drop_first(), tail),
            None => {},
        }
    }
}

} // verus!
