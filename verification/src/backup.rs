//! Backups of the prompt configuration: how they are named, made, listed,
//! restored and deleted.

use crate::clock::{current_stamp, is_clock_stamp};
use crate::config::{resolve, resolve_config, StarshipConfig, StarshipConfigView};
use crate::error::{
    backup_not_found, clock_unreadable, config_not_found, enterprise_read_only, outcome,
    target_not_found, Error, ErrorView,
};
use crate::layout::{child, join, parent, parent_of, Layout, LayoutView};
use crate::plan::{Action, ActionView, Plan, PlanView};
use crate::text::{
    has_suffix, lemma_lex_asymmetric, lemma_lex_transitive, lex_lt, text_lt,
};
use vstd::prelude::*;

verus! {

/// The ending of a backup's file name.
pub open spec fn backup_extension() -> Seq<char> {
    ".toml"@
}

/// The prefix of the backup that is made before a preset is applied.
pub open spec fn preset_prefix() -> Seq<char> {
    "starship_before_preset"@
}

/// The file name of the backup with the given prefix and time stamp.
pub open spec fn backup_name(prefix: Seq<char>, stamp: Seq<char>) -> Seq<char> {
    prefix + seq!['_'] + stamp + backup_extension()
}

/// The path of the backup with the given prefix and time stamp.
pub open spec fn backup_path(layout: LayoutView, prefix: Seq<char>, stamp: Seq<char>) -> Seq<char> {
    child(layout.backup_dir(), backup_name(prefix, stamp))
}

/// The path of the backup with the given prefix and time stamp.
pub fn backup_path_of(layout: &Layout, prefix: &str, stamp: &str) -> (r: String)
    ensures
        r@ == backup_path(layout@, prefix@, stamp@),
{
    let mut name = String::from_str(prefix);
    proof {
        reveal_strlit("_");
    }
    name.append("_");
    name.append(stamp);
    name.append(".toml");
    assert(name@ =~= backup_name(prefix@, stamp@));
    let dir = layout.backup_dir();
    join(dir.as_str(), name.as_str())
}

/// Making a backup: make sure the backup directory exists, then copy the
/// file `from` to the backup's path, which is the value handed back.
pub open spec fn backup_plan(layout: LayoutView, from: Seq<char>, prefix: Seq<char>, stamp: Seq<char>) -> PlanView<
    Seq<char>,
> {
    PlanView {
        value: backup_path(layout, prefix, stamp),
        actions: seq![
            ActionView::CreateDirAll { path: layout.backup_dir() },
            ActionView::CopyFile { from, to: backup_path(layout, prefix, stamp) },
        ],
    }
}

/// The plan that copies the file `from` into the backup directory.
fn backing_up(layout: &Layout, from: String, prefix: &str, stamp: &str) -> (r: Plan<String>)
    ensures
        r@ == backup_plan(layout@, from@, prefix@, stamp@),
{
    let mut actions: Vec<Action> = Vec::new();
    actions.push(Action::CreateDirAll { path: layout.backup_dir() });
    actions.push(Action::CopyFile { from, to: backup_path_of(layout, prefix, stamp) });
    assert(actions.deep_view() =~= backup_plan(layout@, from@, prefix@, stamp@).actions);
    Plan { value: backup_path_of(layout, prefix, stamp), actions }
}

/// The prefix of the backup that is made on demand.
pub open spec fn starship_prefix() -> Seq<char> {
    "starship"@
}

/// Backing up the prompt configuration under the prefix `prefix`, at the
/// moment whose stamp is `stamp`: refused where there is no file to copy.
pub open spec fn create_backup_spec(
    layout: LayoutView,
    prefix: Seq<char>,
    target_exists: bool,
    stamp: Seq<char>,
) -> Result<PlanView<Seq<char>>, ErrorView> {
    if target_exists {
        Ok(backup_plan(layout, layout.starship_config_path(), prefix, stamp))
    } else {
        Err(target_not_found())
    }
}

/// Copies the prompt configuration into the backup directory, under a name
/// made of `prefix` and `stamp`, and hands back the backup's path.
pub fn create_backup_at(layout: &Layout, prefix: &str, target_exists: bool, stamp: &str) -> (r:
    Result<Plan<String>, Error>)
    ensures
        outcome(r) == create_backup_spec(layout@, prefix@, target_exists, stamp@),
{
    if target_exists {
        Ok(backing_up(layout, layout.starship_config_path(), prefix, stamp))
    } else {
        Err(Error::target_not_found())
    }
}

/// Copies the prompt configuration into the backup directory, under a name
/// made of `prefix` and the clock's reading. The clock is read only where
/// the file exists.
pub fn create_backup(layout: &Layout, prefix: &str, target_exists: bool) -> (r: Result<
    Plan<String>,
    Error,
>)
    ensures
        !target_exists ==> outcome(r) == Err::<PlanView<Seq<char>>, ErrorView>(target_not_found()),
        target_exists ==> match r {
            Ok(plan) => exists|stamp: Seq<char>|
                is_clock_stamp(stamp) && Ok::<PlanView<Seq<char>>, ErrorView>(plan@)
                    == create_backup_spec(layout@, prefix@, true, stamp),
            Err(e) => e@ == clock_unreadable(),
        },
{
    if !target_exists {
        return create_backup_at(layout, prefix, target_exists, "");
    }
    match current_stamp() {
        Some(stamp) => create_backup_at(layout, prefix, target_exists, stamp.as_str()),
        None => Err(Error::clock_unreadable()),
    }
}

/// Backing up the prompt configuration on demand: a backup under the prefix
/// `starship`.
pub open spec fn create_starship_backup_spec(
    layout: LayoutView,
    target_exists: bool,
    stamp: Seq<char>,
) -> Result<PlanView<Seq<char>>, ErrorView> {
    create_backup_spec(layout, starship_prefix(), target_exists, stamp)
}

/// Copies the prompt configuration into the backup directory, under a name
/// made of `starship` and `stamp`, and hands back the backup's path.
pub fn create_starship_backup_at(layout: &Layout, target_exists: bool, stamp: &str) -> (r: Result<
    Plan<String>,
    Error,
>)
    ensures
        outcome(r) == create_starship_backup_spec(layout@, target_exists, stamp@),
{
    create_backup_at(layout, "starship", target_exists, stamp)
}

/// Copies the prompt configuration into the backup directory, under a name
/// made of `starship` and the clock's reading. The clock is read only where
/// the file exists.
pub fn create_starship_backup(layout: &Layout, target_exists: bool) -> (r: Result<
    Plan<String>,
    Error,
>)
    ensures
        !target_exists ==> outcome(r) == Err::<PlanView<Seq<char>>, ErrorView>(target_not_found()),
        target_exists ==> match r {
            Ok(plan) => exists|stamp: Seq<char>|
                is_clock_stamp(stamp) && Ok::<PlanView<Seq<char>>, ErrorView>(plan@)
                    == create_starship_backup_spec(layout@, true, stamp),
            Err(e) => e@ == clock_unreadable(),
        },
{
    create_backup(layout, "starship", target_exists)
}

/// The actions that restore the file `path` from the backup at `backup`:
/// make sure the directory in which `path` lies exists, then copy the backup
/// over the file.
pub open spec fn restore_actions(path: Seq<char>, backup: Seq<char>) -> Seq<ActionView> {
    seq![
        ActionView::CreateDirAll { path: parent(path) },
        ActionView::CopyFile { from: backup, to: path },
    ]
}

/// Restoring the configuration `id` from the backup at `backup`: its
/// directory is made sure of and the backup copied over its file. An
/// identifier that stands for nothing cannot be restored, an enterprise
/// configuration never is, and a backup that does not exist restores nothing.
pub open spec fn restore_backup_spec(
    layout: LayoutView,
    configs: Seq<StarshipConfigView>,
    id: Seq<char>,
    backup: Seq<char>,
    backup_exists: bool,
) -> Result<PlanView<()>, ErrorView> {
    match resolve(layout, configs, id) {
        None => Err(config_not_found()),
        Some(target) => if target.is_enterprise {
            Err(enterprise_read_only())
        } else if !backup_exists {
            Err(backup_not_found())
        } else {
            Ok(PlanView { value: (), actions: restore_actions(target.path, backup) })
        },
    }
}

/// Replaces the content of the configuration `config_id` by that of the
/// backup at `backup_path`.
pub fn restore_backup(
    layout: &Layout,
    configs: &Vec<StarshipConfig>,
    config_id: &str,
    backup_path: String,
    backup_exists: bool,
) -> (r: Result<Plan<()>, Error>)
    ensures
        outcome(r) == restore_backup_spec(
            layout@,
            configs.deep_view(),
            config_id@,
            backup_path@,
            backup_exists,
        ),
{
    match resolve_config(layout, configs, config_id) {
        None => Err(Error::config_not_found()),
        Some(target) => {
            if target.is_enterprise {
                Err(Error::enterprise_read_only())
            } else if !backup_exists {
                Err(Error::backup_not_found())
            } else {
                let mut actions: Vec<Action> = Vec::new();
                actions.push(Action::CreateDirAll { path: parent_of(target.path.as_str()) });
                actions.push(Action::CopyFile { from: backup_path, to: target.path });
                assert(actions.deep_view() =~= restore_actions(target@.path, backup_path@));
                Ok(Plan { value: (), actions })
            }
        },
    }
}

/// Restoring the prompt configuration from the backup at `backup`: make
/// sure the configuration's directory exists, then copy the backup over the
/// file; refused where the backup does not exist.
pub open spec fn restore_from_backup_spec(layout: LayoutView, backup: Seq<char>, backup_exists: bool) -> Result<
    PlanView<()>,
    ErrorView,
> {
    if backup_exists {
        Ok(
            PlanView {
                value: (),
                actions: seq![
                    ActionView::CreateDirAll { path: layout.starship_dir() },
                    ActionView::CopyFile { from: backup, to: layout.starship_config_path() },
                ],
            },
        )
    } else {
        Err(backup_not_found())
    }
}

/// Replaces the prompt configuration by the backup at `backup_path`.
pub fn restore_from_backup(layout: &Layout, backup_path: String, backup_exists: bool) -> (r: Result<
    Plan<()>,
    Error,
>)
    ensures
        outcome(r) == restore_from_backup_spec(layout@, backup_path@, backup_exists),
{
    if backup_exists {
        let mut actions: Vec<Action> = Vec::new();
        actions.push(Action::CreateDirAll { path: layout.starship_dir() });
        actions.push(Action::CopyFile { from: backup_path, to: layout.starship_config_path() });
        assert(actions.deep_view() =~= seq![
            ActionView::CreateDirAll { path: layout@.starship_dir() },
            ActionView::CopyFile { from: backup_path@, to: layout@.starship_config_path() },
        ]);
        Ok(Plan { value: (), actions })
    } else {
        Err(Error::backup_not_found())
    }
}

/// Deleting the backup at `backup`: one removal where the file exists,
/// nothing where it does not.
pub open spec fn delete_backup_spec(backup: Seq<char>, backup_exists: bool) -> PlanView<()> {
    PlanView {
        value: (),
        actions: if backup_exists {
            seq![ActionView::RemoveFile { path: backup }]
        } else {
            Seq::empty()
        },
    }
}

/// Removes the backup at `backup_path` if it exists.
pub fn delete_backup(backup_path: String, backup_exists: bool) -> (r: Plan<()>)
    ensures
        r@ == delete_backup_spec(backup_path@, backup_exists),
{
    let mut actions: Vec<Action> = Vec::new();
    if backup_exists {
        actions.push(Action::RemoveFile { path: backup_path });
    }
    assert(actions.deep_view() =~= delete_backup_spec(backup_path@, backup_exists).actions);
    Plan { value: (), actions }
}

/// What was found where the backup directory should be.
#[derive(Clone, Debug, PartialEq, Eq)]
pub enum DirProbe {
    /// There is no such directory.
    Absent,
    /// The directory holds entries with these names.
    Entries(Vec<String>),
    /// The directory exists and could not be listed; the message says why.
    Unreadable(String),
}

/// A [`DirProbe`] with its strings as text.
pub ghost enum DirProbeView {
    Absent,
    Entries(Seq<Seq<char>>),
    Unreadable(Seq<char>),
}

impl DeepView for DirProbe {
    type V = DirProbeView;

    open spec fn deep_view(&self) -> DirProbeView {
        match self {
            DirProbe::Absent => DirProbeView::Absent,
            DirProbe::Entries(names) => DirProbeView::Entries(names.deep_view()),
            DirProbe::Unreadable(message) => DirProbeView::Unreadable(message@),
        }
    }
}

impl View for DirProbe {
    type V = DirProbeView;

    open spec fn view(&self) -> DirProbeView {
        self.deep_view()
    }
}

/// A directory entry counts as a backup if its name ends in the extension.
pub open spec fn is_backup_name(name: Seq<char>) -> bool {
    backup_extension().is_suffix_of(name)
}

/// The paths of the backups among the entries `names` of the backup
/// directory, in the order of the entries.
pub open spec fn backup_candidates(layout: LayoutView, names: Seq<Seq<char>>) -> Seq<Seq<char>> {
    names.filter(|name: Seq<char>| is_backup_name(name)).map_values(
        |name: Seq<char>| child(layout.backup_dir(), name),
    )
}

/// No text in `s` comes before one that stands earlier in `s`.
pub open spec fn descending(s: Seq<Seq<char>>) -> bool {
    forall|i: int, j: int| 0 <= i < j < s.len() ==> !lex_lt(#[trigger] s[i], #[trigger] s[j])
}

/// `listing` is the list of backups for the directory entries `names`: the
/// paths of the backups among them, each as often as it occurs, in
/// descending lexicographic order.
pub open spec fn is_backup_listing(layout: LayoutView, names: Seq<Seq<char>>, listing: Seq<Seq<char>>) -> bool {
    &&& descending(listing)
    &&& listing.to_multiset() == backup_candidates(layout, names).to_multiset()
}

/// Putting `x` where the texts before it do not come before `x` and the one
/// after it does keeps a descending sequence descending.
proof fn lemma_insert_keeps_descending(s: Seq<Seq<char>>, k: int, x: Seq<char>)
    requires
        descending(s),
        0 <= k <= s.len(),
        forall|j: int| 0 <= j < k ==> !lex_lt(#[trigger] s[j], x),
        k < s.len() ==> lex_lt(s[k], x),
    ensures
        descending(s.insert(k, x)),
{
    let t = s.insert(k, x);
    assert forall|p: int, q: int| 0 <= p < q < t.len() implies !lex_lt(
        #[trigger] t[p],
        #[trigger] t[q],
    ) by {
        if p == k {
            assert(t[q] == s[q - 1]);
            if lex_lt(x, s[q - 1]) {
                lemma_lex_transitive(s[k], x, s[q - 1]);
                lemma_lex_asymmetric(s[k], s[k]);
            }
        } else if q == k {
            assert(t[p] == s[p]);
        } else if p < k {
            assert(t[p] == s[p]);
            if q < k {
                assert(t[q] == s[q]);
            } else {
                assert(t[q] == s[q - 1]);
            }
        } else {
            assert(t[p] == s[p - 1]);
            assert(t[q] == s[q - 1]);
        }
    }
}

/// The texts of `items` in descending lexicographic order.
pub fn sort_descending(items: &Vec<String>) -> (r: Vec<String>)
    ensures
        descending(r.deep_view()),
        r.deep_view().to_multiset() == items.deep_view().to_multiset(),
{
    let ghost all = items.deep_view();
    let mut sorted: Vec<String> = Vec::new();
    let mut i: usize = 0;
    assert(sorted.deep_view() =~= all.take(0));
    while i < items.len()
        invariant
            i <= items.len(),
            all == items.deep_view(),
            descending(sorted.deep_view()),
            sorted.deep_view().to_multiset() == all.take(i as int).to_multiset(),
        decreases items.len() - i,
    {
        let item = items[i].clone();
        let ghost before = sorted.deep_view();
        let mut k: usize = 0;
        while k < sorted.len() && !text_lt(sorted[k].as_str(), item.as_str())
            invariant
                k <= sorted.len(),
                before == sorted.deep_view(),
                forall|j: int| 0 <= j < k ==> !lex_lt(#[trigger] before[j], item@),
            decreases sorted.len() - k,
        {
            k = k + 1;
        }
        sorted.insert(k, item);
        proof {
            assert(sorted.deep_view() =~= before.insert(k as int, item@));
            lemma_insert_keeps_descending(before, k as int, item@);
            vstd::seq_lib::to_multiset_insert(before, k as int, item@);
            assert(all.take(i as int + 1) =~= all.take(i as int).push(item@));
            vstd::seq_lib::to_multiset_build(all.take(i as int), item@);
        }
        i = i + 1;
    }
    assert(all.take(i as int) =~= all);
    sorted
}

/// The paths of the backups among the directory entries `names`, in the
/// order of the entries.
fn candidates(layout: &Layout, names: &Vec<String>) -> (r: Vec<String>)
    ensures
        r.deep_view() == backup_candidates(layout@, names.deep_view()),
{
    let ghost all = names.deep_view();
    let ghost wanted = |name: Seq<char>| is_backup_name(name);
    let ghost path = |name: Seq<char>| child(layout@.backup_dir(), name);
    let dir = layout.backup_dir();
    let mut found: Vec<String> = Vec::new();
    let mut i: usize = 0;
    proof {
        assert(all.take(0) =~= Seq::<Seq<char>>::empty());
        reveal(Seq::filter);
        assert(found.deep_view() =~= all.take(0).filter(wanted).map_values(path));
    }
    while i < names.len()
        invariant
            i <= names.len(),
            all == names.deep_view(),
            dir@ == layout@.backup_dir(),
            wanted == |name: Seq<char>| is_backup_name(name),
            path == |name: Seq<char>| child(layout@.backup_dir(), name),
            found.deep_view() == all.take(i as int).filter(wanted).map_values(path),
        decreases names.len() - i,
    {
        let ghost before = found.deep_view();
        let ghost kept = all.take(i as int).filter(wanted);
        proof {
            assert(all.take(i as int + 1) =~= all.take(i as int).push(all[i as int]));
            all.take(i as int).lemma_filter_push(all[i as int], wanted);
        }
        if has_suffix(names[i].as_str(), ".toml") {
            found.push(join(dir.as_str(), names[i].as_str()));
            assert(found.deep_view() =~= before.push(path(all[i as int])));
            assert(kept.push(all[i as int]).map_values(path) =~= kept.map_values(path).push(
                path(all[i as int]),
            ));
        }
        i = i + 1;
    }
    assert(all.take(i as int) =~= all);
    found
}

/// Listing the backups. A missing directory holds none; a directory that
/// could be listed gives the list for its entries; one that could not is an
/// error.
pub open spec fn get_backup_list_spec(
    layout: LayoutView,
    found: DirProbeView,
    r: Result<Seq<Seq<char>>, ErrorView>,
) -> bool {
    match found {
        DirProbeView::Absent => r == Ok::<Seq<Seq<char>>, ErrorView>(Seq::empty()),
        DirProbeView::Entries(names) => r matches Ok(listing) && is_backup_listing(
            layout,
            names,
            listing,
        ),
        DirProbeView::Unreadable(message) => r == Err::<Seq<Seq<char>>, ErrorView>(
            ErrorView::Io(message),
        ),
    }
}

/// The backups, newest name first, given what was found where the backup
/// directory should be.
pub fn get_backup_list(layout: &Layout, found: DirProbe) -> (r: Result<Vec<String>, Error>)
    ensures
        get_backup_list_spec(layout@, found@, outcome(r)),
{
    match found {
        DirProbe::Absent => {
            let listing: Vec<String> = Vec::new();
            assert(listing.deep_view() =~= Seq::<Seq<char>>::empty());
            Ok(listing)
        },
        DirProbe::Entries(names) => {
            let paths = candidates(layout, &names);
            Ok(sort_descending(&paths))
        },
        DirProbe::Unreadable(message) => Err(Error::Io(message)),
    }
}

} // verus!
