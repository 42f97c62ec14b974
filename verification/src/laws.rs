//! What holds of the operations taken together, proved over the model of
//! the file system.

use crate::backup::{
    backup_candidates, backup_extension, backup_name, backup_path, backup_plan,
    create_backup_spec, delete_backup_spec, descending, get_backup_list_spec, is_backup_listing,
    is_backup_name, preset_prefix, restore_actions, restore_backup_spec,
    restore_from_backup_spec, DirProbeView,
};
use crate::config::{
    apply_preset_spec, found_at, get_config_content_spec, get_config_list_spec,
    get_starship_toml_spec, resolve, save_config_content_spec, save_starship_toml_spec,
    user_config_id, write_actions, write_target_actions, ConfigTargetView, FileProbeView,
    FileTimes, StarshipConfigView,
};
use crate::disk::{lemma_attempt_append, lemma_attempt_two, lemma_run_append, lemma_run_two, Disk};
use crate::error::ErrorView;
use crate::layout::{
    child, file_name, lead, lemma_child_of_parent, lemma_fixed_names, lemma_layout_dirs,
    lemma_plain_add, parent, plain, settings_file_name, starship_file_name, LayoutView,
};
use crate::moment::{digit, lemma_stamp_order, lemma_stamp_plain, lemma_stamp_shape, Moment};
use crate::plan::{ActionView, PlanView};
use crate::settings::{
    default_settings, get_settings_spec, save_actions, update_settings_spec, SettingsProbeView,
    SettingsView,
};
use crate::text::{
    lemma_lex_asymmetric, lemma_lex_connected, lemma_lex_transitive,
    lemma_parts_below_in_context, lex_lt,
};
use vstd::relations::{sorted_by, total_ordering};
use vstd::prelude::*;

verus! {

/// Saving `settings` succeeds on every disk, and whoever looks at the
/// settings file afterwards finds the record of `settings`.
proof fn lemma_saved_record(layout: LayoutView, disk: Disk, settings: SettingsView)
    requires
        disk.format.faithful(),
    ensures
        ({
            &&& disk.run(save_actions(layout, settings)) matches Some(after)
            &&& after.files.contains_key(layout.settings_path())
            &&& forall|found: SettingsProbeView| #[trigger]
                after.shows_settings(layout.settings_path(), found) ==> found
                    == SettingsProbeView::Stored(settings.stored())
        }),
{
    let made = ActionView::CreateDirAll { path: layout.config_dir() };
    let written = ActionView::WriteSettings { path: layout.settings_path(), settings };
    lemma_fixed_names();
    lemma_run_two(disk, made, written);
    let with_dir = disk.apply(made)->0;
    assert(with_dir.dirs.contains(layout.config_dir()));
    assert(layout.settings_path() == child(layout.config_dir(), settings_file_name()));
    assert(with_dir.has_dir_for(layout.settings_path()));
}

/// Reading the settings for the first time saves the defaults. On a disk
/// without a settings file the read returns the defaults, its plan succeeds
/// and leaves the file behind, and every read after it returns the defaults
/// again and changes nothing.
pub proof fn law_first_read_keeps_defaults(layout: LayoutView, disk: Disk)
    requires
        disk.format.faithful(),
        !disk.files.contains_key(layout.settings_path()),
    ensures
        disk.shows_settings(layout.settings_path(), SettingsProbeView::Absent),
        ({
            &&& get_settings_spec(layout, SettingsProbeView::Absent) matches Ok(first)
            &&& first.value == default_settings()
            &&& disk.run(first.actions) matches Some(after)
            &&& after.files.contains_key(layout.settings_path())
            &&& forall|found: SettingsProbeView| #[trigger]
                after.shows_settings(layout.settings_path(), found) ==> get_settings_spec(
                    layout,
                    found,
                ) == Ok::<PlanView<SettingsView>, ErrorView>(
                    PlanView { value: default_settings(), actions: Seq::empty() },
                )
        }),
{
    lemma_saved_record(layout, disk, default_settings());
}

/// What is saved is what is read. After the plan that saves `payload`, which
/// succeeds on every disk, every read of the settings returns `payload` and
/// changes nothing.
pub proof fn law_saved_settings_are_read_back(layout: LayoutView, disk: Disk, payload: SettingsView)
    requires
        disk.format.faithful(),
    ensures
        ({
            &&& disk.run(update_settings_spec(layout, payload).actions) matches Some(after)
            &&& forall|found: SettingsProbeView| #[trigger]
                after.shows_settings(layout.settings_path(), found) ==> get_settings_spec(
                    layout,
                    found,
                ) == Ok::<PlanView<SettingsView>, ErrorView>(
                    PlanView { value: payload, actions: Seq::empty() },
                )
        }),
{
    lemma_saved_record(layout, disk, payload);
}

/// The name of a backup holds no separator where its prefix and its stamp
/// hold none.
proof fn lemma_backup_name_plain(prefix: Seq<char>, stamp: Seq<char>)
    requires
        plain(prefix),
        plain(stamp),
    ensures
        plain(backup_name(prefix, stamp)),
{
    reveal_strlit(".toml");
    lemma_plain_add(prefix, seq!['_']);
    lemma_plain_add(prefix + seq!['_'], stamp);
    lemma_plain_add(prefix + seq!['_'] + stamp, backup_extension());
}

/// A backup holds what its source held. Where the file `from` exists, and
/// neither the prefix nor the stamp holds a separator, the plan that backs
/// the file up succeeds, and afterwards the file at the path that the plan
/// hands back has the content that `from` had before.
pub proof fn law_backup_holds_source(
    layout: LayoutView,
    disk: Disk,
    from: Seq<char>,
    prefix: Seq<char>,
    stamp: Seq<char>,
)
    requires
        disk.files.contains_key(from),
        plain(prefix),
        plain(stamp),
    ensures
        ({
            let plan = backup_plan(layout, from, prefix, stamp);
            &&& disk.run(plan.actions) matches Some(after)
            &&& after.files.contains_key(plan.value)
            &&& after.files[plan.value] == disk.files[from]
        }),
{
    let to = backup_path(layout, prefix, stamp);
    let made = ActionView::CreateDirAll { path: layout.backup_dir() };
    let copied = ActionView::CopyFile { from, to };
    lemma_backup_name_plain(prefix, stamp);
    lemma_run_two(disk, made, copied);
    let with_dir = disk.apply(made)->0;
    assert(with_dir.dirs.contains(layout.backup_dir()));
    assert(to == child(layout.backup_dir(), backup_name(prefix, stamp)));
    assert(with_dir.has_dir_for(to));
}

/// A backup holds the prompt configuration as it was. Where the file
/// exists, and neither the prefix nor the stamp holds a separator, the
/// operation succeeds, its plan succeeds, and the backup at the path handed
/// back holds what the file held at the call.
pub proof fn law_backup_holds_target(
    layout: LayoutView,
    disk: Disk,
    prefix: Seq<char>,
    stamp: Seq<char>,
)
    requires
        disk.files.contains_key(layout.starship_config_path()),
        plain(prefix),
        plain(stamp),
    ensures
        ({
            &&& create_backup_spec(layout, prefix, true, stamp) matches Ok(plan)
            &&& disk.run(plan.actions) matches Some(after)
            &&& after.files.contains_key(plan.value)
            &&& after.files[plan.value] == disk.files[layout.starship_config_path()]
        }),
{
    law_backup_holds_source(layout, disk, layout.starship_config_path(), prefix, stamp);
}

/// A backup that fails changes no file. Whatever the disk holds, an attempt
/// at the plan of a backup that does not succeed leaves every file as it
/// was, the file that was to be copied among them; and the plan does not
/// succeed where that file does not exist.
pub proof fn law_failed_backup_changes_no_file(
    layout: LayoutView,
    disk: Disk,
    from: Seq<char>,
    prefix: Seq<char>,
    stamp: Seq<char>,
)
    ensures
        ({
            let plan = backup_plan(layout, from, prefix, stamp);
            &&& disk.run(plan.actions) is None ==> disk.attempt(plan.actions).files == disk.files
            &&& !disk.files.contains_key(from) ==> disk.run(plan.actions) is None
        }),
{
    let to = backup_path(layout, prefix, stamp);
    let made = ActionView::CreateDirAll { path: layout.backup_dir() };
    let copied = ActionView::CopyFile { from, to };
    lemma_run_two(disk, made, copied);
    lemma_attempt_two(disk, made, copied);
}

/// Restoring brings the backup's content back. Where the backup exists, the
/// restore succeeds, its plan succeeds, and every read of the prompt
/// configuration after it returns what the backup held at the call and
/// changes nothing.
pub proof fn law_restore_brings_backup_back(layout: LayoutView, disk: Disk, backup: Seq<char>)
    requires
        disk.files.contains_key(backup),
    ensures
        ({
            &&& restore_from_backup_spec(layout, backup, true) matches Ok(plan)
            &&& disk.run(plan.actions) matches Some(after)
            &&& forall|found: FileProbeView| #[trigger]
                after.shows_text(layout.starship_config_path(), found) ==> get_starship_toml_spec(
                    layout,
                    found,
                ) == Ok::<PlanView<Seq<char>>, ErrorView>(
                    PlanView { value: disk.files[backup], actions: Seq::empty() },
                )
        }),
{
    let target = layout.starship_config_path();
    let made = ActionView::CreateDirAll { path: layout.starship_dir() };
    let copied = ActionView::CopyFile { from: backup, to: target };
    lemma_fixed_names();
    lemma_run_two(disk, made, copied);
    let with_dir = disk.apply(made)->0;
    assert(with_dir.dirs.contains(layout.starship_dir()));
    assert(target == child(layout.starship_dir(), starship_file_name()));
    assert(with_dir.has_dir_for(target));
}

/// With one prefix, the backup of the earlier moment has the path that
/// comes first.
proof fn lemma_path_order(layout: LayoutView, prefix: Seq<char>, earlier: Moment, later: Moment)
    requires
        earlier.well_formed(),
        later.well_formed(),
        earlier.earlier_than(later),
    ensures
        lex_lt(
            backup_path(layout, prefix, earlier.stamp()),
            backup_path(layout, prefix, later.stamp()),
        ),
{
    let before = lead(layout.backup_dir()) + prefix + seq!['_'];
    lemma_stamp_order(earlier, later);
    lemma_parts_below_in_context(
        before,
        earlier.stamp(),
        later.stamp(),
        backup_extension(),
        backup_extension(),
    );
    assert(backup_path(layout, prefix, earlier.stamp()) =~= before + earlier.stamp()
        + backup_extension());
    assert(backup_path(layout, prefix, later.stamp()) =~= before + later.stamp()
        + backup_extension());
}

/// A backup that lies in the directory is in the list.
proof fn lemma_backup_is_listed(
    layout: LayoutView,
    names: Seq<Seq<char>>,
    listing: Seq<Seq<char>>,
    prefix: Seq<char>,
    stamp: Seq<char>,
)
    requires
        is_backup_listing(layout, names, listing),
        names.contains(backup_name(prefix, stamp)),
    ensures
        listing.contains(backup_path(layout, prefix, stamp)),
{
    let name = backup_name(prefix, stamp);
    let wanted = |name: Seq<char>| is_backup_name(name);
    let path = |name: Seq<char>| child(layout.backup_dir(), name);
    let kept = names.filter(wanted);
    let paths = backup_candidates(layout, names);
    assert(is_backup_name(name)) by {
        assert(name.subrange(name.len() - backup_extension().len(), name.len() as int)
            =~= backup_extension());
    }
    let i = choose|i: int| 0 <= i < names.len() && names[i] == name;
    names.lemma_filter_contains(wanted, i);
    let k = choose|k: int| 0 <= k < kept.len() && kept[k] == name;
    assert(paths[k] == backup_path(layout, prefix, stamp));
    assert(paths.contains(backup_path(layout, prefix, stamp)));
    vstd::seq_lib::to_multiset_contains(paths, backup_path(layout, prefix, stamp));
    vstd::seq_lib::to_multiset_contains(listing, backup_path(layout, prefix, stamp));
}

/// Newer backups are listed first. Of two backups with the same prefix that
/// lie in the backup directory, made at two moments of which one is earlier,
/// both are in the list, and the one made later stands before the other
/// wherever the two occur.
pub proof fn law_newer_backup_is_listed_first(
    layout: LayoutView,
    names: Seq<Seq<char>>,
    listing: Seq<Seq<char>>,
    prefix: Seq<char>,
    earlier: Moment,
    later: Moment,
)
    requires
        earlier.well_formed(),
        later.well_formed(),
        earlier.earlier_than(later),
        names.contains(backup_name(prefix, earlier.stamp())),
        names.contains(backup_name(prefix, later.stamp())),
        is_backup_listing(layout, names, listing),
    ensures
        listing.contains(backup_path(layout, prefix, earlier.stamp())),
        listing.contains(backup_path(layout, prefix, later.stamp())),
        forall|i: int, j: int|
            0 <= i < listing.len() && 0 <= j < listing.len() && #[trigger] listing[i]
                == backup_path(layout, prefix, earlier.stamp()) && #[trigger] listing[j]
                == backup_path(layout, prefix, later.stamp()) ==> j < i,
{
    let old = backup_path(layout, prefix, earlier.stamp());
    let new = backup_path(layout, prefix, later.stamp());
    lemma_backup_is_listed(layout, names, listing, prefix, earlier.stamp());
    lemma_backup_is_listed(layout, names, listing, prefix, later.stamp());
    lemma_path_order(layout, prefix, earlier, later);
    lemma_lex_asymmetric(old, old);
    assert(descending(listing));
}

/// No backup directory, no backups. On a disk without a backup directory,
/// whatever a look at the directory gives, listing the backups succeeds with
/// the empty list.
pub proof fn law_no_directory_no_backups(
    layout: LayoutView,
    disk: Disk,
    found: DirProbeView,
    listed: Result<Seq<Seq<char>>, ErrorView>,
)
    requires
        !disk.dirs.contains(layout.backup_dir()),
        disk.shows_entries(layout.backup_dir(), found),
        get_backup_list_spec(layout, found, listed),
    ensures
        listed == Ok::<Seq<Seq<char>>, ErrorView>(Seq::empty()),
{
}

/// The list of backups is settled by the directory's entries: two lists for
/// the same entries are the same list.
pub proof fn law_listing_is_unique(
    layout: LayoutView,
    names: Seq<Seq<char>>,
    one: Seq<Seq<char>>,
    other: Seq<Seq<char>>,
)
    requires
        is_backup_listing(layout, names, one),
        is_backup_listing(layout, names, other),
    ensures
        one == other,
{
    let not_before = |a: Seq<char>, b: Seq<char>| !lex_lt(a, b);
    assert(total_ordering(not_before)) by {
        assert forall|a: Seq<char>| #[trigger] not_before(a, a) by {
            lemma_lex_asymmetric(a, a);
        }
        assert forall|a: Seq<char>, b: Seq<char>| #[trigger]
            not_before(a, b) && #[trigger] not_before(b, a) implies a == b by {
            lemma_lex_connected(a, b);
        }
        assert forall|a: Seq<char>, b: Seq<char>, c: Seq<char>| #[trigger]
            not_before(a, b) && #[trigger] not_before(b, c) implies not_before(a, c) by {
            if lex_lt(a, c) {
                lemma_lex_connected(a, b);
                if a != b {
                    lemma_lex_transitive(b, a, c);
                }
            }
        }
        assert forall|a: Seq<char>, b: Seq<char>| #[trigger]
            not_before(a, b) || #[trigger] not_before(b, a) by {
            lemma_lex_asymmetric(a, b);
        }
    }
    assert(sorted_by(one, not_before));
    assert(sorted_by(other, not_before));
    vstd::seq_lib::lemma_sorted_unique(one, other, not_before);
}

/// A deleted backup is gone from the list. Where the backup exists, the plan
/// that deletes it succeeds, and no list made from a look at the backup
/// directory afterwards holds its path.
pub proof fn law_deleted_backup_is_not_listed(layout: LayoutView, disk: Disk, backup: Seq<char>)
    requires
        disk.files.contains_key(backup),
    ensures
        ({
            &&& disk.run(delete_backup_spec(backup, true).actions) matches Some(after)
            &&& forall|names: Seq<Seq<char>>, listing: Seq<Seq<char>>|
                after.shows_entries(layout.backup_dir(), DirProbeView::Entries(names))
                    && #[trigger] is_backup_listing(layout, names, listing)
                    ==> !listing.contains(backup)
        }),
{
    let actions = delete_backup_spec(backup, true).actions;
    reveal_with_fuel(Disk::run, 2);
    assert(actions.drop_first() =~= Seq::<ActionView>::empty());
    let after = disk.run(actions)->0;
    assert forall|names: Seq<Seq<char>>, listing: Seq<Seq<char>>|
        after.shows_entries(layout.backup_dir(), DirProbeView::Entries(names))
            && #[trigger] is_backup_listing(layout, names, listing) implies !listing.contains(
        backup,
    ) by {
        if listing.contains(backup) {
            let wanted = |name: Seq<char>| is_backup_name(name);
            let kept = names.filter(wanted);
            let paths = backup_candidates(layout, names);
            vstd::seq_lib::to_multiset_contains(listing, backup);
            vstd::seq_lib::to_multiset_contains(paths, backup);
            let k = choose|k: int| 0 <= k < paths.len() && paths[k] == backup;
            assert(kept.contains(kept[k]));
            names.lemma_filter_contains_rev(wanted, kept[k]);
            assert(paths[k] == child(layout.backup_dir(), kept[k]));
            assert(names.contains(kept[k]));
        }
    }
}

/// No backup lies where the prompt configuration lies: the name of a backup
/// ends in a digit and the extension, that of the configuration does not.
proof fn lemma_backup_is_not_target(layout: LayoutView, prefix: Seq<char>, at: Moment)
    ensures
        backup_path(layout, prefix, at.stamp()) != layout.starship_config_path(),
{
    reveal_strlit(".toml");
    reveal_strlit("starship.toml");
    lemma_stamp_shape(at);
    let name = backup_name(prefix, at.stamp());
    let backup = backup_path(layout, prefix, at.stamp());
    let target = layout.starship_config_path();
    assert(name[name.len() - 6] == at.stamp()[14]);
    assert(backup[backup.len() - 6] == name[name.len() - 6]);
    assert(target[target.len() - 6] == starship_file_name()[7]);
    assert(target[target.len() - 6] == 'p');
    assert(backup[backup.len() - 6] == digit(at.second % 10));
}

/// The prefix of the backup before a preset holds no separator.
proof fn lemma_preset_prefix_plain()
    ensures
        plain(preset_prefix()),
{
    reveal_strlit("starship_before_preset");
}

/// Writing the prompt configuration succeeds on every disk, and leaves the
/// text in the file.
proof fn lemma_written_target(layout: LayoutView, disk: Disk, content: Seq<char>)
    ensures
        ({
            &&& disk.run(write_target_actions(layout, content)) matches Some(after)
            &&& after.files == disk.files.insert(layout.starship_config_path(), content)
        }),
{
    let actions = write_target_actions(layout, content);
    lemma_fixed_names();
    lemma_run_two(disk, actions[0], actions[1]);
    let with_dir = disk.apply(actions[0])->0;
    assert(with_dir.dirs.contains(layout.starship_dir()));
    assert(layout.starship_config_path() == child(layout.starship_dir(), starship_file_name()));
    assert(with_dir.has_dir_for(layout.starship_config_path()));
    assert(actions =~= seq![actions[0], actions[1]]);
}

/// What is written is what is read. The plan that writes the prompt
/// configuration succeeds on every disk, and every read of the configuration
/// after it returns the text that was written and changes nothing.
pub proof fn law_written_configuration_is_read_back(
    layout: LayoutView,
    disk: Disk,
    content: Seq<char>,
)
    ensures
        ({
            &&& disk.run(save_starship_toml_spec(layout, content).actions) matches Some(after)
            &&& forall|found: FileProbeView| #[trigger]
                after.shows_text(layout.starship_config_path(), found) ==> get_starship_toml_spec(
                    layout,
                    found,
                ) == Ok::<PlanView<Seq<char>>, ErrorView>(
                    PlanView { value: content, actions: Seq::empty() },
                )
        }),
{
    lemma_written_target(layout, disk, content);
}

/// The user's identifier stands for the prompt configuration in every list
/// that `get_config_list` makes.
pub proof fn law_list_names_the_prompt_configuration(
    layout: LayoutView,
    target: Option<FileTimes>,
    now: Seq<char>,
)
    ensures
        resolve(layout, get_config_list_spec(layout, target, now), user_config_id()) == Some(
            ConfigTargetView { path: layout.starship_config_path(), is_enterprise: false },
        ),
{
    let configs = get_config_list_spec(layout, target, now);
    if target is Some {
        assert(found_at(configs, user_config_id(), 0));
        let k = choose|k: int| found_at(configs, user_config_id(), k);
        assert(k == 0);
    } else {
        assert(forall|k: int| !found_at(configs, user_config_id(), k));
    }
}

/// Under the user's identifier the prompt configuration is read, written and
/// restored. Where the identifier stands for the prompt configuration file,
/// as it does in every list that `get_config_list` makes, the three
/// operations that take an identifier do what the operations on the prompt
/// configuration do: a missing file is created empty and read as empty text,
/// a write and a restore make sure of the directory first, and none fails
/// for want of the file.
pub proof fn law_user_identifier_is_the_prompt_configuration(
    layout: LayoutView,
    configs: Seq<StarshipConfigView>,
    found: FileProbeView,
    content: Seq<char>,
    backup: Seq<char>,
    backup_exists: bool,
)
    requires
        resolve(layout, configs, user_config_id()) == Some(
            ConfigTargetView { path: layout.starship_config_path(), is_enterprise: false },
        ),
    ensures
        get_config_content_spec(layout, configs, user_config_id(), found)
            == get_starship_toml_spec(layout, found),
        save_config_content_spec(layout, configs, user_config_id(), content) == Ok::<
            PlanView<()>,
            ErrorView,
        >(save_starship_toml_spec(layout, content)),
        restore_backup_spec(layout, configs, user_config_id(), backup, backup_exists)
            == restore_from_backup_spec(layout, backup, backup_exists),
{
    lemma_layout_dirs(layout);
}

/// Once the directory in which `path` lies has been made sure of, a file can
/// be put at `path`.
proof fn lemma_parent_makes_room(disk: Disk, path: Seq<char>)
    ensures
        disk.apply(ActionView::CreateDirAll { path: parent(path) }) matches Some(with_dir)
            ==> with_dir.has_dir_for(path) && with_dir.files == disk.files,
{
    lemma_child_of_parent(path);
    let with_dir = disk.apply(ActionView::CreateDirAll { path: parent(path) })->0;
    assert(with_dir.dirs.contains(parent(path)));
    assert(path == child(parent(path), file_name(path)));
}

/// A configuration that can be written is written, and nothing else is.
/// Where the identifier stands for a file and the configuration is no
/// enterprise one, saving succeeds whether or not the file exists, its plan
/// succeeds on every disk and changes that file only, and every read of the
/// configuration after it returns the text that was saved and changes
/// nothing.
pub proof fn law_saved_content_is_read_back(
    layout: LayoutView,
    disk: Disk,
    configs: Seq<StarshipConfigView>,
    id: Seq<char>,
    content: Seq<char>,
)
    requires
        resolve(layout, configs, id) is Some,
        !resolve(layout, configs, id)->0.is_enterprise,
    ensures
        ({
            let path = resolve(layout, configs, id)->0.path;
            &&& save_config_content_spec(layout, configs, id, content) matches Ok(plan)
            &&& disk.run(plan.actions) matches Some(after)
            &&& after.files == disk.files.insert(path, content)
            &&& forall|found: FileProbeView| #[trigger]
                after.shows_text(path, found) ==> get_config_content_spec(
                    layout,
                    configs,
                    id,
                    found,
                ) == Ok::<PlanView<Seq<char>>, ErrorView>(
                    PlanView { value: content, actions: Seq::empty() },
                )
        }),
{
    let path = resolve(layout, configs, id)->0.path;
    let actions = write_actions(path, content);
    lemma_parent_makes_room(disk, path);
    lemma_run_two(disk, actions[0], actions[1]);
    assert(actions =~= seq![actions[0], actions[1]]);
}

/// A restore brings the backup's content into the configuration and changes
/// nothing else. Where the identifier stands for a file, the configuration
/// is no enterprise one and the backup exists, restoring succeeds whether or
/// not the configuration's file exists, its plan succeeds on every disk, and
/// afterwards the file holds what the backup held at the call, the backup
/// is as it was, and so is every other file.
pub proof fn law_restored_content_is_the_backup(
    layout: LayoutView,
    disk: Disk,
    configs: Seq<StarshipConfigView>,
    id: Seq<char>,
    backup: Seq<char>,
)
    requires
        resolve(layout, configs, id) is Some,
        !resolve(layout, configs, id)->0.is_enterprise,
        disk.files.contains_key(backup),
    ensures
        ({
            let path = resolve(layout, configs, id)->0.path;
            &&& restore_backup_spec(layout, configs, id, backup, true) matches Ok(plan)
            &&& disk.run(plan.actions) matches Some(after)
            &&& after.files == disk.files.insert(path, disk.files[backup])
            &&& after.files.contains_key(backup)
            &&& after.files[backup] == disk.files[backup]
        }),
{
    let path = resolve(layout, configs, id)->0.path;
    let actions = restore_actions(path, backup);
    lemma_parent_makes_room(disk, path);
    lemma_run_two(disk, actions[0], actions[1]);
    assert(actions =~= seq![actions[0], actions[1]]);
}

/// A preset whose backup fails does not touch the configuration. Whatever
/// the disk holds and whatever the stamp, an attempt at the plan of a preset
/// that does not succeed leaves every file as it was.
pub proof fn law_failed_preset_changes_no_file(
    layout: LayoutView,
    disk: Disk,
    stamp: Seq<char>,
    content: Seq<char>,
)
    ensures
        ({
            let plan = apply_preset_spec(layout, true, stamp, content);
            disk.run(plan.actions) is None ==> disk.attempt(plan.actions).files == disk.files
        }),
{
    let target = layout.starship_config_path();
    let saving = backup_plan(layout, target, preset_prefix(), stamp).actions;
    let writing = write_target_actions(layout, content);
    let plan = apply_preset_spec(layout, true, stamp, content);
    assert(plan.actions =~= saving + writing);
    lemma_run_append(disk, saving, writing);
    lemma_attempt_append(disk, saving, writing);
    law_failed_backup_changes_no_file(layout, disk, target, preset_prefix(), stamp);
    if disk.run(saving) is Some {
        lemma_written_target(layout, disk.run(saving)->0, content);
    }
}

/// A preset never loses what it replaces. Where the prompt configuration
/// exists, the plan that applies a preset at a given moment succeeds; after
/// it the backup of that moment holds what the configuration held before,
/// and every read of the configuration returns the preset and changes
/// nothing.
pub proof fn law_preset_keeps_old_content(
    layout: LayoutView,
    disk: Disk,
    at: Moment,
    content: Seq<char>,
)
    requires
        at.well_formed(),
        disk.files.contains_key(layout.starship_config_path()),
    ensures
        ({
            let plan = apply_preset_spec(layout, true, at.stamp(), content);
            let backup = backup_path(layout, preset_prefix(), at.stamp());
            &&& disk.run(plan.actions) matches Some(after)
            &&& after.files.contains_key(backup)
            &&& after.files[backup] == disk.files[layout.starship_config_path()]
            &&& forall|found: FileProbeView| #[trigger]
                after.shows_text(layout.starship_config_path(), found) ==> get_starship_toml_spec(
                    layout,
                    found,
                ) == Ok::<PlanView<Seq<char>>, ErrorView>(
                    PlanView { value: content, actions: Seq::empty() },
                )
        }),
{
    let target = layout.starship_config_path();
    let backup = backup_path(layout, preset_prefix(), at.stamp());
    let saving = backup_plan(layout, target, preset_prefix(), at.stamp()).actions;
    let writing = write_target_actions(layout, content);
    let plan = apply_preset_spec(layout, true, at.stamp(), content);
    assert(plan.actions =~= saving + writing);
    lemma_fixed_names();
    lemma_stamp_plain(at);
    lemma_preset_prefix_plain();
    law_backup_holds_source(layout, disk, target, preset_prefix(), at.stamp());
    let saved = disk.run(saving)->0;
    lemma_run_append(disk, saving, writing);
    lemma_run_two(saved, writing[0], writing[1]);
    let with_dir = saved.apply(writing[0])->0;
    assert(with_dir.dirs.contains(layout.starship_dir()));
    assert(target == child(layout.starship_dir(), starship_file_name()));
    assert(with_dir.has_dir_for(target));
    lemma_backup_is_not_target(layout, preset_prefix(), at);
}

} // verus!
