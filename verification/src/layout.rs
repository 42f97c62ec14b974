//! Where the files live: the settings file, the prompt configuration and the
//! backup directory, each derived from two root directories.

use crate::text::chars_of;
use vstd::prelude::*;

verus! {

/// The character that parts a directory from what lies in it.
pub open spec fn separator() -> char {
    '/'
}

/// What stands before the name of an entry of the directory `dir`: the
/// directory and one separator, unless `dir` already ends in one or is empty.
pub open spec fn lead(dir: Seq<char>) -> Seq<char> {
    if dir.len() == 0 || dir.last() == separator() {
        dir
    } else {
        dir.push(separator())
    }
}

/// The path of the entry `name` in the directory `dir`.
pub open spec fn child(dir: Seq<char>, name: Seq<char>) -> Seq<char> {
    lead(dir) + name
}

/// `text` holds no separator, as the name of a directory entry does.
pub open spec fn plain(text: Seq<char>) -> bool {
    forall|i: int| 0 <= i < text.len() ==> text[i] != separator()
}

/// The name of the entry that `path` names begins at `k`: a separator
/// stands just before `k`, or `k` is the beginning, and none stands after.
pub open spec fn splits_at(path: Seq<char>, k: int) -> bool {
    &&& 0 <= k <= path.len()
    &&& k == 0 || path[k - 1] == separator()
    &&& forall|i: int| k <= i < path.len() ==> path[i] != separator()
}

/// Where the name of the entry that `path` names begins.
pub open spec fn name_start(path: Seq<char>) -> int {
    choose|k: int| splits_at(path, k)
}

/// The name of the entry that `path` names: what follows its last
/// separator.
pub open spec fn file_name(path: Seq<char>) -> Seq<char> {
    path.subrange(name_start(path), path.len() as int)
}

/// The directory in which `path` lies: what stands before its last
/// separator, and with that separator where nothing else would be left or
/// another separator stands before it. A path without a separator lies in
/// the empty directory.
pub open spec fn parent(path: Seq<char>) -> Seq<char> {
    let k = name_start(path);
    if k == 0 {
        Seq::empty()
    } else if k >= 2 && path[k - 2] != separator() {
        path.subrange(0, k - 1)
    } else {
        path.subrange(0, k)
    }
}

/// Every path has a place where its name begins, at or before `from` when no
/// separator stands from there on.
pub proof fn lemma_split_exists(path: Seq<char>, from: int) -> (k: int)
    requires
        0 <= from <= path.len(),
        forall|i: int| from <= i < path.len() ==> path[i] != separator(),
    ensures
        splits_at(path, k),
    decreases from,
{
    if from == 0 || path[from - 1] == separator() {
        from
    } else {
        lemma_split_exists(path, from - 1)
    }
}

/// A path has one place only where its name begins.
pub proof fn lemma_name_start(path: Seq<char>, k: int)
    requires
        splits_at(path, k),
    ensures
        name_start(path) == k,
{
    let other = name_start(path);
    if other < k {
        assert(path[k - 1] == separator());
    } else if k < other {
        assert(path[other - 1] == separator());
    }
}

/// A path is the entry, named by its name, of the directory it lies in.
pub proof fn lemma_child_of_parent(path: Seq<char>)
    ensures
        child(parent(path), file_name(path)) == path,
        plain(file_name(path)),
{
    let k = lemma_split_exists(path, path.len() as int);
    lemma_name_start(path, k);
    assert(child(parent(path), file_name(path)) =~= path);
}

/// The entry `name` of a directory that does not end in a separator lies in
/// that directory and has that name.
pub proof fn lemma_parent_of_child(dir: Seq<char>, name: Seq<char>)
    requires
        dir.len() > 0,
        dir.last() != separator(),
        plain(name),
    ensures
        parent(child(dir, name)) == dir,
        file_name(child(dir, name)) == name,
{
    let path = child(dir, name);
    let k: int = dir.len() as int + 1;
    assert(splits_at(path, k)) by {
        assert(path[k - 1] == separator());
        assert forall|i: int| k <= i < path.len() implies path[i] != separator() by {
            assert(path[i] == name[i - k]);
        }
    }
    lemma_name_start(path, k);
    assert(path[k - 2] == dir.last());
    assert(path.subrange(0, k - 1) =~= dir);
    assert(path.subrange(k, path.len() as int) =~= name);
}

/// The fixed names hold no separator, and those of directories are not
/// empty.
pub proof fn lemma_fixed_names()
    ensures
        plain(app_dir_name()) && app_dir_name().len() > 0,
        plain(dot_config_name()) && dot_config_name().len() > 0,
        plain(backups_dir_name()) && backups_dir_name().len() > 0,
        plain(settings_file_name()),
        plain(starship_file_name()),
{
    reveal_strlit("starship-config-manager");
    reveal_strlit(".config");
    reveal_strlit("backups");
    reveal_strlit("settings.json");
    reveal_strlit("starship.toml");
}

/// The directories of a layout do not end in a separator, and each file of
/// a layout lies in its directory.
pub proof fn lemma_layout_dirs(layout: LayoutView)
    ensures
        layout.config_dir().len() > 0 && layout.config_dir().last() != separator(),
        layout.starship_dir().len() > 0 && layout.starship_dir().last() != separator(),
        layout.backup_dir().len() > 0 && layout.backup_dir().last() != separator(),
        parent(layout.settings_path()) == layout.config_dir(),
        parent(layout.starship_config_path()) == layout.starship_dir(),
{
    lemma_fixed_names();
    assert(layout.config_dir().last() == app_dir_name().last());
    assert(layout.starship_dir().last() == dot_config_name().last());
    assert(layout.backup_dir().last() == backups_dir_name().last());
    lemma_parent_of_child(layout.config_dir(), settings_file_name());
    lemma_parent_of_child(layout.starship_dir(), starship_file_name());
}

/// Text made of two plain texts is plain.
pub proof fn lemma_plain_add(a: Seq<char>, b: Seq<char>)
    requires
        plain(a),
        plain(b),
    ensures
        plain(a + b),
{
    assert forall|i: int| 0 <= i < (a + b).len() implies (a + b)[i] != separator() by {
        if i >= a.len() {
            assert((a + b)[i] == b[i - a.len()]);
        }
    }
}

/// The directory of this application under the per-user configuration root.
pub open spec fn app_dir_name() -> Seq<char> {
    "starship-config-manager"@
}

/// The name of the settings file.
pub open spec fn settings_file_name() -> Seq<char> {
    "settings.json"@
}

/// The directory under the home directory that holds the prompt configuration.
pub open spec fn dot_config_name() -> Seq<char> {
    ".config"@
}

/// The name of the prompt configuration file.
pub open spec fn starship_file_name() -> Seq<char> {
    "starship.toml"@
}

/// The name of the backup directory.
pub open spec fn backups_dir_name() -> Seq<char> {
    "backups"@
}

/// The root that stands in where the platform names none: the current
/// directory.
pub open spec fn fallback_root() -> Seq<char> {
    "."@
}

/// The root to work under where the platform names `found`: the directory it
/// names, or the fallback root where it names none or an empty one.
pub open spec fn root_for(found: Option<Seq<char>>) -> Seq<char> {
    match found {
        Some(dir) => if dir.len() > 0 {
            dir
        } else {
            fallback_root()
        },
        None => fallback_root(),
    }
}

/// The two directories from which every path is derived.
#[derive(Clone, Debug, PartialEq, Eq)]
pub struct Layout {
    /// The per-user configuration root.
    pub config_root: String,
    /// The user's home directory.
    pub home: String,
}

/// A [`Layout`] with its directories as text.
pub ghost struct LayoutView {
    pub config_root: Seq<char>,
    pub home: Seq<char>,
}

impl LayoutView {
    /// The layout for what the platform names, with the fallback root in
    /// place of a directory it does not name.
    pub open spec fn resolved(config_root: Option<Seq<char>>, home: Option<Seq<char>>) -> LayoutView {
        LayoutView { config_root: root_for(config_root), home: root_for(home) }
    }

    /// The application's own directory.
    pub open spec fn config_dir(self) -> Seq<char> {
        child(self.config_root, app_dir_name())
    }

    /// The settings file.
    pub open spec fn settings_path(self) -> Seq<char> {
        child(self.config_dir(), settings_file_name())
    }

    /// The directory of the prompt configuration file.
    pub open spec fn starship_dir(self) -> Seq<char> {
        child(self.home, dot_config_name())
    }

    /// The prompt configuration file.
    pub open spec fn starship_config_path(self) -> Seq<char> {
        child(self.starship_dir(), starship_file_name())
    }

    /// The directory that holds the backups.
    pub open spec fn backup_dir(self) -> Seq<char> {
        child(self.config_dir(), backups_dir_name())
    }
}

impl View for Layout {
    type V = LayoutView;

    open spec fn view(&self) -> LayoutView {
        LayoutView { config_root: self.config_root@, home: self.home@ }
    }
}

/// The path of the entry `name` in the directory `dir`. The two are put
/// together as text, with `/` between them on every platform; `name` is
/// never taken for an absolute path that would replace `dir`. The path
/// functions of the standard library differ in both.
pub fn join(dir: &str, name: &str) -> (r: String)
    ensures
        r@ == child(dir@, name@),
{
    let d = chars_of(dir);
    let mut out = String::from_str(dir);
    if d.len() > 0 && d[d.len() - 1] != '/' {
        proof {
            reveal_strlit("/");
        }
        out.append("/");
        assert(out@ =~= dir@.push(separator()));
    }
    out.append(name);
    assert(out@ =~= child(dir@, name@));
    out
}

/// The directory in which `path` lies, by the last `/` in `path` on every
/// platform.
pub fn parent_of(path: &str) -> (r: String)
    ensures
        r@ == parent(path@),
{
    let chars = chars_of(path);
    let mut k: usize = chars.len();
    while k > 0 && chars[k - 1] != '/'
        invariant
            k <= chars.len(),
            chars@ == path@,
            forall|i: int| k <= i < chars.len() ==> chars@[i] != separator(),
        decreases k,
    {
        k = k - 1;
    }
    proof {
        lemma_name_start(path@, k as int);
    }
    if k == 0 {
        String::new()
    } else if k >= 2 && chars[k - 2] != '/' {
        String::from_str(path.substring_char(0, k - 1))
    } else {
        String::from_str(path.substring_char(0, k))
    }
}

/// `dirs::config_dir`: the per-user configuration root that the platform
/// names, if it names one, as text; what is not Unicode in it is replaced.
/// Nothing is claimed of it.
#[verifier::external_body]
fn platform_config_root() -> (r: Option<String>)
{
    dirs::config_dir().map(|p| p.to_string_lossy().into_owned())
}

/// `dirs::home_dir`: the user's home directory, if the platform names one,
/// as text; what is not Unicode in it is replaced. Nothing is claimed of it.
#[verifier::external_body]
fn platform_home() -> (r: Option<String>)
{
    dirs::home_dir().map(|p| p.to_string_lossy().into_owned())
}

/// The root to work under where the platform names `found`.
fn root_or_fallback(found: Option<String>) -> (r: String)
    ensures
        r@ == root_for(found.deep_view()),
        r@.len() > 0,
{
    proof {
        reveal_strlit(".");
    }
    match found {
        Some(dir) => if dir.as_str().is_empty() {
            String::from_str(".")
        } else {
            dir
        },
        None => String::from_str("."),
    }
}

impl Layout {
    /// The layout under the two given directories.
    pub fn new(config_root: String, home: String) -> (r: Layout)
        ensures
            r@ == (LayoutView { config_root: config_root@, home: home@ }),
    {
        Layout { config_root, home }
    }

    /// The layout for what the platform names, with the fallback root in
    /// place of a directory it does not name. Neither root is empty.
    pub fn resolve(config_root: Option<String>, home: Option<String>) -> (r: Layout)
        ensures
            r@ == LayoutView::resolved(config_root.deep_view(), home.deep_view()),
            r@.config_root.len() > 0,
            r@.home.len() > 0,
    {
        Layout { config_root: root_or_fallback(config_root), home: root_or_fallback(home) }
    }

    /// The layout of the current user on this platform: `resolve` of whatever
    /// the platform names.
    pub fn detect() -> (r: Layout)
        ensures
            exists|config_root: Option<Seq<char>>, home: Option<Seq<char>>|
                r@ == LayoutView::resolved(config_root, home),
            r@.config_root.len() > 0,
            r@.home.len() > 0,
    {
        let config_root = platform_config_root();
        let home = platform_home();
        let r = Layout::resolve(config_root, home);
        assert(r@ == LayoutView::resolved(config_root.deep_view(), home.deep_view()));
        r
    }

    /// The application's own directory.
    pub fn config_dir(&self) -> (r: String)
        ensures
            r@ == self@.config_dir(),
    {
        join(self.config_root.as_str(), "starship-config-manager")
    }

    /// The settings file.
    pub fn settings_path(&self) -> (r: String)
        ensures
            r@ == self@.settings_path(),
    {
        let dir = self.config_dir();
        join(dir.as_str(), "settings.json")
    }

    /// The directory of the prompt configuration file.
    pub fn starship_dir(&self) -> (r: String)
        ensures
            r@ == self@.starship_dir(),
    {
        join(self.home.as_str(), ".config")
    }

    /// The prompt configuration file.
    pub fn starship_config_path(&self) -> (r: String)
        ensures
            r@ == self@.starship_config_path(),
    {
        let dir = self.starship_dir();
        join(dir.as_str(), "starship.toml")
    }

    /// The directory that holds the backups.
    pub fn backup_dir(&self) -> (r: String)
        ensures
            r@ == self@.backup_dir(),
    {
        let dir = self.config_dir();
        join(dir.as_str(), "backups")
    }
}

/// The application's own directory for the current user: the one under the
/// configuration root that the platform names, or under the fallback root.
pub fn get_config_dir() -> (r: String)
    ensures
        exists|root: Option<Seq<char>>| r@ == LayoutView::resolved(root, None).config_dir(),
{
    let root = platform_config_root();
    let layout = Layout::resolve(root, None);
    assert(layout@ == LayoutView::resolved(root.deep_view(), None));
    layout.config_dir()
}

/// The settings file of the current user.
pub fn get_settings_path() -> (r: String)
    ensures
        exists|root: Option<Seq<char>>| r@ == LayoutView::resolved(root, None).settings_path(),
{
    let root = platform_config_root();
    let layout = Layout::resolve(root, None);
    assert(layout@ == LayoutView::resolved(root.deep_view(), None));
    layout.settings_path()
}

/// The prompt configuration file of the current user.
pub fn get_starship_config_path() -> (r: String)
    ensures
        exists|home: Option<Seq<char>>| r@ == LayoutView::resolved(None, home).starship_config_path(),
{
    let home = platform_home();
    let layout = Layout::resolve(None, home);
    assert(layout@ == LayoutView::resolved(None, home.deep_view()));
    layout.starship_config_path()
}

} // verus!
