//! Plugin manifests, launch-strategy resolution and discovery.
//!
//! Each plugin directory carries a manifest declaring its actions, the
//! operating systems it supports and up to three OS-specific executable
//! paths beside a generic one. Discovery prepares every declared action
//! (stamping the owning plugin id and resolving icon and
//! property-inspector paths against the plugin directory) and resolves
//! one launch strategy per plugin; a plugin that cannot be loaded never
//! prevents another from loading. Reading the manifest file and spawning
//! the resolved executable are the caller's job.

use vstd::prelude::*;

verus! {

/// One declared visual state of an action: its image path, or the
/// sentinel that asks for the action's default icon.
#[derive(Clone, PartialEq, Eq, Debug)]
pub struct StateDecl {
    pub image: String,
}

/// One action a plugin declares in its manifest.
#[derive(Clone, PartialEq, Eq, Debug)]
pub struct ActionDecl {
    /// The owning plugin's id; discovery stamps it.
    pub plugin: String,
    /// The globally unique action-type id.
    pub uuid: String,
    /// The default icon path.
    pub icon: String,
    /// The property-inspector page path; empty when the action has none.
    pub property_inspector: String,
    pub states: Vec<StateDecl>,
    pub disable_automatic_states: bool,
}

/// A plugin manifest as its file declares it.
#[derive(Clone, PartialEq, Eq, Debug)]
pub struct PluginManifest {
    pub version: String,
    pub category: String,
    pub actions: Vec<ActionDecl>,
    /// The platform names the plugin declares support for.
    pub os: Vec<String>,
    /// The generic executable path.
    pub code_path: Option<String>,
    pub code_path_windows: Option<String>,
    pub code_path_macos: Option<String>,
    pub code_path_linux: Option<String>,
    /// A manifest-wide property-inspector default.
    pub property_inspector_path: Option<String>,
}

/// How a resolved executable path is to be launched.
#[derive(Clone, Copy, PartialEq, Eq, Structural, Debug)]
pub enum LaunchKind {
    /// Spawn the path as a native child process.
    Native,
    /// Spawn the path through the Windows compatibility layer.
    Wine,
    /// Load the path as an embedded UI view instead of a process.
    Html,
}

/// The launch strategy resolved for one plugin.
#[derive(Clone, PartialEq, Eq, Debug)]
pub struct LaunchPlan {
    pub kind: LaunchKind,
    pub path: String,
}

/// Why a plugin failed to load. Either failure is reported per plugin and
/// never aborts discovery of the rest.
#[derive(Clone, Copy, PartialEq, Eq, Structural, Debug)]
pub enum PluginLoadError {
    /// The manifest could not be read or parsed.
    ManifestUnreadable,
    /// No usable executable path exists for the current platform.
    UnsupportedPlatform,
}

/// Joining a path to a plugin-directory prefix with a separator.
pub open spec fn spec_join(dir: Seq<char>, rel: Seq<char>) -> Seq<char> {
    dir + "/"@ + rel
}

/// Builds `dir`/`rel`.
pub fn join_path(dir: &String, rel: &String) -> (r: String)
    ensures
        r@ == spec_join(dir@, rel@),
{
    let mut s = dir.clone();
    s.append("/");
    s.append(rel.as_str());
    s
}

/// Whether a resolved path names a markup document, launched as an
/// embedded view rather than a process.
pub open spec fn spec_is_html(s: Seq<char>) -> bool {
    &&& s.len() >= 5
    &&& s[s.len() - 5] == '.'
    &&& s[s.len() - 4] == 'h'
    &&& s[s.len() - 3] == 't'
    &&& s[s.len() - 2] == 'm'
    &&& s[s.len() - 1] == 'l'
}

/// Tests a path for the markup-document suffix.
pub fn is_html_path(path: &String) -> (r: bool)
    ensures
        r == spec_is_html(path@),
{
    let s = path.as_str();
    let n = s.unicode_len();
    if n < 5 {
        return false;
    }
    let c0 = s.get_char(n - 5);
    let c1 = s.get_char(n - 4);
    let c2 = s.get_char(n - 3);
    let c3 = s.get_char(n - 2);
    let c4 = s.get_char(n - 1);
    c0 == '.' && c1 == 'h' && c2 == 't' && c3 == 'm' && c4 == 'l'
}

/// Walks the manifest's supported-OS list in order: the first entry
/// naming the current platform ends the walk as a direct match (never the
/// compatibility layer); failing that, any entry naming the Windows
/// platform marks the plugin runnable through the compatibility layer.
/// Returns (matched, supported, wine).
pub open spec fn scan_os(os: Seq<String>, platform: Seq<char>) -> (bool, bool, bool)
    decreases os.len(),
{
    if os.len() == 0 {
        (false, false, false)
    } else if os[0]@ == platform {
        (true, true, false)
    } else if os[0]@ == "windows"@ {
        let r = scan_os(os.skip(1), platform);
        if r.0 {
            r
        } else {
            (false, true, true)
        }
    } else {
        scan_os(os.skip(1), platform)
    }
}

/// The manifest's OS-specific executable path for a platform name.
pub open spec fn spec_os_specific(m: PluginManifest, platform: Seq<char>) -> Option<String> {
    if platform == "windows"@ {
        m.code_path_windows
    } else if platform == "mac"@ {
        m.code_path_macos
    } else if platform == "linux"@ {
        m.code_path_linux
    } else {
        None
    }
}

/// The executable path launch resolution picks: on a direct platform
/// match the OS-specific path when present, else the generic one; under
/// the compatibility layer the generic path when present, else the
/// Windows-specific one.
pub open spec fn spec_pick_path(m: PluginManifest, platform: Seq<char>) -> Option<String> {
    let s = scan_os(m.os@, platform);
    if s.0 {
        match spec_os_specific(m, platform) {
            Some(p) => Some(p),
            None => m.code_path,
        }
    } else if s.2 {
        match m.code_path {
            Some(p) => Some(p),
            None => m.code_path_windows,
        }
    } else {
        None
    }
}

/// The launch strategy for a manifest on a platform: an unsupported
/// platform or a missing executable path fails the plugin; a markup path
/// becomes an embedded view; otherwise the path is spawned natively or
/// through the compatibility layer.
pub open spec fn spec_resolve(m: PluginManifest, platform: Seq<char>) -> Result<
    LaunchPlan,
    PluginLoadError,
> {
    let s = scan_os(m.os@, platform);
    if !s.1 {
        Err(PluginLoadError::UnsupportedPlatform)
    } else {
        match spec_pick_path(m, platform) {
            None => Err(PluginLoadError::UnsupportedPlatform),
            Some(p) => Ok(
                LaunchPlan {
                    kind: if spec_is_html(p@) {
                        LaunchKind::Html
                    } else if s.2 {
                        LaunchKind::Wine
                    } else {
                        LaunchKind::Native
                    },
                    path: p,
                },
            ),
        }
    }
}

/// Resolves the launch strategy for one manifest on the named platform.
pub fn resolve_launch(m: &PluginManifest, platform: &String) -> (r: Result<
    LaunchPlan,
    PluginLoadError,
>)
    ensures
        r == spec_resolve(*m, platform@),
{
    let windows_name = String::from_str("windows");
    let mut matched = false;
    let mut supported = false;
    let mut wine = false;
    let mut i: usize = 0;
    let ghost osq = m.os@;
    proof {
        assert(osq.skip(0) =~= osq);
    }
    while i < m.os.len() && !matched
        invariant
            0 <= i <= osq.len(),
            osq == m.os@,
            windows_name@ == "windows"@,
            matched ==> scan_os(osq, platform@) == (true, true, false) && supported && !wine,
            !matched ==> scan_os(osq, platform@) == ({
                let r = scan_os(osq.skip(i as int), platform@);
                if r.0 {
                    r
                } else {
                    (false, supported || r.1, wine || r.2)
                }
            }),
        decreases osq.len() - i, (if matched {
            0int
        } else {
            1int
        }),
    {
        proof {
            assert(osq.skip(i as int)[0] == osq[i as int]);
            assert(osq.skip(i as int).skip(1) =~= osq.skip(i + 1));
        }
        if m.os[i] == *platform {
            matched = true;
            supported = true;
            wine = false;
        } else if m.os[i] == windows_name {
            supported = true;
            wine = true;
        }
        if !matched {
            i = i + 1;
        }
    }
    let ghost s = scan_os(osq, platform@);
    proof {
        assert(osq.skip(osq.len() as int) =~= Seq::<String>::empty());
        assert(matched == s.0);
        assert(supported == s.1);
        assert(wine == s.2);
    }
    if !supported {
        return Err(PluginLoadError::UnsupportedPlatform);
    }
    let win_needle = String::from_str("windows");
    let mac_needle = String::from_str("mac");
    let linux_needle = String::from_str("linux");
    let os_specific: Option<String> = if *platform == win_needle {
        clone_opt(&m.code_path_windows)
    } else if *platform == mac_needle {
        clone_opt(&m.code_path_macos)
    } else if *platform == linux_needle {
        clone_opt(&m.code_path_linux)
    } else {
        None
    };
    let picked: Option<String> = if matched {
        match os_specific {
            Some(p) => Some(p),
            None => clone_opt(&m.code_path),
        }
    } else if wine {
        match clone_opt(&m.code_path) {
            Some(p) => Some(p),
            None => clone_opt(&m.code_path_windows),
        }
    } else {
        None
    };
    proof {
        assert(picked == spec_pick_path(*m, platform@));
    }
    match picked {
        None => Err(PluginLoadError::UnsupportedPlatform),
        Some(p) => {
            let kind = if is_html_path(&p) {
                LaunchKind::Html
            } else if wine {
                LaunchKind::Wine
            } else {
                LaunchKind::Native
            };
            Ok(LaunchPlan { kind, path: p })
        },
    }
}

/// Copies an optional string.
fn clone_opt(o: &Option<String>) -> (r: Option<String>)
    ensures
        r == *o,
{
    match o {
        Some(s) => Some(s.clone()),
        None => None,
    }
}

/// How one declared state image is prepared: the sentinel value takes the
/// action's resolved default icon; anything else resolves against the
/// plugin directory.
pub open spec fn prepared_image(img: Seq<char>, dir: Seq<char>, resolved_icon: Seq<char>) -> Seq<
    char,
> {
    if img == "actionDefaultImage"@ {
        resolved_icon
    } else {
        spec_join(dir, img)
    }
}

/// How an action's property-inspector path is prepared: its own path when
/// it declares one, else the manifest-wide default, else left empty.
pub open spec fn prepared_pi(pi: Seq<char>, pi_default: Option<String>, dir: Seq<char>) -> Seq<
    char,
> {
    if pi.len() > 0 {
        spec_join(dir, pi)
    } else {
        match pi_default {
            Some(p) => spec_join(dir, p@),
            None => pi,
        }
    }
}

/// Relation: `r` is the declared action `a` prepared for plugin `plugin`
/// living in directory `dir`.
pub open spec fn action_prepared(
    a: ActionDecl,
    r: ActionDecl,
    plugin: Seq<char>,
    dir: Seq<char>,
    pi_default: Option<String>,
) -> bool {
    &&& r.plugin@ == plugin
    &&& r.uuid@ == a.uuid@
    &&& r.icon@ == spec_join(dir, a.icon@)
    &&& r.property_inspector@ == prepared_pi(a.property_inspector@, pi_default, dir)
    &&& r.states@.len() == a.states@.len()
    &&& forall|k: int|
        0 <= k < a.states@.len() ==> (#[trigger] r.states@[k]).image@ == prepared_image(
            a.states@[k].image@,
            dir,
            spec_join(dir, a.icon@),
        )
    &&& r.disable_automatic_states == a.disable_automatic_states
}

/// Prepares one declared action: stamps the owning plugin id, resolves
/// its icon and property-inspector paths against the plugin directory,
/// and substitutes the resolved icon for any state image carrying the
/// use-default sentinel.
pub fn prepare_action(a: &ActionDecl, plugin: &String, dir: &String, pi_default: &Option<String>)
    -> (r: ActionDecl)
    ensures
        action_prepared(*a, r, plugin@, dir@, *pi_default),
{
    let icon = join_path(dir, &a.icon);
    let sentinel = String::from_str("actionDefaultImage");
    let mut states: Vec<StateDecl> = Vec::new();
    let mut k: usize = 0;
    while k < a.states.len()
        invariant
            0 <= k <= a.states@.len(),
            sentinel@ == "actionDefaultImage"@,
            icon@ == spec_join(dir@, a.icon@),
            states@.len() == k,
            forall|j: int|
                0 <= j < k ==> (#[trigger] states@[j]).image@ == prepared_image(
                    a.states@[j].image@,
                    dir@,
                    spec_join(dir@, a.icon@),
                ),
        decreases a.states@.len() - k,
    {
        let st = &a.states[k];
        let image = if st.image == sentinel {
            icon.clone()
        } else {
            join_path(dir, &st.image)
        };
        states.push(StateDecl { image });
        k = k + 1;
    }
    let property_inspector = if !a.property_inspector.as_str().is_empty() {
        join_path(dir, &a.property_inspector)
    } else {
        match pi_default {
            Some(p) => join_path(dir, p),
            None => a.property_inspector.clone(),
        }
    };
    ActionDecl {
        plugin: plugin.clone(),
        uuid: a.uuid.clone(),
        icon,
        property_inspector,
        states,
        disable_automatic_states: a.disable_automatic_states,
    }
}

/// Prepares every action a manifest declares.
pub fn prepare_actions(
    actions: &Vec<ActionDecl>,
    plugin: &String,
    dir: &String,
    pi_default: &Option<String>,
) -> (r: Vec<ActionDecl>)
    ensures
        r@.len() == actions@.len(),
        forall|i: int|
            0 <= i < actions@.len() ==> action_prepared(
                actions@[i],
                #[trigger] r@[i],
                plugin@,
                dir@,
                *pi_default,
            ),
{
    let mut out: Vec<ActionDecl> = Vec::new();
    let mut i: usize = 0;
    while i < actions.len()
        invariant
            0 <= i <= actions@.len(),
            out@.len() == i,
            forall|j: int|
                0 <= j < i ==> action_prepared(
                    actions@[j],
                    #[trigger] out@[j],
                    plugin@,
                    dir@,
                    *pi_default,
                ),
        decreases actions@.len() - i,
    {
        let prepared = prepare_action(&actions[i], plugin, dir, pi_default);
        out.push(prepared);
        i = i + 1;
    }
    out
}

/// One named group of actions offered in the configuration UI.
pub struct CategoryEntry {
    pub name: String,
    pub actions: Vec<ActionDecl>,
}

/// The index of the first category named `name`, or -1.
pub open spec fn find_cat(cs: Seq<CategoryEntry>, name: Seq<char>) -> int
    decreases cs.len(),
{
    if cs.len() == 0 {
        -1
    } else if cs[0].name@ == name {
        0
    } else {
        let r = find_cat(cs.skip(1), name);
        if r == -1 {
            -1
        } else {
            r + 1
        }
    }
}

proof fn lemma_find_cat_at(cs: Seq<CategoryEntry>, name: Seq<char>, i: int)
    requires
        0 <= i < cs.len(),
        cs[i].name@ == name,
        forall|k: int| 0 <= k < i ==> (#[trigger] cs[k]).name@ != name,
    ensures
        find_cat(cs, name) == i,
    decreases i,
{
    if i > 0 {
        let t = cs.skip(1);
        assert(t[i - 1] == cs[i]);
        assert forall|k: int| 0 <= k < i - 1 implies (#[trigger] t[k]).name@ != name by {
            assert(t[k] == cs[k + 1]);
        }
        lemma_find_cat_at(t, name, i - 1);
    }
}

proof fn lemma_find_cat_none(cs: Seq<CategoryEntry>, name: Seq<char>)
    requires
        forall|k: int| 0 <= k < cs.len() ==> (#[trigger] cs[k]).name@ != name,
    ensures
        find_cat(cs, name) == -1,
    decreases cs.len(),
{
    if cs.len() > 0 {
        let t = cs.skip(1);
        assert forall|k: int| 0 <= k < t.len() implies (#[trigger] t[k]).name@ != name by {
            assert(t[k] == cs[k + 1]);
        }
        lemma_find_cat_none(t, name);
    }
}

/// Registers a manifest's prepared actions under its category: appended
/// to the first category of that name, or opening a new category at the
/// end.
pub fn register_category(
    categories: &mut Vec<CategoryEntry>,
    name: String,
    new_actions: Vec<ActionDecl>,
)
    ensures
        find_cat(old(categories)@, name@) == -1 ==> {
            &&& final(categories)@.len() == old(categories)@.len() + 1
            &&& forall|k: int|
                0 <= k < old(categories)@.len() ==> #[trigger] final(categories)@[k] == old(
                    categories,
                )@[k]
            &&& final(categories)@[old(categories)@.len() as int].name == name
            &&& final(categories)@[old(categories)@.len() as int].actions == new_actions
        },
        find_cat(old(categories)@, name@) >= 0 ==> {
            let j = find_cat(old(categories)@, name@);
            &&& final(categories)@.len() == old(categories)@.len()
            &&& forall|k: int|
                0 <= k < old(categories)@.len() && k != j ==> #[trigger] final(categories)@[k]
                    == old(categories)@[k]
            &&& final(categories)@[j].name == old(categories)@[j].name
            &&& final(categories)@[j].actions@ == old(categories)@[j].actions@ + new_actions@
        },
    {
        let ghost cs0 = categories@;
        let mut acts = new_actions;
        let mut i: usize = 0;
        let mut found = false;
        while i < categories.len() && !found
            invariant
                0 <= i <= categories@.len(),
                categories@ == cs0,
                acts == new_actions,
                forall|k: int| 0 <= k < i ==> (#[trigger] cs0[k]).name@ != name@,
                found ==> i < cs0.len() && cs0[i as int].name@ == name@,
            decreases categories@.len() - i, (if found {
                0int
            } else {
                1int
            }),
        {
            if categories[i].name == name {
                found = true;
            } else {
                i = i + 1;
            }
        }
        if found {
            proof {
                lemma_find_cat_at(cs0, name@, i as int);
            }
            let mut entry = categories.remove(i);
            entry.actions.append(&mut acts);
            categories.insert(i, entry);
            proof {
                assert(categories@.len() == cs0.len());
                assert(categories@[i as int].name == cs0[i as int].name);
                assert(categories@[i as int].actions@ == cs0[i as int].actions@ + new_actions@);
                assert(forall|k: int|
                    0 <= k < cs0.len() && k != i ==> #[trigger] categories@[k] == cs0[k]);
            }
        } else {
            proof {
                lemma_find_cat_none(cs0, name@);
            }
            let ghost n0 = name;
            let ghost a0 = acts;
            categories.push(CategoryEntry { name, actions: acts });
            proof {
                assert(categories@.len() == cs0.len() + 1);
                assert(categories@[cs0.len() as int].name == n0);
                assert(categories@[cs0.len() as int].actions == a0);
                assert(forall|k: int| 0 <= k < cs0.len() ==> #[trigger] categories@[k] == cs0[k]);
            }
        }
    }

/// What discovery hands the loader for one plugin directory: the plugin
/// id (its directory name), the directory path, and the manifest if it
/// could be read and parsed.
pub struct PluginEntry {
    pub uuid: String,
    pub dir: String,
    pub manifest: Option<PluginManifest>,
}

/// The outcome of loading one plugin: its prepared actions, its category,
/// and the launch strategy or the per-plugin failure.
pub struct PluginLoad {
    pub uuid: String,
    pub category: String,
    pub actions: Vec<ActionDecl>,
    pub outcome: Result<LaunchPlan, PluginLoadError>,
}

/// Relation: `r` is the load outcome for entry `e` on `platform`; it
/// depends on nothing but that one entry.
pub open spec fn load_rel(e: PluginEntry, r: PluginLoad, platform: Seq<char>) -> bool {
    &&& r.uuid@ == e.uuid@
    &&& match e.manifest {
        None => {
            &&& r.outcome == Err::<LaunchPlan, PluginLoadError>(
                PluginLoadError::ManifestUnreadable,
            )
            &&& r.actions@.len() == 0
            &&& r.category@.len() == 0
        },
        Some(m) => {
            &&& r.category@ == m.category@
            &&& r.actions@.len() == m.actions@.len()
            &&& forall|k: int|
                0 <= k < m.actions@.len() ==> action_prepared(
                    m.actions@[k],
                    #[trigger] r.actions@[k],
                    e.uuid@,
                    e.dir@,
                    m.property_inspector_path,
                )
            &&& r.outcome == spec_resolve(m, platform)
        },
    }
}

/// Loads one plugin: prepares its declared actions and resolves its
/// launch strategy. An unreadable manifest fails only this plugin.
pub fn load_plugin(e: &PluginEntry, platform: &String) -> (r: PluginLoad)
    ensures
        load_rel(*e, r, platform@),
{
    match &e.manifest {
        None => PluginLoad {
            uuid: e.uuid.clone(),
            category: String::new(),
            actions: Vec::new(),
            outcome: Err(PluginLoadError::ManifestUnreadable),
        },
        Some(m) => {
            let actions = prepare_actions(&m.actions, &e.uuid, &e.dir, &m.property_inspector_path);
            let outcome = resolve_launch(m, platform);
            PluginLoad { uuid: e.uuid.clone(), category: m.category.clone(), actions, outcome }
        },
    }
}

/// Law: plugin loading is independent per plugin — each outcome is a
/// function of that plugin's own entry alone, so one plugin that fails to
/// load (an unreadable manifest, no usable executable path) never
/// prevents another from loading.
pub fn discover_plugins(entries: &Vec<PluginEntry>, platform: &String) -> (r: Vec<PluginLoad>)
    ensures
        r@.len() == entries@.len(),
        forall|i: int|
            0 <= i < entries@.len() ==> load_rel(entries@[i], #[trigger] r@[i], platform@),
{
    let mut out: Vec<PluginLoad> = Vec::new();
    let mut i: usize = 0;
    while i < entries.len()
        invariant
            0 <= i <= entries@.len(),
            out@.len() == i,
            forall|j: int|
                0 <= j < i ==> load_rel(entries@[j], #[trigger] out@[j], platform@),
        decreases entries@.len() - i,
    {
        let load = load_plugin(&entries[i], platform);
        out.push(load);
        i = i + 1;
    }
    out
}

} // verus!
