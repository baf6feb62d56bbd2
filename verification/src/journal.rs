//! The install journal: the ordered record of every mutation an install
//! applied, which a later uninstall walks backwards.
use vstd::prelude::*;

verus! {

/// The registry hive a key lives in.
#[derive(Debug, Clone, Copy, PartialEq, Eq, Structural)]
pub enum RegistryRoot {
    Hkcu,
    Hklm,
}

/// The namespaces an uninstall removes wholesale, whatever the journal holds.
#[derive(Debug, Clone, PartialEq, Eq, Default)]
pub struct PurgeSpec {
    pub registry_branches: Vec<String>,
    pub paths: Vec<String>,
}

/// One applied mutation.
#[derive(Debug, Clone, PartialEq, Eq)]
pub enum JournalAction {
    CreateDirectory { path: String },
    CopyFile { source: String, destination: String },
    WriteRegistry { root: RegistryRoot, subkey: String, name: String },
    CreateShortcut { path: String },
    ExecuteScript { command: String, args: Vec<String>, working_directory: Option<String> },
}

/// The mathematical value of a [`JournalAction`].
pub enum ActionView {
    CreateDirectory { path: Seq<char> },
    CopyFile { source: Seq<char>, destination: Seq<char> },
    WriteRegistry { root: RegistryRoot, subkey: Seq<char>, name: Seq<char> },
    CreateShortcut { path: Seq<char> },
    ExecuteScript {
        command: Seq<char>,
        args: Seq<Seq<char>>,
        working_directory: Option<Seq<char>>,
    },
}

/// The view of an optional string.
pub open spec fn opt_view(o: Option<String>) -> Option<Seq<char>> {
    match o {
        Some(s) => Some(s@),
        None => None,
    }
}

impl View for JournalAction {
    type V = ActionView;

    open spec fn view(&self) -> ActionView {
        match self {
            JournalAction::CreateDirectory { path } => ActionView::CreateDirectory { path: path@ },
            JournalAction::CopyFile { source, destination } => ActionView::CopyFile {
                source: source@,
                destination: destination@,
            },
            JournalAction::WriteRegistry { root, subkey, name } => ActionView::WriteRegistry {
                root: *root,
                subkey: subkey@,
                name: name@,
            },
            JournalAction::CreateShortcut { path } => ActionView::CreateShortcut { path: path@ },
            JournalAction::ExecuteScript { command, args, working_directory } =>
                ActionView::ExecuteScript {
                command: command@,
                args: strings_view(args@),
                working_directory: opt_view(*working_directory),
            },
        }
    }
}

/// A copy of an optional string with the same view.
pub fn copy_opt(o: &Option<String>) -> (r: Option<String>)
    ensures
        opt_view(r) == opt_view(*o),
{
    match o {
        Some(s) => Some(s.clone()),
        None => None,
    }
}

/// The views of a list of strings.
pub open spec fn strings_view(v: Seq<String>) -> Seq<Seq<char>> {
    v.map_values(|s: String| s@)
}

/// A copy of a list of strings with the same view.
pub fn copy_strings(v: &Vec<String>) -> (r: Vec<String>)
    ensures
        strings_view(r@) == strings_view(v@),
{
    let mut r: Vec<String> = Vec::new();
    let mut i: usize = 0;
    while i < v.len()
        invariant
            i <= v.len(),
            strings_view(r@) == strings_view(v@.take(i as int)),
            r@.len() == i,
        decreases v.len() - i,
    {
        let c = v[i].clone();
        let ghost prev = r@;
        r.push(c);
        proof {
            assert forall|j: int| 0 <= j < i + 1 implies #[trigger] strings_view(r@)[j]
                == strings_view(v@.take(i + 1))[j] by {
                assert(strings_view(r@)[j] == r@[j]@);
                assert(strings_view(v@.take(i + 1))[j] == v@[j]@);
                if j < i {
                    assert(strings_view(prev)[j] == strings_view(v@.take(i as int))[j]);
                    assert(strings_view(prev)[j] == prev[j]@);
                    assert(r@[j] == prev[j]);
                } else {
                    assert(r@[j] == c);
                }
            }
            assert(strings_view(r@) =~= strings_view(v@.take(i + 1)));
        }
        i = i + 1;
    }
    assert(v@.take(v.len() as int) =~= v@);
    r
}

impl JournalAction {
    /// A copy of the action with the same view.
    pub fn copy(&self) -> (r: JournalAction)
        ensures
            r@ == self@,
    {
        match self {
            JournalAction::CreateDirectory { path } => JournalAction::CreateDirectory {
                path: path.clone(),
            },
            JournalAction::CopyFile { source, destination } => JournalAction::CopyFile {
                source: source.clone(),
                destination: destination.clone(),
            },
            JournalAction::WriteRegistry { root, subkey, name } => JournalAction::WriteRegistry {
                root: *root,
                subkey: subkey.clone(),
                name: name.clone(),
            },
            JournalAction::CreateShortcut { path } => JournalAction::CreateShortcut {
                path: path.clone(),
            },
            JournalAction::ExecuteScript { command, args, working_directory } =>
                JournalAction::ExecuteScript {
                command: command.clone(),
                args: copy_strings(args),
                working_directory: copy_opt(working_directory),
            },
        }
    }
}

/// The views of a list of actions.
pub open spec fn actions_view(v: Seq<JournalAction>) -> Seq<ActionView> {
    v.map_values(|a: JournalAction| a@)
}

/// The record an install leaves behind for its uninstall.
#[derive(Debug, Clone, PartialEq, Eq)]
pub struct Journal {
    pub app_name: String,
    pub manifest_path: Option<String>,
    pub actions: Vec<JournalAction>,
    pub purge: PurgeSpec,
    pub support_contact: Option<String>,
}

/// Collects the actions an install applied, in the order it applied them.
pub struct DeclaredTracker {
    actions: Vec<JournalAction>,
}

impl DeclaredTracker {
    /// The recorded actions, in order.
    pub closed spec fn recorded(&self) -> Seq<ActionView> {
        actions_view(self.actions@)
    }

    /// A tracker with nothing recorded.
    pub fn new() -> (t: Self)
        ensures
            t.recorded() == Seq::<ActionView>::empty(),
    {
        let t = DeclaredTracker { actions: Vec::new() };
        assert(t.recorded() =~= Seq::<ActionView>::empty());
        t
    }

    /// Appends one applied action.
    pub fn record(&mut self, action: JournalAction)
        ensures
            final(self).recorded() == old(self).recorded().push(action@),
    {
        self.actions.push(action);
        assert(self.recorded() =~= old(self).recorded().push(action@));
    }

    /// Number of actions recorded so far.
    pub fn len(&self) -> (n: usize)
        ensures
            n == self.recorded().len(),
    {
        self.actions.len()
    }

    /// Closes the tracker into a journal holding the recorded actions in
    /// order, with the given identity and purge namespaces.
    pub fn finish(
        self,
        app_name: String,
        manifest_path: Option<String>,
        purge: PurgeSpec,
        support_contact: Option<String>,
    ) -> (j: Journal)
        ensures
            actions_view(j.actions@) == self.recorded(),
            j.app_name == app_name,
            j.manifest_path == manifest_path,
            j.purge == purge,
            j.support_contact == support_contact,
    {
        Journal { app_name, manifest_path, actions: self.actions, purge, support_contact }
    }
}

} // verus!
