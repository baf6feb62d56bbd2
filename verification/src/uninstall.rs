//! Uninstall planning: the journal walked backwards into removals, then the
//! purge namespaces, then the Installed Apps registration, and the decisions
//! that close an uninstall.
use vstd::prelude::*;
use crate::error::AppError;
use crate::install::{applied, records_of, InstallOpView, StepView};
use crate::journal::{opt_view, ActionView, Journal, JournalAction, RegistryRoot};
use crate::paths::{parent_chars, parent_of, path_starts_with, path_starts_with_chars};
use crate::registry::{
    parse_registry_key, parsed_key, same_text, uninstall_branch, unsupported_root_text,
};
use crate::resolver::{under_admin_root, PathResolver};
use crate::paths::{powershell_single_quote, ps_quoted};
use crate::text::{
    append_chars, chars_of, decimal, decimal_chars, has_prefix, lower_chars, lower_seq, starts_with,
    string_of, trim_chars, trimmed,
};
use crate::ui::{reboot_notice_text, UiMode};

verus! {

/// One removal an uninstall performs.
#[derive(Debug, Clone, PartialEq, Eq)]
pub enum UninstallOp {
    /// Remove the directory (deferred if it is not empty); when the journal
    /// lies inside it, the journal file is removed first.
    RemoveDirectory { path: String, journal_inside: bool },
    /// Remove the file, or schedule it for removal at reboot.
    RemoveFile { path: String },
    /// Delete the registry key and everything below it.
    DeleteRegistryTree { root: RegistryRoot, subkey: String },
    /// Remove the path and everything below it.
    PurgePath { path: String },
}

/// The mathematical value of an [`UninstallOp`].
pub enum UninstallOpView {
    RemoveDirectory { path: Seq<char>, journal_inside: bool },
    RemoveFile { path: Seq<char> },
    DeleteRegistryTree { root: RegistryRoot, subkey: Seq<char> },
    PurgePath { path: Seq<char> },
}

impl View for UninstallOp {
    type V = UninstallOpView;

    open spec fn view(&self) -> UninstallOpView {
        match self {
            UninstallOp::RemoveDirectory { path, journal_inside } =>
                UninstallOpView::RemoveDirectory { path: path@, journal_inside: *journal_inside },
            UninstallOp::RemoveFile { path } => UninstallOpView::RemoveFile { path: path@ },
            UninstallOp::DeleteRegistryTree { root, subkey } => UninstallOpView::DeleteRegistryTree {
                root: *root,
                subkey: subkey@,
            },
            UninstallOp::PurgePath { path } => UninstallOpView::PurgePath { path: path@ },
        }
    }
}

/// One step of an uninstall: the progress text and the removal.
#[derive(Debug, Clone, PartialEq, Eq)]
pub struct UninstallStep {
    pub message: String,
    pub op: UninstallOp,
}

/// The (message, removal) value of a step.
pub type UStepView = (Seq<char>, UninstallOpView);

/// The views of a list of steps.
pub open spec fn usteps_view(v: Seq<UninstallStep>) -> Seq<UStepView> {
    v.map_values(|s: UninstallStep| (s.message@, s.op@))
}

/// The removals an uninstall performs, the error it stops with after them
/// when a purge branch is unsupported, and the running uninstaller's own
/// file when the journal copied it (removed later by a cleanup helper).
#[derive(Debug, Clone, PartialEq, Eq)]
pub struct UninstallPlan {
    pub steps: Vec<UninstallStep>,
    pub failure: Option<AppError>,
    pub self_delete: Option<String>,
}

/// Whether the action at `i` copied the running executable (flags beyond
/// the list count as no).
pub open spec fn flag(flags: Seq<bool>, i: int) -> bool {
    0 <= i < flags.len() && flags[i]
}

/// The removal that undoes one journal action, if it is undone in place:
/// directories, files and shortcuts are removed, registry writes deleted;
/// a copy of the running executable, Installed Apps writes and scripts are
/// handled elsewhere or not at all.
pub open spec fn undo_of(a: ActionView, is_self: bool, journal_path: Seq<char>) -> Seq<UStepView> {
    match a {
        ActionView::CreateDirectory { path } => seq![
            (
                "Removing directory "@ + path,
                UninstallOpView::RemoveDirectory {
                    path,
                    journal_inside: path_starts_with(journal_path, path),
                },
            ),
        ],
        ActionView::CopyFile { destination, .. } => if is_self {
            seq![]
        } else {
            seq![("Removing file "@ + destination, UninstallOpView::RemoveFile { path: destination })]
        },
        ActionView::WriteRegistry { root, subkey, .. } => if starts_with(subkey, uninstall_branch()) {
            seq![]
        } else {
            seq![
                (
                    "Removing registry branch "@ + subkey,
                    UninstallOpView::DeleteRegistryTree { root, subkey },
                ),
            ]
        },
        ActionView::CreateShortcut { path } => seq![
            ("Removing shortcut "@ + path, UninstallOpView::RemoveFile { path }),
        ],
        ActionView::ExecuteScript { .. } => seq![],
    }
}

/// The in-place removals for the actions from `i` on, last action first.
pub open spec fn undo_from(
    actions: Seq<ActionView>,
    flags: Seq<bool>,
    journal_path: Seq<char>,
    i: int,
) -> Seq<UStepView>
    decreases actions.len() - i,
{
    if i < 0 || i >= actions.len() {
        seq![]
    } else {
        undo_from(actions, flags, journal_path, i + 1) + undo_of(
            actions[i],
            flag(flags, i),
            journal_path,
        )
    }
}

/// The in-place removals for all actions, last action first.
pub open spec fn undo_steps(actions: Seq<ActionView>, flags: Seq<bool>, journal_path: Seq<char>) -> Seq<
    UStepView,
> {
    undo_from(actions, flags, journal_path, 0)
}

/// `l` with `x` appended unless it already holds it.
pub open spec fn dedup_push<T>(l: Seq<T>, x: T) -> Seq<T> {
    if l.contains(x) {
        l
    } else {
        l.push(x)
    }
}

/// The Installed Apps branches written by the actions from `i` on, each
/// once, in the order a backwards walk meets them.
pub open spec fn deferred_from(actions: Seq<ActionView>, i: int) -> Seq<(RegistryRoot, Seq<char>)>
    decreases actions.len() - i,
{
    if i < 0 || i >= actions.len() {
        seq![]
    } else {
        let prev = deferred_from(actions, i + 1);
        match actions[i] {
            ActionView::WriteRegistry { root, subkey, .. } => if starts_with(
                subkey,
                uninstall_branch(),
            ) {
                dedup_push(prev, (root, subkey))
            } else {
                prev
            },
            _ => prev,
        }
    }
}

/// The earliest copy of the running executable among the actions from `i` on.
pub open spec fn self_from(actions: Seq<ActionView>, flags: Seq<bool>, i: int) -> Option<Seq<char>>
    decreases actions.len() - i,
{
    if i < 0 || i >= actions.len() {
        None
    } else {
        match actions[i] {
            ActionView::CopyFile { destination, .. } => if flag(flags, i) {
                Some(destination)
            } else {
                self_from(actions, flags, i + 1)
            },
            _ => self_from(actions, flags, i + 1),
        }
    }
}

/// Index of the first unsupported purge branch, or the number of branches.
pub open spec fn first_bad_branch(branches: Seq<String>, from: int) -> int
    decreases branches.len() - from,
{
    if from < 0 || from >= branches.len() {
        branches.len() as int
    } else if parsed_key(branches[from]@) is None {
        from
    } else {
        first_bad_branch(branches, from + 1)
    }
}

/// The steps that purge the first `n` registry branches (which parse).
pub open spec fn branch_steps(branches: Seq<String>, n: nat) -> Seq<UStepView>
    decreases n,
{
    if n == 0 {
        seq![]
    } else {
        let b = branches[n - 1]@;
        let (root, subkey) = parsed_key(b).unwrap();
        branch_steps(branches, (n - 1) as nat).push(
            ("Purging registry branch "@ + b, UninstallOpView::DeleteRegistryTree { root, subkey }),
        )
    }
}

/// The steps that purge the first `n` paths, resolved.
pub open spec fn path_steps(paths: Seq<String>, r: PathResolver, n: nat) -> Seq<UStepView>
    decreases n,
{
    if n == 0 {
        seq![]
    } else {
        let p = r.resolve_spec(paths[n - 1]@);
        path_steps(paths, r, (n - 1) as nat).push(
            ("Purging path "@ + p, UninstallOpView::PurgePath { path: p }),
        )
    }
}

/// The steps that remove the Installed Apps registrations.
pub open spec fn registration_steps(regs: Seq<(RegistryRoot, Seq<char>)>) -> Seq<UStepView>
    decreases regs.len(),
{
    if regs.len() == 0 {
        seq![]
    } else {
        let (root, subkey) = regs.last();
        registration_steps(regs.drop_last()).push(
            (
                "Removing uninstall registration "@ + subkey,
                UninstallOpView::DeleteRegistryTree { root, subkey },
            ),
        )
    }
}

/// The whole plan: the journal's actions undone last-first, the purge
/// branches and paths, then the Installed Apps registration. An unsupported
/// purge branch ends the plan just before its step, with that branch's
/// rejection as the failure.
pub open spec fn uninstall_plan_matches(
    plan: UninstallPlan,
    actions: Seq<ActionView>,
    flags: Seq<bool>,
    journal_path: Seq<char>,
    branches: Seq<String>,
    paths: Seq<String>,
    r: PathResolver,
) -> bool {
    let head = undo_steps(actions, flags, journal_path);
    let k = first_bad_branch(branches, 0);
    &&& opt_view(plan.self_delete) == self_from(actions, flags, 0)
    &&& k < branches.len() ==> usteps_view(plan.steps@) == head + branch_steps(branches, k as nat)
    &&& k < branches.len() ==> (plan.failure matches Some(AppError::Message(t)) && t@
        == unsupported_root_text(branches[k]@))
    &&& k >= branches.len() ==> usteps_view(plan.steps@) == head + branch_steps(
        branches,
        branches.len(),
    ) + path_steps(paths, r, paths.len()) + registration_steps(deferred_from(actions, 0))
    &&& k >= branches.len() ==> plan.failure is None
}

fn push_ustep(out: &mut Vec<UninstallStep>, message: Vec<char>, op: UninstallOp)
    ensures
        usteps_view(final(out)@) == usteps_view(old(out)@).push((message@, op@)),
{
    out.push(UninstallStep { message: string_of(message.as_slice()), op });
    assert(usteps_view(out@) =~= usteps_view(old(out)@).push((message@, op@)));
}

fn text_with(prefix: &str, tail: &String) -> (r: Vec<char>)
    ensures
        r@ == prefix@ + tail@,
{
    let mut m = chars_of(prefix);
    let t = chars_of(tail.as_str());
    append_chars(&mut m, &t);
    m
}

fn contains_branch(list: &Vec<(RegistryRoot, String)>, root: RegistryRoot, subkey: &String) -> (r:
    bool)
    ensures
        r == crate::registry::branches_view(list@).contains((root, subkey@)),
{
    let mut i: usize = 0;
    while i < list.len()
        invariant
            i <= list.len(),
            forall|j: int|
                0 <= j < i ==> #[trigger] crate::registry::branches_view(list@)[j] != (
                    root,
                    subkey@,
                ),
        decreases list.len() - i,
    {
        if list[i].0 == root && same_text(&list[i].1, subkey) {
            assert(crate::registry::branches_view(list@)[i as int] == (root, subkey@));
            return true;
        }
        i = i + 1;
    }
    false
}

/// Plans the uninstall of a journal stored at `journal_path`. `self_flags[i]`
/// tells whether action `i`'s copy destination is the running executable,
/// which cannot delete itself and is left to a cleanup helper.
pub fn plan_uninstall(
    journal: &Journal,
    journal_path: &str,
    self_flags: &Vec<bool>,
    resolver: &PathResolver,
) -> (plan: UninstallPlan)
    ensures
        uninstall_plan_matches(
            plan,
            crate::journal::actions_view(journal.actions@),
            self_flags@,
            journal_path@,
            journal.purge.registry_branches@,
            journal.purge.paths@,
            *resolver,
        ),
{
    let ghost actions = crate::journal::actions_view(journal.actions@);
    let jp = chars_of(journal_path);
    let mut steps: Vec<UninstallStep> = Vec::new();
    let mut deferred: Vec<(RegistryRoot, String)> = Vec::new();
    let mut self_delete: Option<String> = None;
    let n = journal.actions.len();
    let mut i: usize = n;
    assert(usteps_view(steps@) =~= Seq::<UStepView>::empty());
    assert(crate::registry::branches_view(deferred@) =~= Seq::<(RegistryRoot, Seq<char>)>::empty());
    while i > 0
        invariant
            i <= n,
            n == journal.actions@.len(),
            actions == crate::journal::actions_view(journal.actions@),
            jp@ == journal_path@,
            usteps_view(steps@) == undo_from(actions, self_flags@, journal_path@, i as int),
            crate::registry::branches_view(deferred@) == deferred_from(actions, i as int),
            opt_view(self_delete) == self_from(actions, self_flags@, i as int),
        decreases i,
    {
        i = i - 1;
        let is_self = i < self_flags.len() && self_flags[i];
        assert(is_self == flag(self_flags@, i as int));
        let ghost before = usteps_view(steps@);
        assert(actions[i as int] == journal.actions@[i as int]@);
        match &journal.actions[i] {
            JournalAction::CreateDirectory { path } => {
                let pv = chars_of(path.as_str());
                let inside = path_starts_with_chars(&jp, &pv);
                let msg = text_with("Removing directory ", path);
                push_ustep(
                    &mut steps,
                    msg,
                    UninstallOp::RemoveDirectory { path: path.clone(), journal_inside: inside },
                );
            },
            JournalAction::CopyFile { destination, .. } => {
                if is_self {
                    self_delete = Some(destination.clone());
                } else {
                    let msg = text_with("Removing file ", destination);
                    push_ustep(&mut steps, msg, UninstallOp::RemoveFile { path: destination.clone() });
                }
            },
            JournalAction::WriteRegistry { root, subkey, .. } => {
                if crate::registry::is_uninstall_registry_key(subkey.as_str()) {
                    let ghost dv = crate::registry::branches_view(deferred@);
                    if !contains_branch(&deferred, *root, subkey) {
                        deferred.push((*root, subkey.clone()));
                        assert(crate::registry::branches_view(deferred@) =~= dv.push(
                            (*root, subkey@),
                        ));
                    }
                } else {
                    let msg = text_with("Removing registry branch ", subkey);
                    push_ustep(
                        &mut steps,
                        msg,
                        UninstallOp::DeleteRegistryTree { root: *root, subkey: subkey.clone() },
                    );
                }
            },
            JournalAction::CreateShortcut { path } => {
                let msg = text_with("Removing shortcut ", path);
                push_ustep(&mut steps, msg, UninstallOp::RemoveFile { path: path.clone() });
            },
            JournalAction::ExecuteScript { .. } => {},
        }
        assert(usteps_view(steps@) =~= undo_from(actions, self_flags@, journal_path@, i as int));
    }
    let ghost head = usteps_view(steps@);
    let branches = &journal.purge.registry_branches;
    let mut b: usize = 0;
    while b < branches.len()
        invariant
            b <= branches.len(),
            branches@ == journal.purge.registry_branches@,
            head == undo_steps(actions, self_flags@, journal_path@),
            actions == crate::journal::actions_view(journal.actions@),
            opt_view(self_delete) == self_from(actions, self_flags@, 0),
            first_bad_branch(branches@, 0) == first_bad_branch(branches@, b as int),
            usteps_view(steps@) == head + branch_steps(branches@, b as nat),
        decreases branches.len() - b,
    {
        match parse_registry_key(branches[b].as_str()) {
            Err(err) => {
                assert(first_bad_branch(branches@, b as int) == b);
                let plan = UninstallPlan { steps, failure: Some(err), self_delete };
                return plan;
            },
            Ok((root, subkey)) => {
                let msg = text_with("Purging registry branch ", &branches[b]);
                push_ustep(&mut steps, msg, UninstallOp::DeleteRegistryTree { root, subkey });
                b = b + 1;
                assert(usteps_view(steps@) =~= head + branch_steps(branches@, b as nat));
            },
        }
    }
    let ghost after_branches = usteps_view(steps@);
    assert(branches@.skip(b as int) =~= Seq::<String>::empty());
    let paths = &journal.purge.paths;
    let mut p: usize = 0;
    while p < paths.len()
        invariant
            p <= paths.len(),
            paths@ == journal.purge.paths@,
            usteps_view(steps@) == after_branches + path_steps(paths@, *resolver, p as nat),
        decreases paths.len() - p,
    {
        let resolved = resolver.resolve(paths[p].as_str());
        let msg = text_with("Purging path ", &resolved);
        push_ustep(&mut steps, msg, UninstallOp::PurgePath { path: resolved });
        p = p + 1;
        assert(usteps_view(steps@) =~= after_branches + path_steps(paths@, *resolver, p as nat));
    }
    let ghost after_paths = usteps_view(steps@);
    let mut d: usize = 0;
    while d < deferred.len()
        invariant
            d <= deferred.len(),
            usteps_view(steps@) == after_paths + registration_steps(
                crate::registry::branches_view(deferred@).take(d as int),
            ),
        decreases deferred.len() - d,
    {
        let msg = text_with("Removing uninstall registration ", &deferred[d].1);
        push_ustep(
            &mut steps,
            msg,
            UninstallOp::DeleteRegistryTree { root: deferred[d].0, subkey: deferred[d].1.clone() },
        );
        d = d + 1;
        assert(crate::registry::branches_view(deferred@).take(d as int).drop_last()
            =~= crate::registry::branches_view(deferred@).take(d - 1));
        assert(usteps_view(steps@) =~= after_paths + registration_steps(
            crate::registry::branches_view(deferred@).take(d as int),
        ));
    }
    assert(crate::registry::branches_view(deferred@).take(deferred.len() as int)
        =~= crate::registry::branches_view(deferred@));
    UninstallPlan { steps, failure: None, self_delete }
}


/// Some step performs the removal `op`.
pub open spec fn has_op(steps: Seq<UStepView>, op: UninstallOpView) -> bool {
    exists|j: int| 0 <= j < steps.len() && (#[trigger] steps[j]).1 == op
}

proof fn lemma_has_op_concat(x: Seq<UStepView>, y: Seq<UStepView>, op: UninstallOpView)
    ensures
        has_op(x, op) ==> has_op(x + y, op),
        has_op(y, op) ==> has_op(x + y, op),
{
    if has_op(x, op) {
        let j = choose|j: int| 0 <= j < x.len() && (#[trigger] x[j]).1 == op;
        assert((x + y)[j] == x[j]);
    }
    if has_op(y, op) {
        let j = choose|j: int| 0 <= j < y.len() && (#[trigger] y[j]).1 == op;
        assert((x + y)[x.len() + j] == y[j]);
    }
}

proof fn lemma_undo_from_split(
    a: Seq<ActionView>,
    fa: Seq<bool>,
    b: Seq<ActionView>,
    fb: Seq<bool>,
    jp: Seq<char>,
    j: int,
)
    requires
        fa.len() == a.len(),
        0 <= j <= b.len(),
    ensures
        undo_from(a + b, fa + fb, jp, a.len() + j) == undo_from(b, fb, jp, j),
    decreases b.len() - j,
{
    if j < b.len() {
        lemma_undo_from_split(a, fa, b, fb, jp, j + 1);
        assert((a + b)[a.len() + j] == b[j]);
        assert(flag(fa + fb, a.len() + j) == flag(fb, j));
    }
}

proof fn lemma_undo_from_prefix(
    a: Seq<ActionView>,
    fa: Seq<bool>,
    b: Seq<ActionView>,
    fb: Seq<bool>,
    jp: Seq<char>,
    i: int,
)
    requires
        fa.len() == a.len(),
        0 <= i <= a.len(),
    ensures
        undo_from(a + b, fa + fb, jp, i) == undo_steps(b, fb, jp) + undo_from(a, fa, jp, i),
    decreases a.len() - i,
{
    if i == a.len() {
        lemma_undo_from_split(a, fa, b, fb, jp, 0);
        assert(undo_from(a, fa, jp, i) == Seq::<UStepView>::empty());
        assert(undo_steps(b, fb, jp) + Seq::<UStepView>::empty() == undo_steps(b, fb, jp));
    } else {
        lemma_undo_from_prefix(a, fa, b, fb, jp, i + 1);
        assert((a + b)[i] == a[i]);
        assert(flag(fa + fb, i) == flag(fa, i));
        assert(undo_from(a + b, fa + fb, jp, i) == undo_from(a + b, fa + fb, jp, i + 1) + undo_of(
            a[i],
            flag(fa, i),
            jp,
        ));
    }
}

/// Uninstalling undoes later mutations first: the removals for a journal
/// `a` followed by `b` are those for `b`, then those for `a`.
pub proof fn law_undo_reverses_order(
    a: Seq<ActionView>,
    fa: Seq<bool>,
    b: Seq<ActionView>,
    fb: Seq<bool>,
    journal_path: Seq<char>,
)
    requires
        fa.len() == a.len(),
    ensures
        undo_steps(a + b, fa + fb, journal_path) == undo_steps(b, fb, journal_path) + undo_steps(
            a,
            fa,
            journal_path,
        ),
{
    lemma_undo_from_prefix(a, fa, b, fb, journal_path, 0);
}

proof fn lemma_undo_from_covers(
    actions: Seq<ActionView>,
    flags: Seq<bool>,
    jp: Seq<char>,
    i0: int,
    i: int,
    op: UninstallOpView,
)
    requires
        0 <= i0 <= i < actions.len(),
        has_op(undo_of(actions[i], flag(flags, i), jp), op),
    ensures
        has_op(undo_from(actions, flags, jp, i0), op),
    decreases i - i0,
{
    if i0 < i {
        lemma_undo_from_covers(actions, flags, jp, i0 + 1, i, op);
    }
    lemma_has_op_concat(
        undo_from(actions, flags, jp, i0 + 1),
        undo_of(actions[i0], flag(flags, i0), jp),
        op,
    );
}

proof fn lemma_deferred_keeps(actions: Seq<ActionView>, i0: int, i: int, x: (RegistryRoot, Seq<char>))
    requires
        0 <= i0 <= i < actions.len(),
        actions[i] matches ActionView::WriteRegistry { root, subkey, .. } && x == (root, subkey)
            && starts_with(subkey, uninstall_branch()),
    ensures
        deferred_from(actions, i0).contains(x),
    decreases i - i0,
{
    if i0 < i {
        lemma_deferred_keeps(actions, i0 + 1, i, x);
        let prev = deferred_from(actions, i0 + 1);
        let j = choose|j: int| 0 <= j < prev.len() && prev[j] == x;
        match actions[i0] {
            ActionView::WriteRegistry { root, subkey, .. } => {
                if starts_with(subkey, uninstall_branch()) && !prev.contains((root, subkey)) {
                    assert(prev.push((root, subkey))[j] == x);
                }
            },
            _ => {},
        }
    } else {
        let prev = deferred_from(actions, i0 + 1);
        if !prev.contains(x) {
            assert(prev.push(x)[prev.len() as int] == x);
        }
    }
}

proof fn lemma_registration_covers(regs: Seq<(RegistryRoot, Seq<char>)>, x: (RegistryRoot, Seq<char>))
    requires
        regs.contains(x),
    ensures
        has_op(registration_steps(regs), UninstallOpView::DeleteRegistryTree { root: x.0, subkey: x.1 }),
    decreases regs.len(),
{
    let steps = registration_steps(regs);
    let op = UninstallOpView::DeleteRegistryTree { root: x.0, subkey: x.1 };
    if regs.last() == x {
        assert(steps[steps.len() - 1].1 == op);
    } else {
        let j = choose|j: int| 0 <= j < regs.len() && regs[j] == x;
        assert(regs.drop_last()[j] == x);
        lemma_registration_covers(regs.drop_last(), x);
        lemma_has_op_concat(registration_steps(regs.drop_last()), seq![steps.last()], op);
        assert(steps == registration_steps(regs.drop_last()) + seq![steps.last()]);
    }
}

proof fn lemma_branch_steps_cover(branches: Seq<String>, n: nat, b: int)
    requires
        0 <= b < n <= branches.len(),
        forall|i: int| 0 <= i < n ==> #[trigger] parsed_key(branches[i]@) is Some,
    ensures
        has_op(
            branch_steps(branches, n),
            UninstallOpView::DeleteRegistryTree {
                root: parsed_key(branches[b]@).unwrap().0,
                subkey: parsed_key(branches[b]@).unwrap().1,
            },
        ),
    decreases n,
{
    let steps = branch_steps(branches, n);
    if b == n - 1 {
        assert(steps[steps.len() - 1].1 == UninstallOpView::DeleteRegistryTree {
            root: parsed_key(branches[b]@).unwrap().0,
            subkey: parsed_key(branches[b]@).unwrap().1,
        });
    } else {
        lemma_branch_steps_cover(branches, (n - 1) as nat, b);
        let prev = branch_steps(branches, (n - 1) as nat);
        let j = choose|j: int|
            0 <= j < prev.len() && (#[trigger] prev[j]).1 == UninstallOpView::DeleteRegistryTree {
                root: parsed_key(branches[b]@).unwrap().0,
                subkey: parsed_key(branches[b]@).unwrap().1,
            };
        assert(steps[j] == prev[j]);
    }
}

proof fn lemma_path_steps_cover(paths: Seq<String>, r: PathResolver, n: nat, p: int)
    requires
        0 <= p < n <= paths.len(),
    ensures
        has_op(path_steps(paths, r, n), UninstallOpView::PurgePath { path: r.resolve_spec(paths[p]@) }),
    decreases n,
{
    let steps = path_steps(paths, r, n);
    let op = UninstallOpView::PurgePath { path: r.resolve_spec(paths[p]@) };
    if p == n - 1 {
        assert(steps[steps.len() - 1].1 == op);
    } else {
        lemma_path_steps_cover(paths, r, (n - 1) as nat, p);
        let prev = path_steps(paths, r, (n - 1) as nat);
        let j = choose|j: int| 0 <= j < prev.len() && (#[trigger] prev[j]).1 == op;
        assert(steps[j] == prev[j]);
    }
}

proof fn lemma_first_bad_branch(branches: Seq<String>, from: int)
    requires
        0 <= from <= branches.len(),
        first_bad_branch(branches, from) >= branches.len(),
    ensures
        forall|i: int| from <= i < branches.len() ==> #[trigger] parsed_key(branches[i]@) is Some,
    decreases branches.len() - from,
{
    if from < branches.len() {
        lemma_first_bad_branch(branches, from + 1);
    }
}

/// What undoing one journal action means for a completed uninstall plan.
pub open spec fn action_undone(
    steps: Seq<UStepView>,
    self_target: Option<Seq<char>>,
    a: ActionView,
    is_self: bool,
    journal_path: Seq<char>,
) -> bool {
    match a {
        ActionView::CreateDirectory { path } => has_op(
            steps,
            UninstallOpView::RemoveDirectory {
                path,
                journal_inside: path_starts_with(journal_path, path),
            },
        ),
        ActionView::CopyFile { destination, .. } => if is_self {
            self_target is Some
        } else {
            has_op(steps, UninstallOpView::RemoveFile { path: destination })
        },
        ActionView::WriteRegistry { root, subkey, .. } => has_op(
            steps,
            UninstallOpView::DeleteRegistryTree { root, subkey },
        ),
        ActionView::CreateShortcut { path } => has_op(steps, UninstallOpView::RemoveFile { path }),
        ActionView::ExecuteScript { .. } => true,
    }
}

proof fn lemma_self_target_found(actions: Seq<ActionView>, flags: Seq<bool>, i0: int, i: int)
    requires
        0 <= i0 <= i < actions.len(),
        actions[i] is CopyFile,
        flag(flags, i),
    ensures
        self_from(actions, flags, i0) is Some,
    decreases i - i0,
{
    if i0 < i {
        lemma_self_target_found(actions, flags, i0 + 1, i);
    }
}

/// A completed uninstall undoes everything the journal recorded and purges
/// every declared namespace: each created directory, copied file and
/// shortcut is removed (the running uninstaller's own copy is left to the
/// cleanup helper), each registry write's key is deleted, and each purge
/// branch and path is removed.
pub proof fn law_uninstall_undoes_journal(
    plan: UninstallPlan,
    actions: Seq<ActionView>,
    flags: Seq<bool>,
    journal_path: Seq<char>,
    branches: Seq<String>,
    paths: Seq<String>,
    r: PathResolver,
)
    requires
        uninstall_plan_matches(plan, actions, flags, journal_path, branches, paths, r),
        plan.failure is None,
    ensures
        forall|i: int|
            0 <= i < actions.len() ==> action_undone(
                usteps_view(plan.steps@),
                opt_view(plan.self_delete),
                #[trigger] actions[i],
                flag(flags, i),
                journal_path,
            ),
        forall|b: int|
            0 <= b < branches.len() ==> (parsed_key(#[trigger] branches[b]@) matches Some(
                (root, subkey),
            ) && has_op(
                usteps_view(plan.steps@),
                UninstallOpView::DeleteRegistryTree { root, subkey },
            )),
        forall|p: int|
            0 <= p < paths.len() ==> has_op(
                usteps_view(plan.steps@),
                UninstallOpView::PurgePath { path: r.resolve_spec(#[trigger] paths[p]@) },
            ),
{
    let steps = usteps_view(plan.steps@);
    let head = undo_steps(actions, flags, journal_path);
    let bs = branch_steps(branches, branches.len());
    let ps = path_steps(paths, r, paths.len());
    let rs = registration_steps(deferred_from(actions, 0));
    assert(first_bad_branch(branches, 0) >= branches.len());
    assert(steps == head + bs + ps + rs);
    lemma_first_bad_branch(branches, 0);
    assert forall|i: int| 0 <= i < actions.len() implies action_undone(
        steps,
        opt_view(plan.self_delete),
        #[trigger] actions[i],
        flag(flags, i),
        journal_path,
    ) by {
        let u = undo_of(actions[i], flag(flags, i), journal_path);
        match actions[i] {
            ActionView::WriteRegistry { root, subkey, .. } => {
                let op = UninstallOpView::DeleteRegistryTree { root, subkey };
                if starts_with(subkey, uninstall_branch()) {
                    lemma_deferred_keeps(actions, 0, i, (root, subkey));
                    lemma_registration_covers(deferred_from(actions, 0), (root, subkey));
                    lemma_has_op_concat(head + bs + ps, rs, op);
                } else {
                    assert(u[0].1 == op);
                    lemma_undo_from_covers(actions, flags, journal_path, 0, i, op);
                    lemma_has_op_concat(head, bs, op);
                    lemma_has_op_concat(head + bs, ps, op);
                    lemma_has_op_concat(head + bs + ps, rs, op);
                }
            },
            ActionView::CopyFile { destination, .. } => {
                if flag(flags, i) {
                    lemma_self_target_found(actions, flags, 0, i);
                } else {
                    let op = UninstallOpView::RemoveFile { path: destination };
                    assert(u[0].1 == op);
                    lemma_undo_from_covers(actions, flags, journal_path, 0, i, op);
                    lemma_has_op_concat(head, bs, op);
                    lemma_has_op_concat(head + bs, ps, op);
                    lemma_has_op_concat(head + bs + ps, rs, op);
                }
            },
            ActionView::ExecuteScript { .. } => {},
            _ => {
                let op = u[0].1;
                assert(has_op(u, op));
                lemma_undo_from_covers(actions, flags, journal_path, 0, i, op);
                lemma_has_op_concat(head, bs, op);
                lemma_has_op_concat(head + bs, ps, op);
                lemma_has_op_concat(head + bs + ps, rs, op);
            },
        }
    }
    assert forall|b: int| 0 <= b < branches.len() implies (parsed_key(#[trigger] branches[b]@) matches Some(
        (root, subkey),
    ) && has_op(steps, UninstallOpView::DeleteRegistryTree { root, subkey })) by {
        lemma_branch_steps_cover(branches, branches.len(), b);
        let op = UninstallOpView::DeleteRegistryTree {
            root: parsed_key(branches[b]@).unwrap().0,
            subkey: parsed_key(branches[b]@).unwrap().1,
        };
        lemma_has_op_concat(head, bs, op);
        lemma_has_op_concat(head + bs, ps, op);
        lemma_has_op_concat(head + bs + ps, rs, op);
    }
    assert forall|p: int| 0 <= p < paths.len() implies has_op(
        steps,
        UninstallOpView::PurgePath { path: r.resolve_spec(#[trigger] paths[p]@) },
    ) by {
        lemma_path_steps_cover(paths, r, paths.len(), p);
        let op = UninstallOpView::PurgePath { path: r.resolve_spec(paths[p]@) };
        lemma_has_op_concat(head + bs, ps, op);
        lemma_has_op_concat(head + bs + ps, rs, op);
    }
}

/// Whether undoing the action touches what only an administrator may: a
/// directory, copied file or shortcut at or below an administrator root, or
/// an HKLM key.
pub open spec fn action_needs_admin(a: ActionView, roots: Seq<Seq<char>>) -> bool {
    match a {
        ActionView::CreateDirectory { path } => under_admin_root(roots, path),
        ActionView::CopyFile { destination, .. } => under_admin_root(roots, destination),
        ActionView::CreateShortcut { path } => under_admin_root(roots, path),
        ActionView::WriteRegistry { root, .. } => root == RegistryRoot::Hklm,
        ActionView::ExecuteScript { .. } => false,
    }
}

/// Scans purge branches in order for the first one that is unparsable or
/// under HKLM: the former is an error, the latter needs administrator rights.
pub open spec fn branch_admin_scan(branches: Seq<String>) -> Result<bool, Seq<char>>
    decreases branches.len(),
{
    if branches.len() == 0 {
        Ok(false)
    } else {
        match parsed_key(branches[0]@) {
            None => Err(unsupported_root_text(branches[0]@)),
            Some((RegistryRoot::Hklm, _)) => Ok(true),
            Some((RegistryRoot::Hkcu, _)) => branch_admin_scan(branches.skip(1)),
        }
    }
}

/// Some purge path resolves at or below an administrator root.
pub open spec fn purge_paths_need_admin(paths: Seq<String>, r: PathResolver) -> bool {
    exists|i: int|
        0 <= i < paths.len() && under_admin_root(r.roots(), r.resolve_spec(#[trigger] paths[i]@))
}

/// Whether uninstalling the journal needs administrator rights, or the text
/// of the error met while deciding: the actions are looked at first, then
/// the purge branches in order, then the purge paths.
pub open spec fn journal_admin_answer(j: Journal, r: PathResolver) -> Result<bool, Seq<char>> {
    let actions = crate::journal::actions_view(j.actions@);
    if exists|i: int| 0 <= i < actions.len() && action_needs_admin(#[trigger] actions[i], r.roots()) {
        Ok(true)
    } else {
        match branch_admin_scan(j.purge.registry_branches@) {
            Ok(true) => Ok(true),
            Ok(false) => Ok(purge_paths_need_admin(j.purge.paths@, r)),
            Err(t) => Err(t),
        }
    }
}

/// A journal action under administrator control, stated on the action: a
/// created directory, copied file or shortcut at or below an
/// administrator root, or a registry write under HKLM.
pub open spec fn admin_controlled(a: JournalAction, r: PathResolver) -> bool {
    match a {
        JournalAction::CreateDirectory { path } => under_admin_root(r.roots(), path@),
        JournalAction::CopyFile { destination, .. } => under_admin_root(r.roots(), destination@),
        JournalAction::CreateShortcut { path } => under_admin_root(r.roots(), path@),
        JournalAction::WriteRegistry { root, .. } => root == RegistryRoot::Hklm,
        JournalAction::ExecuteScript { .. } => false,
    }
}

proof fn lemma_scan_all_hkcu(bs: Seq<String>)
    requires
        forall|i: int| 0 <= i < bs.len() ==> (#[trigger] parsed_key(bs[i]@) matches Some(
            (RegistryRoot::Hkcu, _),
        )),
    ensures
        branch_admin_scan(bs) == Ok::<bool, Seq<char>>(false),
    decreases bs.len(),
{
    if bs.len() > 0 {
        assert forall|i: int| 0 <= i < bs.skip(1).len() implies (#[trigger] parsed_key(
            bs.skip(1)[i]@,
        ) matches Some((RegistryRoot::Hkcu, _))) by {
            assert(bs.skip(1)[i] == bs[i + 1]);
        }
        assert(parsed_key(bs[0]@) matches Some((RegistryRoot::Hkcu, _)));
        lemma_scan_all_hkcu(bs.skip(1));
    }
}

proof fn lemma_scan_finds_hklm(bs: Seq<String>, k: int)
    requires
        0 <= k < bs.len(),
        forall|i: int| 0 <= i < k ==> (#[trigger] parsed_key(bs[i]@) matches Some(
            (RegistryRoot::Hkcu, _),
        )),
        parsed_key(bs[k]@) matches Some((RegistryRoot::Hklm, _)),
    ensures
        branch_admin_scan(bs) == Ok::<bool, Seq<char>>(true),
    decreases k,
{
    if k > 0 {
        assert(parsed_key(bs[0]@) matches Some((RegistryRoot::Hkcu, _)));
        assert forall|i: int| 0 <= i < k - 1 implies (#[trigger] parsed_key(bs.skip(1)[i]@) matches Some(
            (RegistryRoot::Hkcu, _),
        )) by {
            assert(bs.skip(1)[i] == bs[i + 1]);
        }
        assert(bs.skip(1)[k - 1] == bs[k]);
        lemma_scan_finds_hklm(bs.skip(1), k - 1);
    }
}

/// Whether an uninstall needs administrator rights, stated on the journal:
/// any action under administrator control (an HKLM registry write, or a
/// directory, file or shortcut at or below an administrator root) needs
/// them, as does an HKLM purge branch after HKCU ones; a journal with no
/// such action, only HKCU purge branches and no purge path at or below an
/// administrator root does not.
pub proof fn law_journal_admin_rules(j: Journal, r: PathResolver)
    ensures
        (exists|i: int| 0 <= i < j.actions@.len() && admin_controlled(#[trigger] j.actions@[i], r))
            ==> journal_admin_answer(j, r) == Ok::<bool, Seq<char>>(true),
        (exists|k: int|
            0 <= k < j.purge.registry_branches@.len() && (parsed_key(
                #[trigger] j.purge.registry_branches@[k]@,
            ) matches Some((RegistryRoot::Hklm, _))) && forall|i: int|
                0 <= i < k ==> (#[trigger] parsed_key(j.purge.registry_branches@[i]@) matches Some(
                    (RegistryRoot::Hkcu, _),
                ))) ==> journal_admin_answer(j, r) == Ok::<bool, Seq<char>>(true),
        ((forall|i: int| 0 <= i < j.actions@.len() ==> !admin_controlled(#[trigger] j.actions@[i], r))
            && (forall|i: int|
            0 <= i < j.purge.registry_branches@.len() ==> (#[trigger] parsed_key(
                j.purge.registry_branches@[i]@,
            ) matches Some((RegistryRoot::Hkcu, _)))) && (forall|p: int|
            0 <= p < j.purge.paths@.len() ==> !under_admin_root(
                r.roots(),
                r.resolve_spec(#[trigger] j.purge.paths@[p]@),
            ))) ==> journal_admin_answer(j, r) == Ok::<bool, Seq<char>>(false),
{
    let actions = crate::journal::actions_view(j.actions@);
    let bs = j.purge.registry_branches@;
    assert forall|i: int| 0 <= i < j.actions@.len() implies action_needs_admin(
        #[trigger] actions[i],
        r.roots(),
    ) == admin_controlled(j.actions@[i], r) by {
        assert(actions[i] == j.actions@[i]@);
    }
    if exists|i: int| 0 <= i < j.actions@.len() && admin_controlled(#[trigger] j.actions@[i], r) {
        let i = choose|i: int| 0 <= i < j.actions@.len() && admin_controlled(#[trigger] j.actions@[i], r);
        assert(action_needs_admin(actions[i], r.roots()));
    }
    if exists|k: int|
        0 <= k < bs.len() && (parsed_key(#[trigger] bs[k]@) matches Some((RegistryRoot::Hklm, _)))
            && forall|i: int|
            0 <= i < k ==> (#[trigger] parsed_key(bs[i]@) matches Some((RegistryRoot::Hkcu, _))) {
        let k = choose|k: int|
            0 <= k < bs.len() && (parsed_key(#[trigger] bs[k]@) matches Some((RegistryRoot::Hklm, _)))
                && forall|i: int|
                0 <= i < k ==> (#[trigger] parsed_key(bs[i]@) matches Some((RegistryRoot::Hkcu, _)));
        lemma_scan_finds_hklm(bs, k);
    }
    if forall|i: int| 0 <= i < bs.len() ==> (#[trigger] parsed_key(bs[i]@) matches Some(
        (RegistryRoot::Hkcu, _),
    )) {
        lemma_scan_all_hkcu(bs);
    }
}

/// Whether uninstalling the journal needs administrator rights.
pub fn journal_requires_admin(journal: &Journal, resolver: &PathResolver) -> (r: Result<
    bool,
    AppError,
>)
    ensures
        match journal_admin_answer(*journal, *resolver) {
            Ok(b) => r == Ok::<bool, AppError>(b),
            Err(t) => r matches Err(AppError::Message(m)) && m@ == t,
        },
        (exists|i: int|
            0 <= i < journal.actions@.len() && admin_controlled(
                #[trigger] journal.actions@[i],
                *resolver,
            )) ==> r == Ok::<bool, AppError>(true),
{
    proof {
        law_journal_admin_rules(*journal, *resolver);
    }
    let ghost actions = crate::journal::actions_view(journal.actions@);
    let mut i: usize = 0;
    while i < journal.actions.len()
        invariant
            i <= journal.actions.len(),
            actions == crate::journal::actions_view(journal.actions@),
            forall|j: int| 0 <= j < i ==> !action_needs_admin(#[trigger] actions[j], resolver.roots()),
        decreases journal.actions.len() - i,
    {
        assert(actions[i as int] == journal.actions@[i as int]@);
        let needs = match &journal.actions[i] {
            JournalAction::CreateDirectory { path } => resolver.requires_admin(path.as_str()),
            JournalAction::CopyFile { destination, .. } => resolver.requires_admin(
                destination.as_str(),
            ),
            JournalAction::CreateShortcut { path } => resolver.requires_admin(path.as_str()),
            JournalAction::WriteRegistry { root, .. } => *root == RegistryRoot::Hklm,
            JournalAction::ExecuteScript { .. } => false,
        };
        assert(needs == action_needs_admin(actions[i as int], resolver.roots()));
        if needs {
            return Ok(true);
        }
        i = i + 1;
    }
    let branches = &journal.purge.registry_branches;
    let mut b: usize = 0;
    assert(branches@.skip(0) == branches@);
    while b < branches.len()
        invariant
            b <= branches.len(),
            branches@ == journal.purge.registry_branches@,
            branch_admin_scan(branches@) == branch_admin_scan(branches@.skip(b as int)),
            actions == crate::journal::actions_view(journal.actions@),
            (exists|i: int|
                0 <= i < journal.actions@.len() && admin_controlled(
                    #[trigger] journal.actions@[i],
                    *resolver,
                )) ==> journal_admin_answer(*journal, *resolver) == Ok::<bool, Seq<char>>(true),
            forall|j: int|
                0 <= j < actions.len() ==> !action_needs_admin(#[trigger] actions[j], resolver.roots()),
        decreases branches.len() - b,
    {
        let ghost rest = branches@.skip(b as int);
        assert(rest[0] == branches@[b as int]);
        assert(rest.skip(1) == branches@.skip(b + 1));
        match parse_registry_key(branches[b].as_str()) {
            Err(e) => {
                return Err(e);
            },
            Ok((root, _)) => {
                if root == RegistryRoot::Hklm {
                    return Ok(true);
                }
            },
        }
        b = b + 1;
    }
    assert(branches@.skip(b as int) =~= Seq::<String>::empty());
    let paths = &journal.purge.paths;
    let mut p: usize = 0;
    while p < paths.len()
        invariant
            p <= paths.len(),
            paths@ == journal.purge.paths@,
            branch_admin_scan(journal.purge.registry_branches@) == Ok::<bool, Seq<char>>(false),
            actions == crate::journal::actions_view(journal.actions@),
            (exists|i: int|
                0 <= i < journal.actions@.len() && admin_controlled(
                    #[trigger] journal.actions@[i],
                    *resolver,
                )) ==> journal_admin_answer(*journal, *resolver) == Ok::<bool, Seq<char>>(true),
            forall|j: int|
                0 <= j < actions.len() ==> !action_needs_admin(#[trigger] actions[j], resolver.roots()),
            forall|j: int|
                0 <= j < p ==> !under_admin_root(
                    resolver.roots(),
                    resolver.resolve_spec(#[trigger] paths@[j]@),
                ),
        decreases paths.len() - p,
    {
        let resolved = resolver.resolve(paths[p].as_str());
        if resolver.requires_admin(resolved.as_str()) {
            return Ok(true);
        }
        p = p + 1;
    }
    Ok(false)
}

/// Number of progress steps an uninstall of the journal reports.
pub open spec fn uninstall_step_count(j: Journal) -> nat {
    j.actions@.len() + j.purge.registry_branches@.len() + j.purge.paths@.len() + 2
}

/// Number of progress steps an uninstall of the journal reports: one per
/// action, purge branch and purge path, plus two.
pub fn total_uninstall_steps(journal: &Journal) -> (n: usize)
    requires
        uninstall_step_count(*journal) <= usize::MAX,
    ensures
        n == uninstall_step_count(*journal),
{
    journal.actions.len() + journal.purge.registry_branches.len() + journal.purge.paths.len() + 2
}

proof fn lemma_undo_and_registrations_len(
    actions: Seq<ActionView>,
    flags: Seq<bool>,
    journal_path: Seq<char>,
    i: int,
)
    requires
        0 <= i <= actions.len(),
    ensures
        undo_from(actions, flags, journal_path, i).len() + deferred_from(actions, i).len()
            <= actions.len() - i,
    decreases actions.len() - i,
{
    if i < actions.len() {
        lemma_undo_and_registrations_len(actions, flags, journal_path, i + 1);
    }
}

proof fn lemma_branch_steps_len(branches: Seq<String>, n: nat)
    ensures
        branch_steps(branches, n).len() == n,
    decreases n,
{
    if n > 0 {
        lemma_branch_steps_len(branches, (n - 1) as nat);
    }
}

proof fn lemma_path_steps_len(paths: Seq<String>, r: PathResolver, n: nat)
    ensures
        path_steps(paths, r, n).len() == n,
    decreases n,
{
    if n > 0 {
        lemma_path_steps_len(paths, r, (n - 1) as nat);
    }
}

proof fn lemma_registration_steps_len(regs: Seq<(RegistryRoot, Seq<char>)>)
    ensures
        registration_steps(regs).len() == regs.len(),
    decreases regs.len(),
{
    if regs.len() > 0 {
        lemma_registration_steps_len(regs.drop_last());
    }
}

proof fn lemma_first_bad_branch_bounds(branches: Seq<String>, from: int)
    requires
        0 <= from,
    ensures
        0 <= first_bad_branch(branches, from) <= branches.len(),
    decreases branches.len() - from,
{
    if from < branches.len() {
        lemma_first_bad_branch_bounds(branches, from + 1);
    }
}

/// The progress of an uninstall never passes its total: the plan for a
/// journal has at most one step per action, purge branch and purge path.
pub proof fn law_uninstall_progress_within_total(
    plan: UninstallPlan,
    journal: Journal,
    flags: Seq<bool>,
    journal_path: Seq<char>,
    r: PathResolver,
)
    requires
        uninstall_plan_matches(
            plan,
            crate::journal::actions_view(journal.actions@),
            flags,
            journal_path,
            journal.purge.registry_branches@,
            journal.purge.paths@,
            r,
        ),
    ensures
        plan.steps@.len() <= uninstall_step_count(journal),
{
    let actions = crate::journal::actions_view(journal.actions@);
    let branches = journal.purge.registry_branches@;
    let paths = journal.purge.paths@;
    lemma_undo_and_registrations_len(actions, flags, journal_path, 0);
    lemma_first_bad_branch_bounds(branches, 0);
    let k = first_bad_branch(branches, 0);
    if k < branches.len() {
        lemma_branch_steps_len(branches, k as nat);
    } else {
        lemma_branch_steps_len(branches, branches.len());
    }
    lemma_path_steps_len(paths, r, paths.len());
    lemma_registration_steps_len(deferred_from(actions, 0));
    assert(actions.len() == journal.actions@.len());
    let head = undo_steps(actions, flags, journal_path);
    assert(usteps_view(plan.steps@).len() == plan.steps@.len());
    if k < branches.len() {
        assert(usteps_view(plan.steps@) == head + branch_steps(branches, k as nat));
    } else {
        let steps = head + branch_steps(branches, branches.len()) + path_steps(paths, r, paths.len())
            + registration_steps(deferred_from(actions, 0));
        assert(usteps_view(plan.steps@) == steps);
    }
}

/// A program to start and the arguments it is given.
#[derive(Debug, Clone, PartialEq, Eq)]
pub struct ProcessLaunch {
    pub program: String,
    pub args: Vec<String>,
}

/// What the helper that finishes an uninstall is asked to remove: the
/// running uninstaller's own file and, when empty, the folder holding it.
#[derive(Debug, Clone, PartialEq, Eq)]
pub struct CleanupRequest {
    pub target_exe: String,
    pub install_root: Option<String>,
    pub app_name: String,
}

/// How an uninstall closes once its removals ran.
#[derive(Debug, Clone, PartialEq, Eq)]
pub struct UninstallCompletion {
    /// The terminal message of the progress window, if this run sets one.
    pub finish_message: Option<String>,
    /// The cleanup helper to start for the running uninstaller's own file.
    pub cleanup: Option<CleanupRequest>,
    /// Whether the success dialog is shown.
    pub report_success: bool,
}

/// The closing of an uninstall. With a copy of the running uninstaller
/// left over, a cleanup helper removes it and its folder, and the window
/// (unless this is a rollback) says the removal is being finalized. Without
/// one, a plain uninstall ends on the success message, shown as a dialog in
/// the window when nobody automates it; a rollback leaves the window to the
/// failed install.
pub fn uninstall_completion(
    app_name: &str,
    self_delete: &Option<String>,
    is_rollback: bool,
    ui_mode: UiMode,
    automation: bool,
) -> (c: UninstallCompletion)
    ensures
        match self_delete {
            Some(path) => {
                &&& c.cleanup matches Some(req) && req.target_exe@ == path@ && opt_view(
                    req.install_root,
                ) == parent_of(path@) && req.app_name@ == app_name@
                &&& is_rollback ==> c.finish_message is None
                &&& !is_rollback ==> opt_view(c.finish_message) == Some(
                    "Finalizing removal of "@ + app_name@,
                )
                &&& !c.report_success
            },
            None => {
                &&& c.cleanup is None
                &&& is_rollback ==> c.finish_message is None && !c.report_success
                &&& !is_rollback ==> opt_view(c.finish_message) == Some(
                    app_name@ + " uninstalled successfully!"@,
                )
                &&& !is_rollback ==> c.report_success == (ui_mode == UiMode::Gui && !automation)
            },
        },
{
    let app = chars_of(app_name);
    match self_delete {
        Some(path) => {
            let pv = chars_of(path.as_str());
            let root = match parent_chars(&pv) {
                Some(r) => Some(string_of(r.as_slice())),
                None => None,
            };
            let finish = if is_rollback {
                None
            } else {
                let mut m = chars_of("Finalizing removal of ");
                append_chars(&mut m, &app);
                Some(string_of(m.as_slice()))
            };
            UninstallCompletion {
                finish_message: finish,
                cleanup: Some(
                    CleanupRequest {
                        target_exe: path.clone(),
                        install_root: root,
                        app_name: app_name.to_owned(),
                    },
                ),
                report_success: false,
            }
        },
        None => {
            if is_rollback {
                UninstallCompletion { finish_message: None, cleanup: None, report_success: false }
            } else {
                let mut m = app.clone();
                let tail = chars_of(" uninstalled successfully!");
                append_chars(&mut m, &tail);
                UninstallCompletion {
                    finish_message: Some(string_of(m.as_slice())),
                    cleanup: None,
                    report_success: ui_mode == UiMode::Gui && !automation,
                }
            }
        },
    }
}

/// The command line of the cleanup helper: the interface flags of this run,
/// then `cleanup` with the file to remove, its folder and the application.
pub open spec fn cleanup_args_spec(
    target_exe: Seq<char>,
    install_root: Option<Seq<char>>,
    app_name: Seq<char>,
    ui_mode: UiMode,
    automation: bool,
    json: bool,
) -> Seq<Seq<char>> {
    (if json {
        seq!["--json"@]
    } else {
        seq![]
    }) + (match ui_mode {
        UiMode::Tui => seq!["--headless"@],
        UiMode::Gui => seq!["--headed"@],
        UiMode::NoUi => seq![],
    }) + (if automation {
        seq!["--automation"@]
    } else {
        seq![]
    }) + seq!["cleanup"@, "--target-exe"@, target_exe] + (match install_root {
        Some(r) => seq!["--install-root"@, r],
        None => seq![],
    }) + seq!["--app-name"@, app_name]
}

fn push_arg(args: &mut Vec<String>, a: String)
    ensures
        crate::journal::strings_view(final(args)@) == crate::journal::strings_view(old(args)@).push(
            a@,
        ),
{
    args.push(a);
    assert(crate::journal::strings_view(args@) =~= crate::journal::strings_view(old(args)@).push(
        a@,
    ));
}

/// The arguments the cleanup helper is started with.
pub fn cleanup_helper_args(
    request: &CleanupRequest,
    ui_mode: UiMode,
    automation: bool,
    json: bool,
) -> (args: Vec<String>)
    ensures
        crate::journal::strings_view(args@) == cleanup_args_spec(
            request.target_exe@,
            opt_view(request.install_root),
            request.app_name@,
            ui_mode,
            automation,
            json,
        ),
{
    let mut args: Vec<String> = Vec::new();
    let ghost s0 = crate::journal::strings_view(args@);
    assert(s0 =~= Seq::<Seq<char>>::empty());
    if json {
        push_arg(&mut args, "--json".to_owned());
    }
    let ghost s1 = crate::journal::strings_view(args@);
    match ui_mode {
        UiMode::Tui => push_arg(&mut args, "--headless".to_owned()),
        UiMode::Gui => push_arg(&mut args, "--headed".to_owned()),
        UiMode::NoUi => {},
    }
    let ghost s2 = crate::journal::strings_view(args@);
    if automation {
        push_arg(&mut args, "--automation".to_owned());
    }
    let ghost s3 = crate::journal::strings_view(args@);
    push_arg(&mut args, "cleanup".to_owned());
    push_arg(&mut args, "--target-exe".to_owned());
    push_arg(&mut args, request.target_exe.clone());
    let ghost s4 = crate::journal::strings_view(args@);
    match &request.install_root {
        Some(r) => {
            push_arg(&mut args, "--install-root".to_owned());
            push_arg(&mut args, r.clone());
        },
        None => {},
    }
    let ghost s5 = crate::journal::strings_view(args@);
    push_arg(&mut args, "--app-name".to_owned());
    push_arg(&mut args, request.app_name.clone());
    assert(crate::journal::strings_view(args@) =~= cleanup_args_spec(
        request.target_exe@,
        opt_view(request.install_root),
        request.app_name@,
        ui_mode,
        automation,
        json,
    ));
    args
}

/// The file name the cleanup helper copy is given, from the process id and
/// a millisecond timestamp.
pub fn cleanup_helper_file_name(pid: u32, ticks: u128) -> (r: String)
    ensures
        r@ == "covenant-setup-cleanup-"@ + decimal(pid as nat) + "-"@ + decimal(ticks as nat)
            + ".exe"@,
{
    let mut m = chars_of("covenant-setup-cleanup-");
    let p = decimal_chars(pid as u128);
    append_chars(&mut m, &p);
    m.push('-');
    let t = decimal_chars(ticks);
    append_chars(&mut m, &t);
    let e = chars_of(".exe");
    append_chars(&mut m, &e);
    assert(m@ =~= "covenant-setup-cleanup-"@ + decimal(pid as nat) + "-"@ + decimal(ticks as nat)
        + ".exe"@) by {
        reveal_strlit("-");
    }
    string_of(m.as_slice())
}

/// The PowerShell command that deletes the cleanup helper's own file two
/// seconds after it exits.
pub open spec fn self_delete_command(exe: Seq<char>) -> Seq<char> {
    "Start-Sleep -Seconds 2; Remove-Item -LiteralPath '"@ + ps_quoted(exe)
        + "' -Force -ErrorAction SilentlyContinue"@
}

/// The hidden PowerShell process that deletes the cleanup helper's file.
pub fn helper_self_cleanup_launch(self_exe: &str) -> (l: ProcessLaunch)
    ensures
        l.program@ == "powershell.exe"@,
        crate::journal::strings_view(l.args@) == seq![
            "-NoProfile"@,
            "-WindowStyle"@,
            "Hidden"@,
            "-Command"@,
            self_delete_command(self_exe@),
        ],
{
    let mut c = chars_of("Start-Sleep -Seconds 2; Remove-Item -LiteralPath '");
    let q = powershell_single_quote(self_exe);
    let qc = chars_of(q.as_str());
    append_chars(&mut c, &qc);
    let tail = chars_of("' -Force -ErrorAction SilentlyContinue");
    append_chars(&mut c, &tail);
    let mut args: Vec<String> = Vec::new();
    assert(crate::journal::strings_view(args@) =~= Seq::<Seq<char>>::empty());
    push_arg(&mut args, "-NoProfile".to_owned());
    push_arg(&mut args, "-WindowStyle".to_owned());
    push_arg(&mut args, "Hidden".to_owned());
    push_arg(&mut args, "-Command".to_owned());
    push_arg(&mut args, string_of(c.as_slice()));
    assert(crate::journal::strings_view(args@) =~= seq![
        "-NoProfile"@,
        "-WindowStyle"@,
        "Hidden"@,
        "-Command"@,
        self_delete_command(self_exe@),
    ]);
    ProcessLaunch { program: "powershell.exe".to_owned(), args }
}

/// The immediate restart of the machine.
pub fn reboot_launch() -> (l: ProcessLaunch)
    ensures
        l.program@ == "shutdown.exe"@,
        crate::journal::strings_view(l.args@) == seq!["/r"@, "/t"@, "0"@],
{
    let mut args: Vec<String> = Vec::new();
    assert(crate::journal::strings_view(args@) =~= Seq::<Seq<char>>::empty());
    push_arg(&mut args, "/r".to_owned());
    push_arg(&mut args, "/t".to_owned());
    push_arg(&mut args, "0".to_owned());
    assert(crate::journal::strings_view(args@) =~= seq!["/r"@, "/t"@, "0"@]);
    ProcessLaunch { program: "shutdown.exe".to_owned(), args }
}

/// How many times the cleanup helper tries to delete the finished
/// uninstaller before it falls back to the delete that may need a restart.
pub const CLEANUP_DELETE_ATTEMPTS: u32 = 50;

/// Milliseconds the cleanup helper waits between two tries.
pub const CLEANUP_RETRY_DELAY_MS: u64 = 200;

/// What the cleanup helper does after one try at deleting the uninstaller.
#[derive(Debug, Clone, Copy, PartialEq, Eq)]
pub enum CleanupWait {
    /// The uninstaller is gone; stop trying.
    Done,
    /// Wait this long before the next try.
    Wait { delay_ms: u64 },
}

/// After one try at deleting the finished uninstaller: done when it was
/// already gone or was just deleted; otherwise wait
/// [`CLEANUP_RETRY_DELAY_MS`] before the next try (the helper makes at most
/// [`CLEANUP_DELETE_ATTEMPTS`] tries).
pub fn cleanup_wait(target_exists: bool, deleted: bool) -> (w: CleanupWait)
    ensures
        !target_exists || deleted ==> w == CleanupWait::Done,
        target_exists && !deleted ==> w == (CleanupWait::Wait { delay_ms: CLEANUP_RETRY_DELAY_MS }),
{
    if !target_exists || deleted {
        CleanupWait::Done
    } else {
        CleanupWait::Wait { delay_ms: CLEANUP_RETRY_DELAY_MS }
    }
}

/// Whether the cleanup helper removes the install folder: only when it
/// still exists and is empty.
pub fn remove_install_root_now(exists: bool, empty: bool) -> (r: bool)
    ensures
        r == (exists && empty),
{
    exists && empty
}

/// Whether finishing the removal needs a restart: the uninstaller was
/// still there after the tries and still after the fallback delete (which
/// then left it to the restart), or the helper's own removal was deferred to
/// the restart.
pub fn cleanup_needs_restart(
    left_after_tries: bool,
    left_after_fallback: bool,
    helper_removal_deferred: bool,
) -> (r: bool)
    ensures
        r == ((left_after_tries && left_after_fallback) || helper_removal_deferred),
{
    (left_after_tries && left_after_fallback) || helper_removal_deferred
}

/// What the cleanup helper tells the user at its end.
#[derive(Debug, Clone, PartialEq, Eq)]
pub enum CleanupNotice {
    /// Nothing is shown.
    Silent,
    /// The window asks whether to restart now.
    PromptReboot,
    /// The window reports that the uninstall succeeded.
    ReportSuccess,
    /// The terminal prints the text, then asks whether to restart now.
    PrintThenAskReboot { text: String },
    /// The terminal prints the text.
    Print { text: String },
}

/// The cleanup helper's closing notice: a window that nobody automates asks
/// to restart when files remain and reports success otherwise; the terminal
/// prints the matching message (and asks to restart when files remain);
/// without an interface nothing is shown.
pub fn cleanup_notice(app_name: &str, ui_mode: UiMode, automation: bool, reboot_required: bool) -> (n:
    CleanupNotice)
    ensures
        ui_mode == UiMode::Gui && !automation ==> n == if reboot_required {
            CleanupNotice::PromptReboot
        } else {
            CleanupNotice::ReportSuccess
        },
        ui_mode == UiMode::Tui && reboot_required ==> (n matches CleanupNotice::PrintThenAskReboot {
            text,
        } && text@ == reboot_notice_text(app_name@)),
        ui_mode == UiMode::Tui && !reboot_required ==> (n matches CleanupNotice::Print { text }
            && text@ == app_name@ + " uninstalled successfully!"@),
        ui_mode == UiMode::NoUi || (ui_mode == UiMode::Gui && automation) ==> n
            == CleanupNotice::Silent,
{
    if ui_mode == UiMode::Gui && !automation {
        if reboot_required {
            CleanupNotice::PromptReboot
        } else {
            CleanupNotice::ReportSuccess
        }
    } else if ui_mode == UiMode::Tui {
        let mut m = chars_of(app_name);
        if reboot_required {
            let tail = chars_of(
                " uninstalled successfully! Some files from the program still remain on your computer. To complete removal of these files, restart your computer now.",
            );
            append_chars(&mut m, &tail);
            CleanupNotice::PrintThenAskReboot { text: string_of(m.as_slice()) }
        } else {
            let tail = chars_of(" uninstalled successfully!");
            append_chars(&mut m, &tail);
            CleanupNotice::Print { text: string_of(m.as_slice()) }
        }
    } else {
        CleanupNotice::Silent
    }
}

/// The answer to "Restart now? [y/N]" is yes: `y` or `yes` in any ASCII
/// case, surrounding whitespace ignored.
pub open spec fn is_yes_spec(input: Seq<char>) -> bool {
    let t = lower_seq(trimmed(input));
    t == "y"@ || t == "yes"@
}

/// Whether a typed answer to the restart question is yes.
pub fn is_yes_answer(input: &str) -> (r: bool)
    ensures
        r == is_yes_spec(input@),
{
    let v = chars_of(input);
    let t = trim_chars(&v);
    let l = lower_chars(&t);
    let y = chars_of("y");
    let yes = chars_of("yes");
    let is_y = l.len() == y.len() && has_prefix(&l, &y);
    let is_yes = l.len() == yes.len() && has_prefix(&l, &yes);
    proof {
        if l@.len() == y@.len() {
            assert(l@.take(y@.len() as int) =~= l@);
        }
        if l@.len() == yes@.len() {
            assert(l@.take(yes@.len() as int) =~= l@);
        }
    }
    is_y || is_yes
}

proof fn lemma_applied_prefix(steps: Seq<StepView>, i: nat, k: nat, exe: Seq<char>)
    requires
        i <= k <= steps.len(),
    ensures
        applied(steps, i, exe).len() <= applied(steps, k, exe).len(),
        forall|j: int|
            0 <= j < applied(steps, i, exe).len() ==> #[trigger] applied(steps, k, exe)[j]
                == applied(steps, i, exe)[j],
    decreases k - i,
{
    if i < k {
        lemma_applied_prefix(steps, i, (k - 1) as nat, exe);
        let prev = applied(steps, (k - 1) as nat, exe);
        assert(applied(steps, k, exe) == prev + records_of(steps[k - 1].1, exe));
        assert forall|j: int| 0 <= j < applied(steps, i, exe).len() implies #[trigger] applied(
            steps,
            k,
            exe,
        )[j] == applied(steps, i, exe)[j] by {
            assert(applied(steps, k, exe)[j] == prev[j]);
        }
    }
}

/// Where the records of step `i` sit in the journal of the first `k` steps.
proof fn lemma_step_records_in_journal(steps: Seq<StepView>, i: nat, k: nat, exe: Seq<char>, t: int)
    requires
        i < k <= steps.len(),
        0 <= t < records_of(steps[i as int].1, exe).len(),
    ensures
        ({
            let j = applied(steps, i, exe).len() + t;
            &&& 0 <= j < applied(steps, k, exe).len()
            &&& applied(steps, k, exe)[j] == records_of(steps[i as int].1, exe)[t]
        }),
{
    lemma_applied_prefix(steps, i + 1, k, exe);
    let j = applied(steps, i, exe).len() + t;
    assert(applied(steps, i + 1, exe) == applied(steps, i, exe) + records_of(
        steps[i as int].1,
        exe,
    ));
    assert(applied(steps, i + 1, exe)[j] == records_of(steps[i as int].1, exe)[t]);
}

/// What uninstalling the journal of an install does to one of the
/// install's steps: a created directory is removed, a copied file (or the
/// uninstaller copy) is removed, unless `is_self` says that this copy is the
/// running uninstaller, which is then left to the cleanup helper; a registry
/// value's key and the Installed Apps registration are deleted, a shortcut
/// is removed; scripts are not undone.
pub open spec fn step_reverted(
    steps: Seq<UStepView>,
    self_target: Option<Seq<char>>,
    op: InstallOpView,
    is_self: bool,
    journal_path: Seq<char>,
) -> bool {
    match op {
        InstallOpView::CreateDirectory { path } => has_op(
            steps,
            UninstallOpView::RemoveDirectory {
                path,
                journal_inside: path_starts_with(journal_path, path),
            },
        ),
        InstallOpView::CopyFile { destination, .. } => if is_self {
            self_target is Some
        } else {
            has_op(steps, UninstallOpView::RemoveFile { path: destination })
        },
        InstallOpView::InstallUninstaller { destination } => if is_self {
            self_target is Some
        } else {
            has_op(steps, UninstallOpView::RemoveFile { path: destination })
        },
        InstallOpView::SetRegistryValue { root, subkey, .. } => has_op(
            steps,
            UninstallOpView::DeleteRegistryTree { root, subkey },
        ),
        InstallOpView::RegisterUninstall { root, subkey, values } => values.len() > 0 ==> has_op(
            steps,
            UninstallOpView::DeleteRegistryTree { root, subkey },
        ),
        InstallOpView::CreateShortcut { path, .. } => has_op(
            steps,
            UninstallOpView::RemoveFile { path },
        ),
        InstallOpView::RunScript { .. } => true,
    }
}

/// Uninstalling returns the machine to where it was before the install:
/// whatever step of an install completed (all of them, or the first `k`
/// before a failure), a completed uninstall of the journal those steps
/// left reverts it. A step's copy counts as the running uninstaller by the
/// flag of the journal entry it left.
pub proof fn law_uninstall_reverts_install(
    install_steps: Seq<StepView>,
    k: nat,
    current_exe: Seq<char>,
    plan: UninstallPlan,
    flags: Seq<bool>,
    journal_path: Seq<char>,
    branches: Seq<String>,
    paths: Seq<String>,
    r: PathResolver,
)
    requires
        k <= install_steps.len(),
        uninstall_plan_matches(
            plan,
            applied(install_steps, k, current_exe),
            flags,
            journal_path,
            branches,
            paths,
            r,
        ),
        plan.failure is None,
    ensures
        forall|i: int|
            0 <= i < k ==> step_reverted(
                usteps_view(plan.steps@),
                opt_view(plan.self_delete),
                (#[trigger] install_steps[i]).1,
                flag(flags, applied(install_steps, i as nat, current_exe).len() as int),
                journal_path,
            ),
{
    let actions = applied(install_steps, k, current_exe);
    law_uninstall_undoes_journal(plan, actions, flags, journal_path, branches, paths, r);
    assert forall|i: int| 0 <= i < k implies step_reverted(
        usteps_view(plan.steps@),
        opt_view(plan.self_delete),
        (#[trigger] install_steps[i]).1,
        flag(flags, applied(install_steps, i as nat, current_exe).len() as int),
        journal_path,
    ) by {
        let op = install_steps[i].1;
        let recs = records_of(op, current_exe);
        match op {
            InstallOpView::RunScript { .. } => {},
            InstallOpView::RegisterUninstall { root, subkey, values } => {
                if values.len() > 0 {
                    lemma_step_records_in_journal(install_steps, i as nat, k, current_exe, 0);
                    let j = applied(install_steps, i as nat, current_exe).len() as int;
                    assert(actions[j] == recs[0]);
                    assert(action_undone(
                        usteps_view(plan.steps@),
                        opt_view(plan.self_delete),
                        actions[j],
                        flag(flags, j),
                        journal_path,
                    ));
                }
            },
            _ => {
                assert(recs.len() == 1);
                lemma_step_records_in_journal(install_steps, i as nat, k, current_exe, 0);
                let j = applied(install_steps, i as nat, current_exe).len() as int;
                assert(actions[j] == recs[0]);
                assert(action_undone(
                    usteps_view(plan.steps@),
                    opt_view(plan.self_delete),
                    actions[j],
                    flag(flags, j),
                    journal_path,
                ));
            },
        }
    }
}

/// The title of an uninstall's progress: `Reverting` for the rollback of a
/// failed install, `Uninstalling` otherwise, then the application.
pub fn uninstall_title(app_name: &str, is_rollback: bool) -> (r: String)
    ensures
        r@ == (if is_rollback {
            "Reverting "@
        } else {
            "Uninstalling "@
        }) + app_name@,
{
    let mut m = if is_rollback {
        chars_of("Reverting ")
    } else {
        chars_of("Uninstalling ")
    };
    let a = chars_of(app_name);
    append_chars(&mut m, &a);
    string_of(m.as_slice())
}

} // verus!
