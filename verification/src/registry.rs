//! Registry key text: `HKCU\`/`HKLM\` prefixes, the Installed Apps branch,
//! and a duplicate-free list of branches to delete.
use vstd::prelude::*;
use crate::error::AppError;
use crate::journal::RegistryRoot;
use crate::text::{chars_of, has_prefix, slice_chars, starts_with, string_of, append_chars};

verus! {

/// The result of splitting a registry key into its hive and subkey.
pub open spec fn parsed_key(input: Seq<char>) -> Option<(RegistryRoot, Seq<char>)> {
    if starts_with(input, "HKCU\\"@) {
        Some((RegistryRoot::Hkcu, input.skip(5)))
    } else if starts_with(input, "HKLM\\"@) {
        Some((RegistryRoot::Hklm, input.skip(5)))
    } else {
        None
    }
}

/// The rejection text for a key outside the two supported hives.
pub open spec fn unsupported_root_text(input: Seq<char>) -> Seq<char> {
    "Unsupported registry root: "@ + input
}

/// What `parse_registry_key` returns, stated over views.
pub open spec fn parse_key_result(r: Result<(RegistryRoot, String), AppError>, input: Seq<char>) -> bool {
    match r {
        Ok((root, subkey)) => parsed_key(input) == Some((root, subkey@)),
        Err(AppError::Message(m)) => parsed_key(input) is None && m@ == unsupported_root_text(input),
        Err(_) => false,
    }
}

/// Splits `HKCU\...` or `HKLM\...` into its hive and subkey; any other
/// prefix is rejected.
pub fn parse_registry_key(input: &str) -> (r: Result<(RegistryRoot, String), AppError>)
    ensures
        parse_key_result(r, input@),
{
    let v = chars_of(input);
    let hkcu = chars_of("HKCU\\");
    let hklm = chars_of("HKLM\\");
    proof {
        reveal_strlit("HKCU\\");
        reveal_strlit("HKLM\\");
    }
    if has_prefix(&v, &hkcu) {
        let rest = slice_chars(&v, 5, v.len());
        assert(rest@ == input@.skip(5));
        return Ok((RegistryRoot::Hkcu, string_of(rest.as_slice())));
    }
    if has_prefix(&v, &hklm) {
        let rest = slice_chars(&v, 5, v.len());
        assert(rest@ == input@.skip(5));
        return Ok((RegistryRoot::Hklm, string_of(rest.as_slice())));
    }
    let mut m = chars_of("Unsupported registry root: ");
    append_chars(&mut m, &v);
    Err(AppError::Message(string_of(m.as_slice())))
}

/// The subkey under which Windows lists installed applications.
pub open spec fn uninstall_branch() -> Seq<char> {
    "Software\\Microsoft\\Windows\\CurrentVersion\\Uninstall\\"@
}

/// Whether a subkey lies in the Installed Apps branch.
pub fn is_uninstall_registry_key(subkey: &str) -> (r: bool)
    ensures
        r == starts_with(subkey@, uninstall_branch()),
{
    let v = chars_of(subkey);
    let p = chars_of("Software\\Microsoft\\Windows\\CurrentVersion\\Uninstall\\");
    has_prefix(&v, &p)
}

/// The views of a list of (hive, subkey) branches.
pub open spec fn branches_view(v: Seq<(RegistryRoot, String)>) -> Seq<(RegistryRoot, Seq<char>)> {
    v.map_values(|b: (RegistryRoot, String)| (b.0, b.1@))
}

/// No branch occurs twice.
pub open spec fn no_duplicates<T>(s: Seq<T>) -> bool {
    forall|i: int, j: int| 0 <= i < j < s.len() ==> s[i] != s[j]
}

/// Whether two strings hold the same text.
pub fn same_text(a: &String, b: &String) -> (r: bool)
    ensures
        r == (a@ == b@),
{
    a.eq(b)
}

/// The branch list after adding `item` unless it is already listed.
pub open spec fn pushed_unique(
    branches: Seq<(RegistryRoot, Seq<char>)>,
    item: (RegistryRoot, Seq<char>),
) -> Seq<(RegistryRoot, Seq<char>)> {
    if branches.contains(item) {
        branches
    } else {
        branches.push(item)
    }
}

/// Adds a branch unless the same hive and subkey is already listed.
pub fn push_unique_registry_branch(
    branches: &mut Vec<(RegistryRoot, String)>,
    root: RegistryRoot,
    subkey: String,
)
    ensures
        branches_view(final(branches)@) == pushed_unique(
            branches_view(old(branches)@),
            (root, subkey@),
        ),
{
    let mut i: usize = 0;
    while i < branches.len()
        invariant
            i <= branches.len(),
            branches@ == old(branches)@,
            forall|j: int| 0 <= j < i ==> #[trigger] branches_view(branches@)[j] != (root, subkey@),
        decreases branches.len() - i,
    {
        if branches[i].0 == root && same_text(&branches[i].1, &subkey) {
            assert(branches_view(branches@)[i as int] == (root, subkey@));
            return;
        }
        i = i + 1;
    }
    let ghost before = branches@;
    let ghost item = (root, subkey@);
    branches.push((root, subkey));
    assert(branches_view(branches@) =~= branches_view(before).push(item));
}

/// Pushing through `push_unique_registry_branch` keeps a branch list free
/// of duplicates, and the branch is listed afterwards.
pub proof fn law_push_unique_keeps_branches_distinct(
    before: Seq<(RegistryRoot, Seq<char>)>,
    item: (RegistryRoot, Seq<char>),
)
    requires
        no_duplicates(before),
    ensures
        no_duplicates(pushed_unique(before, item)),
        pushed_unique(before, item).contains(item),
{
    let after = pushed_unique(before, item);
    if !before.contains(item) {
        assert(after[before.len() as int] == item);
        assert forall|i: int, j: int| 0 <= i < j < after.len() implies after[i] != after[j] by {
            if j == before.len() {
                assert(after[i] == before[i]);
            }
        }
    }
}

} // verus!
