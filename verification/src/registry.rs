//! The registry of installed extensions: one entry per extension name.
//! Enumerate, look up, install with conflict and overwrite resolution, and
//! uninstall; individually corrupt entries are skipped, never fatal.

use vstd::prelude::*;

use crate::errors::ExtensionError;
use crate::extension::{content_eq, Extension, ExtensionView};
use crate::text::str_eq;

verus! {

/// The models of a sequence of loaded extensions.
pub open spec fn seq_view(s: Seq<Extension>) -> Seq<ExtensionView> {
    s.map_values(|e: Extension| e@)
}

/// Whether some entry carries `name`.
pub open spec fn contains_name(s: Seq<ExtensionView>, name: Seq<char>) -> bool {
    exists|i: int| 0 <= i < s.len() && s[i].manifest.name == name
}

/// The index of the first entry carrying `name`; meaningful only when
/// `contains_name` holds.
pub open spec fn first_index_of(s: Seq<ExtensionView>, name: Seq<char>) -> int
    decreases s.len(),
{
    if s.len() == 0 {
        0
    } else if s[0].manifest.name == name {
        0
    } else {
        1 + first_index_of(s.drop_first(), name)
    }
}

/// Every entry name occurs once.
pub open spec fn wf_names(s: Seq<ExtensionView>) -> bool {
    forall|i: int, j: int|
        0 <= i < j < s.len() ==> (#[trigger] s[i]).manifest.name != (#[trigger] s[j]).manifest.name
}

/// When `name` occurs, its first occurrence is a proper index, carries the
/// name, and nothing before it does.
pub proof fn lemma_first_index_props(s: Seq<ExtensionView>, name: Seq<char>)
    requires
        contains_name(s, name),
    ensures
        0 <= first_index_of(s, name) < s.len(),
        s[first_index_of(s, name)].manifest.name == name,
        forall|j: int| 0 <= j < first_index_of(s, name) ==> (#[trigger] s[j]).manifest.name != name,
    decreases s.len(),
{
    if s[0].manifest.name == name {
    } else {
        let w = choose|i: int| 0 <= i < s.len() && s[i].manifest.name == name;
        assert(s.drop_first()[w - 1] == s[w]);
        assert(contains_name(s.drop_first(), name));
        lemma_first_index_props(s.drop_first(), name);
        assert forall|j: int| 0 <= j < first_index_of(s, name) implies (
        #[trigger] s[j]).manifest.name != name by {
            if j > 0 {
                assert(s.drop_first()[j - 1] == s[j]);
            }
        }
    }
}

/// An index that carries `name`, with nothing before it carrying `name`,
/// is the first occurrence.
pub proof fn lemma_first_index_at(s: Seq<ExtensionView>, name: Seq<char>, i: int)
    requires
        0 <= i < s.len(),
        s[i].manifest.name == name,
        forall|j: int| 0 <= j < i ==> (#[trigger] s[j]).manifest.name != name,
    ensures
        contains_name(s, name),
        first_index_of(s, name) == i,
    decreases s.len(),
{
    if s[0].manifest.name == name {
        assert(i == 0);
    } else {
        assert(i > 0);
        assert(s.drop_first()[i - 1] == s[i]);
        assert forall|j: int| 0 <= j < i - 1 implies (#[trigger] s.drop_first()[j]).manifest.name
            != name by {
            assert(s.drop_first()[j] == s[j + 1]);
        }
        lemma_first_index_at(s.drop_first(), name, i - 1);
    }
}

/// What an install reports: a fresh install, a no-op because the identical
/// extension is already present, or a replacement of a differing one.
#[derive(Clone, Copy, Debug, PartialEq, Eq, Structural)]
pub enum InstallOutcome {
    /// No extension of this name was installed before.
    Installed,
    /// A byte-identical extension is already installed; nothing was done.
    AlreadyCurrent,
    /// A differing extension of the same name was fully replaced.
    Replaced,
}

/// What `install` reports for a registry state `s`, extension `e` and
/// overwrite flag.
pub open spec fn install_outcome(s: Seq<ExtensionView>, e: ExtensionView, overwrite: bool)
    -> Result<InstallOutcome, ExtensionError> {
    if !contains_name(s, e.manifest.name) {
        Ok(InstallOutcome::Installed)
    } else if s[first_index_of(s, e.manifest.name)] == e {
        Ok(InstallOutcome::AlreadyCurrent)
    } else if overwrite {
        Ok(InstallOutcome::Replaced)
    } else {
        Err(ExtensionError::AlreadyInstalled)
    }
}

/// The registry state after `install`.
pub open spec fn install_state(s: Seq<ExtensionView>, e: ExtensionView, overwrite: bool)
    -> Seq<ExtensionView> {
    if !contains_name(s, e.manifest.name) {
        s.push(e)
    } else if s[first_index_of(s, e.manifest.name)] == e {
        s
    } else if overwrite {
        s.update(first_index_of(s, e.manifest.name), e)
    } else {
        s
    }
}

/// What `uninstall` reports for a registry state `s` and a name.
pub open spec fn uninstall_outcome(s: Seq<ExtensionView>, name: Seq<char>) -> Result<
    (),
    ExtensionError,
> {
    if contains_name(s, name) {
        Ok(())
    } else {
        Err(ExtensionError::NotInstalled)
    }
}

/// The registry state after `uninstall`.
pub open spec fn uninstall_state(s: Seq<ExtensionView>, name: Seq<char>) -> Seq<ExtensionView> {
    if contains_name(s, name) {
        s.remove(first_index_of(s, name))
    } else {
        s
    }
}

/// The set of installed extensions.
#[derive(Clone, Debug)]
pub struct Registry {
    entries: Vec<Extension>,
}

impl View for Registry {
    type V = Seq<ExtensionView>;

    closed spec fn view(&self) -> Seq<ExtensionView> {
        seq_view(self.entries@)
    }
}

impl Registry {
    /// The registry invariant: every name occurs once.
    pub open spec fn wf(&self) -> bool {
        wf_names(self@)
    }

    /// An empty registry: what a missing registry root denotes.
    pub fn new() -> (r: Registry)
        ensures
            r@ == Seq::<ExtensionView>::empty(),
            r.wf(),
    {
        let r = Registry { entries: Vec::new() };
        proof {
            assert(r@ =~= Seq::<ExtensionView>::empty());
        }
        r
    }

    /// The index of the entry named `name`, if any.
    fn find_index(&self, name: &str) -> (r: Option<usize>)
        ensures
            match r {
                Some(i) => {
                    &&& i < self@.len()
                    &&& contains_name(self@, name@)
                    &&& first_index_of(self@, name@) == i
                    &&& self@[i as int].manifest.name == name@
                },
                None => !contains_name(self@, name@),
            },
    {
        let mut i: usize = 0;
        while i < self.entries.len()
            invariant
                i <= self.entries@.len(),
                self@.len() == self.entries@.len(),
                forall|j: int| 0 <= j < i ==> (#[trigger] self@[j]).manifest.name != name@,
            decreases self.entries@.len() - i,
        {
            proof {
                assert(self@[i as int] == self.entries@[i as int]@);
            }
            if str_eq(self.entries[i].manifest.name.as_str(), name) {
                proof {
                    lemma_first_index_at(self@, name@, i as int);
                }
                return Some(i);
            }
            i = i + 1;
        }
        None
    }

    /// Looks an extension up by name.
    pub fn find(&self, name: &str) -> (r: Option<&Extension>)
        ensures
            match r {
                Some(e) => contains_name(self@, name@) && e@ == self@[first_index_of(
                    self@,
                    name@,
                )],
                None => !contains_name(self@, name@),
            },
    {
        match self.find_index(name) {
            Some(i) => {
                proof {
                    assert(self@[i as int] == self.entries@[i as int]@);
                }
                Some(&self.entries[i])
            },
            None => None,
        }
    }

    /// The installed extensions, in registry order.
    pub fn list(&self) -> (r: &Vec<Extension>)
        ensures
            seq_view(r@) == self@,
    {
        &self.entries
    }

    /// Installs `ext`. An identical extension of the same name makes this a
    /// no-op; a differing one is replaced only when `overwrite` is set and
    /// is otherwise reported as `AlreadyInstalled`.
    pub fn install(&mut self, ext: Extension, overwrite: bool) -> (r: Result<
        InstallOutcome,
        ExtensionError,
    >)
        requires
            old(self).wf(),
        ensures
            final(self).wf(),
            r == install_outcome(old(self)@, ext@, overwrite),
            final(self)@ == install_state(old(self)@, ext@, overwrite),
    {
        match self.find_index(ext.manifest.name.as_str()) {
            None => {
                let ghost pre = self@;
                self.entries.push(ext);
                proof {
                    assert(self@ =~= pre.push(ext@));
                    assert forall|i: int, j: int| 0 <= i < j < self@.len() implies (
                    #[trigger] self@[i]).manifest.name != (#[trigger] self@[j]).manifest.name by {
                        if j == self@.len() - 1 {
                            assert(!contains_name(pre, ext@.manifest.name));
                            assert(pre[i].manifest.name != ext@.manifest.name);
                        }
                    }
                }
                Ok(InstallOutcome::Installed)
            },
            Some(i) => {
                proof {
                    assert(self@[i as int] == self.entries@[i as int]@);
                }
                if content_eq(&self.entries[i], &ext) {
                    Ok(InstallOutcome::AlreadyCurrent)
                } else if overwrite {
                    let ghost pre = self@;
                    self.entries.set(i, ext);
                    proof {
                        assert(self@ =~= pre.update(i as int, ext@));
                        assert forall|a: int, b: int| 0 <= a < b < self@.len() implies (
                        #[trigger] self@[a]).manifest.name != (
                        #[trigger] self@[b]).manifest.name by {
                            assert(pre[a].manifest.name != pre[b].manifest.name);
                        }
                    }
                    Ok(InstallOutcome::Replaced)
                } else {
                    Err(ExtensionError::AlreadyInstalled)
                }
            },
        }
    }

    /// Uninstalls the extension named `name`; fails with `NotInstalled`, and
    /// changes nothing, when no such extension is installed.
    pub fn uninstall(&mut self, name: &str) -> (r: Result<(), ExtensionError>)
        requires
            old(self).wf(),
        ensures
            final(self).wf(),
            r == uninstall_outcome(old(self)@, name@),
            final(self)@ == uninstall_state(old(self)@, name@),
    {
        match self.find_index(name) {
            Some(i) => {
                let ghost pre = self@;
                self.entries.remove(i);
                proof {
                    assert(self@ =~= pre.remove(i as int));
                    assert forall|a: int, b: int| 0 <= a < b < self@.len() implies (
                    #[trigger] self@[a]).manifest.name != (#[trigger] self@[b]).manifest.name by {
                        let a0 = if a < i as int {
                            a
                        } else {
                            a + 1
                        };
                        let b0 = if b < i as int {
                            b
                        } else {
                            b + 1
                        };
                        assert(self@[a] == pre[a0]);
                        assert(self@[b] == pre[b0]);
                        assert(pre[a0].manifest.name != pre[b0].manifest.name);
                    }
                }
                Ok(())
            },
            None => Err(ExtensionError::NotInstalled),
        }
    }

    /// Adds `ext` unless an entry of the same name is already present.
    /// This is how a registry is rebuilt from disk entries.
    pub fn push_if_new(&mut self, ext: Extension)
        requires
            old(self).wf(),
        ensures
            final(self).wf(),
            final(self)@ == if contains_name(old(self)@, ext@.manifest.name) {
                old(self)@
            } else {
                old(self)@.push(ext@)
            },
    {
        match self.find_index(ext.manifest.name.as_str()) {
            Some(_) => {},
            None => {
                let ghost pre = self@;
                self.entries.push(ext);
                proof {
                    assert(self@ =~= pre.push(ext@));
                    assert forall|i: int, j: int| 0 <= i < j < self@.len() implies (
                    #[trigger] self@[i]).manifest.name != (#[trigger] self@[j]).manifest.name by {
                        if j == self@.len() - 1 {
                            assert(pre[i].manifest.name != ext@.manifest.name);
                        }
                    }
                }
            },
        }
    }
}

/// The entries kept when a registry is rebuilt from `s` in order, skipping
/// any entry whose name occurred earlier.
pub open spec fn dedup_by_name(s: Seq<ExtensionView>) -> Seq<ExtensionView>
    decreases s.len(),
{
    if s.len() == 0 {
        s
    } else {
        let rest = dedup_by_name(s.drop_last());
        if contains_name(rest, s.last().manifest.name) {
            rest
        } else {
            rest.push(s.last())
        }
    }
}

impl Registry {
    /// Rebuilds the registry from the extensions resolved under the registry
    /// root, in directory order, keeping the first entry of each name.
    pub fn from_entries(entries: Vec<Extension>) -> (r: Registry)
        ensures
            r.wf(),
            r@ == dedup_by_name(seq_view(entries@)),
    {
        let ghost orig: Seq<Extension> = entries@;
        let mut rest = entries;
        let mut reg = Registry::new();
        proof {
            assert(seq_view(orig.take(0)) =~= Seq::<ExtensionView>::empty());
        }
        while rest.len() > 0
            invariant
                reg.wf(),
                rest@.len() <= orig.len(),
                rest@ =~= orig.skip(orig.len() - rest@.len()),
                reg@ == dedup_by_name(seq_view(orig.take(orig.len() - rest@.len()))),
            decreases rest@.len(),
        {
            let ghost k = orig.len() - rest@.len();
            let e = rest.remove(0);
            proof {
                assert(e == orig[k]);
                assert(rest@ =~= orig.skip(orig.len() - rest@.len()));
            }
            reg.push_if_new(e);
            proof {
                let prefix = seq_view(orig.take(k));
                let next = seq_view(orig.take(k + 1));
                assert(next.drop_last() =~= prefix);
                assert(next.last() == orig[k]@);
                assert(next =~= prefix.push(orig[k]@));
                assert(reg@ == dedup_by_name(next));
            }
        }
        proof {
            assert(orig.take(orig.len() - rest@.len()) =~= orig);
        }
        reg
    }
}

/// Installing the same extension twice is idempotent: after any successful
/// install of `e`, installing an identical `e` again reports it as already
/// current and leaves the registry unchanged, whatever either overwrite
/// flag was.
pub proof fn lemma_install_idempotent(s: Seq<ExtensionView>, e: ExtensionView, b1: bool, b2: bool)
    requires
        wf_names(s),
        install_outcome(s, e, b1) is Ok,
    ensures
        install_outcome(install_state(s, e, b1), e, b2) == Ok::<InstallOutcome, ExtensionError>(
            InstallOutcome::AlreadyCurrent,
        ),
        install_state(install_state(s, e, b1), e, b2) == install_state(s, e, b1),
{
    let n = e.manifest.name;
    let s1 = install_state(s, e, b1);
    if !contains_name(s, n) {
        assert(s1 == s.push(e));
        assert(s1[s.len() as int].manifest.name == n);
        assert forall|j: int| 0 <= j < s.len() implies (#[trigger] s1[j]).manifest.name != n by {
            assert(s1[j] == s[j]);
            assert(!(0 <= j < s.len() && s[j].manifest.name == n));
        }
        lemma_first_index_at(s1, n, s.len() as int);
    } else {
        lemma_first_index_props(s, n);
        let i = first_index_of(s, n);
        if s[i] == e {
            assert(s1 == s);
        } else {
            assert(b1);
            assert(s1 == s.update(i, e));
            assert(s1[i].manifest.name == n);
            assert forall|j: int| 0 <= j < i implies (#[trigger] s1[j]).manifest.name != n by {
                assert(s1[j] == s[j]);
            }
            lemma_first_index_at(s1, n, i);
        }
    }
}

/// Installing a differing extension under an occupied name fails with
/// `AlreadyInstalled` and changes nothing unless overwrite is granted; with
/// overwrite it fully replaces the prior entry and touches no other.
pub proof fn lemma_install_conflict(s: Seq<ExtensionView>, e: ExtensionView)
    requires
        wf_names(s),
        contains_name(s, e.manifest.name),
        s[first_index_of(s, e.manifest.name)] != e,
    ensures
        install_outcome(s, e, false) == Err::<InstallOutcome, ExtensionError>(
            ExtensionError::AlreadyInstalled,
        ),
        install_state(s, e, false) == s,
        install_outcome(s, e, true) == Ok::<InstallOutcome, ExtensionError>(
            InstallOutcome::Replaced,
        ),
        install_state(s, e, true) == s.update(first_index_of(s, e.manifest.name), e),
        install_state(s, e, true)[first_index_of(s, e.manifest.name)] == e,
        forall|j: int|
            0 <= j < s.len() && j != first_index_of(s, e.manifest.name) ==> install_state(
                s,
                e,
                true,
            )[j] == s[j],
{
    lemma_first_index_props(s, e.manifest.name);
}

} // verus!
