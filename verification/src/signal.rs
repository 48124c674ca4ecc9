//! The registry of in-flight spawned containers, swept by the process's
//! termination-signal handler. Registration strictly precedes the spawn and
//! unregistration strictly follows the wait, so a signal arriving at any
//! moment finds every live container here. The handler itself — signal
//! delivery, reading each container-id file, spawning the cleanups, exiting
//! — is unverified plumbing around this registry.

use vstd::prelude::*;
use crate::text::strings_view;

verus! {

/// The container tool that spawned a registered container.
#[derive(Clone, Copy, Debug, PartialEq, Eq, Structural)]
pub enum ContainerRuntime {
    Podman,
    Docker,
}

/// One registration: where the spawned container wrote its id, which
/// runtime manages it, and whether it runs privileged.
#[derive(Debug, Clone)]
pub struct ContainerSignalId {
    pub cid_file: String,
    pub runtime: ContainerRuntime,
    pub privileged: bool,
}

impl View for ContainerSignalId {
    type V = (Seq<char>, ContainerRuntime, bool);

    open spec fn view(&self) -> Self::V {
        (self.cid_file@, self.runtime, self.privileged)
    }
}

impl ContainerSignalId {
    pub fn new(cid_file: String, runtime: ContainerRuntime, privileged: bool) -> (r:
        ContainerSignalId)
        ensures
            r@ == (cid_file@, runtime, privileged),
    {
        ContainerSignalId { cid_file, runtime, privileged }
    }

    fn duplicate(&self) -> (r: ContainerSignalId)
        ensures
            r@ == self@,
    {
        ContainerSignalId {
            cid_file: self.cid_file.clone(),
            runtime: self.runtime,
            privileged: self.privileged,
        }
    }

    fn matches(&self, other: &ContainerSignalId) -> (r: bool)
        ensures
            r == (self@ == other@),
    {
        let r = self.cid_file == other.cid_file && self.runtime == other.runtime
            && self.privileged == other.privileged;
        proof {
            if r {
                assert(self@ =~= other@);
            }
        }
        r
    }
}

pub open spec fn ids_view(v: Seq<ContainerSignalId>) -> Seq<(Seq<char>, ContainerRuntime, bool)> {
    Seq::new(v.len(), |i: int| v[i]@)
}

/// The sequence without the first occurrence of `x`; without one, the
/// sequence itself.
pub open spec fn spec_remove_first(
    s: Seq<(Seq<char>, ContainerRuntime, bool)>,
    x: (Seq<char>, ContainerRuntime, bool),
) -> Seq<(Seq<char>, ContainerRuntime, bool)>
    decreases s.len(),
{
    if s.len() == 0 {
        s
    } else if s[0] == x {
        s.drop_first()
    } else {
        seq![s[0]] + spec_remove_first(s.drop_first(), x)
    }
}

/// How often `x` occurs.
pub open spec fn spec_count(
    s: Seq<(Seq<char>, ContainerRuntime, bool)>,
    x: (Seq<char>, ContainerRuntime, bool),
) -> nat
    decreases s.len(),
{
    if s.len() == 0 {
        0
    } else {
        (if s[0] == x {
            1 as nat
        } else {
            0 as nat
        }) + spec_count(s.drop_first(), x)
    }
}

/// The process-wide collection of live registrations. One instance exists
/// per process, behind the caller's mutual exclusion: add, remove and
/// sweep are each atomic with respect to the signal handler.
pub struct SignalRegistry {
    entries: Vec<ContainerSignalId>,
}

impl View for SignalRegistry {
    type V = Seq<(Seq<char>, ContainerRuntime, bool)>;

    closed spec fn view(&self) -> Self::V {
        ids_view(self.entries@)
    }
}

proof fn lemma_ids_view_push(v: Seq<ContainerSignalId>, id: ContainerSignalId)
    ensures
        ids_view(v.push(id)) == ids_view(v).push(id@),
{
    assert(ids_view(v.push(id)) =~= ids_view(v).push(id@));
}

proof fn lemma_remove_at(s: Seq<ContainerSignalId>, i: int, x: (Seq<char>, ContainerRuntime, bool))
    requires
        0 <= i < s.len(),
        s[i]@ == x,
        forall|j: int| 0 <= j < i ==> s[j]@ != x,
    ensures
        ids_view(s.remove(i)) == spec_remove_first(ids_view(s), x),
    decreases i,
{
    s.remove_ensures(i);
    if i == 0 {
        assert(ids_view(s)[0] == x);
        assert(ids_view(s.remove(0)) =~= ids_view(s).drop_first());
    } else {
        let t = s.drop_first();
        assert(forall|j: int| 0 <= j < i - 1 ==> t[j]@ != x);
        lemma_remove_at(t, i - 1, x);
        assert(ids_view(s)[0] != x);
        assert(ids_view(s).drop_first() =~= ids_view(t));
        assert(ids_view(s.remove(i)) =~= seq![ids_view(s)[0]] + ids_view(t.remove(i - 1)));
    }
}

proof fn lemma_remove_absent(s: Seq<ContainerSignalId>, x: (Seq<char>, ContainerRuntime, bool))
    requires
        forall|j: int| 0 <= j < s.len() ==> s[j]@ != x,
    ensures
        spec_remove_first(ids_view(s), x) == ids_view(s),
    decreases s.len(),
{
    if s.len() > 0 {
        let t = s.drop_first();
        assert(forall|j: int| 0 <= j < t.len() ==> t[j]@ != x);
        lemma_remove_absent(t, x);
        assert(ids_view(s)[0] != x);
        assert(ids_view(s).drop_first() =~= ids_view(t));
        assert(seq![ids_view(s)[0]] + ids_view(t) =~= ids_view(s));
    }
}

impl SignalRegistry {
    /// An empty registry.
    pub fn new() -> (r: SignalRegistry)
        ensures
            r@ == Seq::<(Seq<char>, ContainerRuntime, bool)>::empty(),
    {
        SignalRegistry { entries: Vec::new() }
    }

    /// Adds a registration. Callers do this strictly before spawning the
    /// container, closing the race with an early signal.
    pub fn register(&mut self, id: ContainerSignalId)
        ensures
            final(self)@ == old(self)@.push(id@),
    {
        proof {
            lemma_ids_view_push(self.entries@, id);
        }
        self.entries.push(id);
    }

    /// Removes the first registration equal to `id`, once the spawned
    /// process has been waited on; absent ids leave the registry as it is.
    pub fn unregister(&mut self, id: &ContainerSignalId)
        ensures
            final(self)@ == spec_remove_first(old(self)@, id@),
    {
        let mut i: usize = 0;
        while i < self.entries.len()
            invariant
                0 <= i <= self.entries@.len(),
                self.entries@ == old(self).entries@,
                forall|j: int| 0 <= j < i ==> self.entries@[j]@ != id@,
            decreases self.entries@.len() - i,
        {
            if self.entries[i].matches(id) {
                proof {
                    lemma_remove_at(self.entries@, i as int, id@);
                }
                self.entries.remove(i);
                return;
            }
            i = i + 1;
        }
        proof {
            lemma_remove_absent(self.entries@, id@);
        }
    }

    /// A snapshot of every live registration, in registration order: the
    /// signal handler issues one cleanup attempt for each, ignoring
    /// individual failures, and then exits non-zero.
    pub fn sweep(&self) -> (r: Vec<ContainerSignalId>)
        ensures
            ids_view(r@) == self@,
    {
        let mut r: Vec<ContainerSignalId> = Vec::new();
        let mut i: usize = 0;
        while i < self.entries.len()
            invariant
                0 <= i <= self.entries@.len(),
                ids_view(r@) == ids_view(self.entries@).take(i as int),
            decreases self.entries@.len() - i,
        {
            let id = self.entries[i].duplicate();
            proof {
                lemma_ids_view_push(r@, id);
                assert(ids_view(self.entries@).take(i as int + 1) =~= ids_view(
                    self.entries@,
                ).take(i as int).push(self.entries@[i as int]@));
            }
            r.push(id);
            i = i + 1;
        }
        proof {
            assert(ids_view(self.entries@).take(i as int) =~= ids_view(self.entries@));
        }
        r
    }
}

/// The time-bounded stop command for one swept container, once the handler
/// has read the container id out of the registration's id-file.
pub open spec fn spec_cleanup_command(runtime: ContainerRuntime, cid: Seq<char>) -> Seq<Seq<char>> {
    match runtime {
        ContainerRuntime::Podman => seq!["podman"@, "stop"@, "-t"@, "2"@, cid],
        ContainerRuntime::Docker => seq!["docker"@, "stop"@, "-t"@, "2"@, cid],
    }
}

pub fn cleanup_command(runtime: ContainerRuntime, cid: &str) -> (r: Vec<String>)
    ensures
        strings_view(r@) == spec_cleanup_command(runtime, cid@),
{
    let mut r: Vec<String> = Vec::new();
    match runtime {
        ContainerRuntime::Podman => {
            push_cleanup_arg(&mut r, "podman");
        },
        ContainerRuntime::Docker => {
            push_cleanup_arg(&mut r, "docker");
        },
    }
    push_cleanup_arg(&mut r, "stop");
    push_cleanup_arg(&mut r, "-t");
    push_cleanup_arg(&mut r, "2");
    push_cleanup_arg(&mut r, cid);
    proof {
        assert(strings_view(r@) =~= spec_cleanup_command(runtime, cid@));
    }
    r
}

fn push_cleanup_arg(v: &mut Vec<String>, s: &str)
    ensures
        strings_view(final(v)@) == strings_view(old(v)@).push(s@),
{
    let owned = s.to_owned();
    proof {
        crate::text::lemma_strings_view_push(v@, owned);
    }
    v.push(owned);
}

/// A signal-triggered abort always ends the process with a non-zero
/// status.
pub fn termination_exit_code() -> (r: i32)
    ensures
        r != 0,
{
    1
}

/// Law: signal cleanup is exact. A sweep covers, in order, exactly the
/// registrations live at the moment of the signal (see `sweep`); and
/// unregistration touches nothing else — removing one registration drops
/// exactly one occurrence of it and leaves every other registration's
/// count unchanged, so a container unregistered before the signal draws no
/// cleanup attempt while every still-registered one draws its own.
pub proof fn lemma_signal_cleanup(
    before: Seq<(Seq<char>, ContainerRuntime, bool)>,
    x: (Seq<char>, ContainerRuntime, bool),
)
    ensures
        spec_count(before, x) == 0 ==> spec_remove_first(before, x) == before,
        spec_count(before, x) == 1 ==> spec_count(spec_remove_first(before, x), x) == 0,
        forall|y: (Seq<char>, ContainerRuntime, bool)|
            y != x ==> spec_count(spec_remove_first(before, x), y) == spec_count(before, y),
    decreases before.len(),
{
    if before.len() > 0 {
        let t = before.drop_first();
        lemma_signal_cleanup(t, x);
        if before[0] == x {
            assert(spec_remove_first(before, x) == t);
            assert forall|y: (Seq<char>, ContainerRuntime, bool)| y != x implies spec_count(
                spec_remove_first(before, x),
                y,
            ) == spec_count(before, y) by {
                assert(spec_count(before, y) == spec_count(t, y));
            }
        } else {
            assert(spec_remove_first(before, x) == seq![before[0]] + spec_remove_first(t, x));
            lemma_count_cons(before[0], spec_remove_first(t, x));
            assert forall|y: (Seq<char>, ContainerRuntime, bool)| y != x implies spec_count(
                spec_remove_first(before, x),
                y,
            ) == spec_count(before, y) by {
                assert(spec_count(seq![before[0]] + spec_remove_first(t, x), y) == spec_count(
                    spec_remove_first(t, x),
                    y,
                ) + (if y == before[0] {
                    1 as nat
                } else {
                    0 as nat
                }));
                assert(spec_count(spec_remove_first(t, x), y) == spec_count(t, y));
                assert(spec_count(before, y) == spec_count(t, y) + (if before[0] == y {
                    1 as nat
                } else {
                    0 as nat
                }));
            }
            if spec_count(before, x) == 0 {
                assert(spec_remove_first(t, x) == t);
                assert(seq![before[0]] + t =~= before);
            }
            if spec_count(before, x) == 1 {
                assert(spec_count(seq![before[0]] + spec_remove_first(t, x), x) == spec_count(
                    spec_remove_first(t, x),
                    x,
                ));
            }
        }
    }
}

/// Prepending one element raises its own count by one and no other's.
proof fn lemma_count_cons(
    head: (Seq<char>, ContainerRuntime, bool),
    tail: Seq<(Seq<char>, ContainerRuntime, bool)>,
)
    ensures
        forall|y: (Seq<char>, ContainerRuntime, bool)|
            spec_count(seq![head] + tail, y) == spec_count(tail, y) + (if y == head {
                1 as nat
            } else {
                0 as nat
            }),
{
    assert forall|y: (Seq<char>, ContainerRuntime, bool)|
        spec_count(seq![head] + tail, y) == spec_count(tail, y) + (if y == head {
            1 as nat
        } else {
            0 as nat
        }) by {
        let s = seq![head] + tail;
        assert(s.len() == tail.len() + 1);
        assert(s[0] == head);
        assert(s.drop_first() =~= tail);
    }
}

} // verus!
