//! Creating a directory together with the parents it lacks
//!
//! A directory that is created but never flushed into its parent can go away whole in a power
//! loss, taking with it files that were flushed one by one: a node that started, voted, and came
//! back with no memory of the vote it acknowledged.
//!
//! The directories are known here by their place in a chain: 0 is the one to be created, 1 its
//! parent, and so on outwards, as far as there is a path to name one by.

use vstd::prelude::*;

use crate::storage::file_storage::IoFailure;

verus! {

/// One step of creating a directory
#[derive(Debug, Clone, Copy, PartialEq, Eq, Structural)]
pub enum DirStep {
    /// Create the directory at this place of the chain
    Create(usize),

    /// Flush the list of names of the directory at this place of the chain
    Sync(usize),
}

/// What creates the `missing` innermost directories of a chain of `len`: from the outermost one
/// inwards, each flushed into its parent before anything is created inside it
///
/// The outermost directory that a path can name has no parent to flush it into.
pub open spec fn create_steps(len: nat, missing: nat) -> Seq<DirStep>
    decreases missing,
{
    if missing == 0 {
        Seq::empty()
    } else {
        let created = seq![DirStep::Create((missing - 1) as usize)];
        let synced = if missing < len {
            seq![DirStep::Sync(missing as usize)]
        } else {
            Seq::empty()
        };
        created + synced + create_steps(len, (missing - 1) as nat)
    }
}

/// The creation of a directory, while it looks for what is there already
#[derive(Debug)]
pub struct CreateDir {
    len: usize,
    missing: usize,
    found: bool,
}

impl CreateDir {
    /// How many directories the chain has
    pub closed spec fn len(self) -> nat {
        self.len as nat
    }

    /// How many of them, from the innermost on, were seen to be missing
    pub closed spec fn missing(self) -> nat {
        self.missing as nat
    }

    /// Whether all that are missing are known
    pub closed spec fn found(self) -> bool {
        self.found
    }

    #[verifier::type_invariant]
    spec fn inv(self) -> bool {
        self.missing <= self.len && (self.missing == self.len ==> self.found)
    }

    /// Create the innermost directory of a chain of `len`
    pub fn new(len: usize) -> (creation: CreateDir)
        ensures
            creation.len() == len,
            creation.missing() == 0,
            creation.found() == (len == 0),
    {
        CreateDir { len, missing: 0, found: len == 0 }
    }

    /// The place in the chain to look at next, or nothing once all that are missing are known
    ///
    /// Innermost first, stopping at the first that is already there: an existing directory needs
    /// no new entry and no flush.
    pub fn probe(&self) -> (place: Option<usize>)
        ensures
            match place {
                Some(place) => !self.found() && place == self.missing() && place < self.len(),
                None => self.found(),
            },
    {
        proof {
            use_type_invariant(self);
        }
        if self.found {
            None
        } else {
            Some(self.missing)
        }
    }

    /// Take whether there is something at the place that [`Self::probe`] named
    pub fn probed(&mut self, present: bool)
        ensures
            final(self).len() == old(self).len(),
            old(self).found() ==> *final(self) == *old(self),
            !old(self).found() && present ==> final(self).found() && final(self).missing() == old(
                self,
            ).missing(),
            !old(self).found() && !present ==> final(self).missing() == old(self).missing() + 1
                && final(self).found() == (final(self).missing() == final(self).len()),
    {
        proof {
            use_type_invariant(&*self);
        }
        if !self.found {
            let missing: usize = if present {
                self.missing
            } else {
                self.missing + 1
            };
            let found: bool = present || missing == self.len;
            *self = CreateDir { len: self.len, missing, found };
        }
    }

    /// What creates the directories that were seen to be missing, to be done in order and
    /// abandoned at the first that fails
    pub fn steps(&self) -> (steps: Vec<DirStep>)
        ensures
            steps@ == create_steps(self.len(), self.missing()),
    {
        proof {
            use_type_invariant(self);
        }
        let mut steps: Vec<DirStep> = Vec::new();
        let mut left: usize = self.missing;
        while left > 0
            invariant
                left <= self.missing <= self.len,
                steps@ + create_steps(self.len as nat, left as nat) == create_steps(
                    self.len as nat,
                    self.missing as nat,
                ),
            decreases left,
        {
            let ghost before = steps@;
            let ghost rest = create_steps(self.len as nat, (left - 1) as nat);
            steps.push(DirStep::Create(left - 1));
            if left < self.len {
                steps.push(DirStep::Sync(left));
            }
            assert(steps@ + rest =~= before + create_steps(self.len as nat, left as nat));
            left = left - 1;
        }
        assert(steps@ =~= create_steps(self.len as nat, self.missing as nat));
        steps
    }

    /// What an attempt to create a directory means: one that is there already is as good
    ///
    /// Another node opening its own directory beside this one may have built the shared parent
    /// first.
    pub fn created<E>(attempt: Result<(), IoFailure<E>>) -> (result: Result<(), E>)
        ensures
            result == (match attempt {
                Ok(()) => Ok(()),
                Err(IoFailure::AlreadyExists(_)) => Ok(()),
                Err(IoFailure::NotFound(e)) => Err(e),
                Err(IoFailure::Other(e)) => Err(e),
            }),
    {
        match attempt {
            Ok(()) => Ok(()),
            Err(IoFailure::AlreadyExists(_)) => Ok(()),
            Err(IoFailure::NotFound(e)) => Err(e),
            Err(IoFailure::Other(e)) => Err(e),
        }
    }
}

/// The directories of a chain, as a process sees them and as a power loss would leave them
#[verifier::ext_equal]
pub struct Dirs {
    /// The places where there is a directory
    pub there: Set<int>,

    /// The places whose directory a power loss would not take back
    pub durable: Set<int>,
}

impl Dirs {
    /// The directories once `step` was carried out
    pub open spec fn after(self, step: DirStep) -> Dirs {
        match step {
            DirStep::Create(place) => Dirs { there: self.there.insert(place as int), ..self },
            DirStep::Sync(place) => if self.there.contains(place - 1) {
                Dirs { durable: self.durable.insert(place - 1), ..self }
            } else {
                self
            },
        }
    }

    /// The directories once all of `steps` were carried out in order
    pub open spec fn after_all(self, steps: Seq<DirStep>) -> Dirs
        decreases steps.len(),
    {
        if steps.len() == 0 {
            self
        } else {
            self.after(steps[0]).after_all(steps.drop_first())
        }
    }

    /// Whether the directories are there, from the place `from` on to the end of a chain of `len`,
    /// and durable where they have a parent to be flushed into
    pub open spec fn kept(self, from: int, len: int) -> bool {
        forall|k: int|
            #![trigger self.there.contains(k)]
            from <= k < len ==> self.there.contains(k) && (k + 1 < len ==> self.durable.contains(k))
    }
}

/// Creating the missing directories of a chain gives all of it, each directory durable in its
/// parent, when what was there before is durable too.
pub proof fn law_created_chain_is_durable(dirs: Dirs, len: nat, missing: nat)
    requires
        missing <= len <= usize::MAX,
        dirs.kept(missing as int, len as int),
    ensures
        dirs.after_all(create_steps(len, missing)).kept(0, len as int),
    decreases missing,
{
    if missing > 0 {
        let next = lemma_one_level(dirs, len, missing);
        law_created_chain_is_durable(next, len, (missing - 1) as nat);
    }
}

/// No directory is created before its parent is there and durable.
pub proof fn law_parents_come_first(dirs: Dirs, len: nat, missing: nat, j: int)
    requires
        missing <= len <= usize::MAX,
        dirs.kept(missing as int, len as int),
        0 <= j < create_steps(len, missing).len(),
        create_steps(len, missing)[j] is Create,
    ensures
        ({
            let steps = create_steps(len, missing);
            dirs.after_all(steps.take(j)).kept(steps[j]->Create_0 + 1, len as int)
        }),
    decreases missing,
{
    let steps = create_steps(len, missing);
    let rest = create_steps(len, (missing - 1) as nat);
    let first = (steps.len() - rest.len()) as int;
    if j == 0 {
        assert(steps.take(0) =~= Seq::empty());
    } else {
        let next = lemma_one_level(dirs, len, missing);
        assert(j >= first);
        assert(steps[j] == rest[j - first]);
        law_parents_come_first(next, len, (missing - 1) as nat, j - first);
        lemma_after_some(dirs, steps.take(j), first);
        assert(steps.take(j).take(first) =~= steps.take(first));
        assert(steps.take(j).skip(first) =~= rest.take(j - first));
        lemma_after_some(dirs, steps, first);
    }
}

/// The directories after the steps of the outermost missing one
proof fn lemma_one_level(dirs: Dirs, len: nat, missing: nat) -> (next: Dirs)
    requires
        0 < missing <= len <= usize::MAX,
        dirs.kept(missing as int, len as int),
    ensures
        next.kept(missing - 1, len as int),
        ({
            let steps = create_steps(len, missing);
            let rest = create_steps(len, (missing - 1) as nat);
            let first = (steps.len() - rest.len()) as int;
            &&& steps.skip(first) == rest
            &&& first == (if missing < len {
                2int
            } else {
                1
            })
            &&& next == dirs.after_all(steps.take(first))
            &&& dirs.after_all(steps) == next.after_all(rest)
            &&& steps[0] == DirStep::Create((missing - 1) as usize)
            &&& missing < len ==> steps[1] == DirStep::Sync(missing as usize)
        }),
{
    let steps = create_steps(len, missing);
    let rest = create_steps(len, (missing - 1) as nat);
    let first = (steps.len() - rest.len()) as int;
    let next = dirs.after_all(steps.take(first));
    assert(steps.skip(first) =~= rest);
    lemma_after_some(dirs, steps, first);
    reveal_with_fuel(Dirs::after_all, 3);
    assert(steps.take(first)[0] == steps[0]);
    let created = dirs.after(steps[0]);
    if missing < len {
        assert(steps.take(first).drop_first() =~= seq![steps[1]]);
        assert(seq![steps[1]].drop_first() =~= Seq::empty());
        assert(next == created.after(steps[1]));
    } else {
        assert(steps.take(first).drop_first() =~= Seq::empty());
        assert(next == created);
    }
    assert forall|k: int|
        #![trigger next.there.contains(k)]
        missing - 1 <= k < len implies next.there.contains(k) && (k + 1 < len
        ==> next.durable.contains(k)) by {
        if k >= missing {
            assert(dirs.there.contains(k));
        }
    }
    next
}

proof fn lemma_after_some(dirs: Dirs, steps: Seq<DirStep>, k: int)
    requires
        0 <= k <= steps.len(),
    ensures
        dirs.after_all(steps) == dirs.after_all(steps.take(k)).after_all(steps.skip(k)),
    decreases k,
{
    if k == 0 {
        assert(steps.skip(0) =~= steps);
    } else {
        lemma_after_some(dirs.after(steps[0]), steps.drop_first(), k - 1);
        assert(steps.drop_first().take(k - 1) =~= steps.take(k).drop_first());
        assert(steps.drop_first().skip(k - 1) =~= steps.skip(k));
        assert(steps.take(k)[0] == steps[0]);
    }
}

/// Creating the missing directories of a chain takes these steps and no others: each of them is
/// created once, from the outermost inwards, and is flushed into its parent right after, if a path
/// can name its parent.
pub proof fn law_each_missing_directory_is_created_once(len: nat, missing: nat, j: int)
    requires
        missing <= len <= usize::MAX,
        0 <= j < missing,
    ensures
        missing < len ==> {
            let steps = create_steps(len, missing);
            &&& steps.len() == 2 * missing
            &&& steps[2 * j] == DirStep::Create((missing - 1 - j) as usize)
            &&& steps[2 * j + 1] == DirStep::Sync((missing - j) as usize)
        },
        missing == len ==> {
            let steps = create_steps(len, missing);
            &&& steps.len() == 2 * missing - 1
            &&& steps[0] == DirStep::Create((missing - 1) as usize)
            &&& j > 0 ==> steps[2 * j - 1] == DirStep::Create((missing - 1 - j) as usize)
            &&& j > 0 ==> steps[2 * j] == DirStep::Sync((missing - j) as usize)
        },
    decreases missing,
{
    let rest = create_steps(len, (missing - 1) as nat);
    if missing > 1 {
        if j > 0 {
            law_each_missing_directory_is_created_once(len, (missing - 1) as nat, j - 1);
        } else {
            law_each_missing_directory_is_created_once(len, (missing - 1) as nat, 0);
        }
    } else {
        assert(rest =~= Seq::empty());
    }
}

/// A chain that lacks nothing takes no step.
pub proof fn law_nothing_missing_takes_no_step(len: nat)
    ensures
        create_steps(len, 0).len() == 0,
{
}

/// A creation looks from the innermost directory outwards, at each place once, and stops at the
/// first that is there or at the end of the chain; what it found missing is all that is inside of
/// that.
pub proof fn law_creation_looks_outwards(
    len: usize,
    begun: CreateDir,
    creation: &mut CreateDir,
    present: bool,
    place: Option<usize>,
    next: Option<usize>,
    r: (),
)
    requires
        call_ensures(CreateDir::new, (len,), begun),
        call_ensures(CreateDir::probe, (creation,), place),
        place is Some,
        call_ensures(CreateDir::probed, (creation, present), r),
        call_ensures(CreateDir::probe, (final(creation),), next),
    ensures
        begun.missing() == 0,
        begun.len() == len,
        place->0 == old(creation).missing(),
        present ==> next is None && final(creation).missing() == place->0,
        !present ==> final(creation).missing() == place->0 + 1,
        !present && place->0 + 1 < old(creation).len() ==> next is Some && next->0 == place->0 + 1,
        !present && place->0 + 1 == old(creation).len() ==> next is None,
        final(creation).len() == old(creation).len(),
{
}

} // verus!
