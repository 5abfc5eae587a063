//! The registry of sinks and the fan-out of records to them.

use crate::config::AppConfig;
use crate::domain::acmi::{AcmiRepository, WriteError};
use crate::domain::acmi_file::{AcmiFileRepository, SavedArchive, StartError, StopError};
use crate::infra::acmi_file::{FileAcmiRepository, Recording};
use vstd::prelude::*;

verus! {

/// A registered sink: the recorder, or a live sink of the caller's making.
pub enum Sink<L> {
    /// A recorder.
    File(FileAcmiRepository),
    /// A live sink.
    Live(L),
}

impl<L: AcmiRepository> AcmiRepository for Sink<L> {
    open spec fn write_post(&self, acmi: Seq<char>, post: &Self, result: Result<(), WriteError>) -> bool {
        match (*self, *post) {
            (Sink::File(before), Sink::File(after)) => before.write_post(acmi, &after, result),
            (Sink::Live(before), Sink::Live(after)) => before.write_post(acmi, &after, result),
            _ => false,
        }
    }

    fn write(&mut self, acmi: &str) -> (r: Result<(), WriteError>) {
        match self {
            Sink::File(recorder) => recorder.write(acmi),
            Sink::Live(live) => live.write(acmi),
        }
    }

    fn step(&self) {
        match self {
            Sink::File(recorder) => recorder.step(),
            Sink::Live(live) => live.step(),
        }
    }
}

/// A sink with the number it was registered under.
struct Registered<L> {
    id: u64,
    sink: Sink<L>,
}

/// The registry: the sinks in the order in which they were registered.
pub struct AppState<L> {
    acmi_repositories: Vec<Registered<L>>,
    next_id: u64,
    verbose: bool,
}

/// What starting the recorders does to one sink: a live sink is left
/// alone; a recorder holds a fresh recording, or, where starting failed on
/// the way (`done` is false), may also be idle or as it was.
pub open spec fn start_effect<L>(before: Sink<L>, after: Sink<L>, taken: Seq<String>, done: bool) -> bool {
    match (before, after) {
        (Sink::Live(a), Sink::Live(b)) => a == b,
        (Sink::File(a), Sink::File(b)) => {
            &&& b.config() == a.config()
            &&& {
                ||| exists|now_secs: nat| (#[trigger] b@.fresh(now_secs, taken))
                ||| !done && (b@ == Recording::Idle || b@ == a@)
            }
        },
        _ => false,
    }
}

/// Whether starting the recorders gave up at the sink in place `at`: that
/// sink is a recorder, which has dropped what it held and is idle; every
/// recorder before it holds a fresh recording; the sinks behind it are as
/// they were.
pub open spec fn start_gave_up_at<L>(
    before: Seq<Sink<L>>,
    after: Seq<Sink<L>>,
    taken: Seq<String>,
    at: int,
) -> bool {
    &&& 0 <= at < before.len()
    &&& after.len() == before.len()
    &&& before[at] matches Sink::File(a) && after[at] matches Sink::File(b) && b@
        == Recording::Idle && b.config() == a.config()
    &&& forall|j: int| 0 <= j < at ==> start_effect(#[trigger] before[j], after[j], taken, true)
    &&& forall|j: int| at < j < before.len() ==> #[trigger] after[j] == before[j]
}

/// Whether none of `sinks` is a recorder.
pub open spec fn has_no_recorder<L>(sinks: Seq<Sink<L>>) -> bool {
    forall|i: int| 0 <= i < sinks.len() ==> (#[trigger] sinks[i]) is Live
}

/// What stopping the recorders does to one sink: a live sink is left
/// alone; a recorder is idle, or, where archiving failed on the way
/// (`done` is false), may also be as it was.
pub open spec fn stop_effect<L>(before: Sink<L>, after: Sink<L>, done: bool) -> bool {
    match (before, after) {
        (Sink::Live(a), Sink::Live(b)) => a == b,
        (Sink::File(a), Sink::File(b)) => {
            &&& b.config() == a.config()
            &&& (b@ == Recording::Idle || (!done && b@ == a@))
        },
        _ => false,
    }
}

/// Whether stopping the recorders gave up at the sink in place `at`: that
/// sink is a recorder whose recording was too large to be archived for
/// sure, and which has dropped it and is idle; every recorder before it
/// is idle; the sinks behind it are as they were.
pub open spec fn stop_gave_up_at<L>(before: Seq<Sink<L>>, after: Seq<Sink<L>>, at: int) -> bool {
    &&& 0 <= at < before.len()
    &&& after.len() == before.len()
    &&& before[at] matches Sink::File(a) && after[at] matches Sink::File(b) && !a@.fits() && b@
        == Recording::Idle && b.config() == a.config()
    &&& forall|j: int| 0 <= j < at ==> stop_effect(#[trigger] before[j], after[j], true)
    &&& forall|j: int| at < j < before.len() ==> #[trigger] after[j] == before[j]
}

/// Whether every one of `recordings` is small enough to be archived for
/// sure.
pub open spec fn recordings_fit(recordings: Seq<Recording>) -> bool {
    forall|k: int| 0 <= k < recordings.len() ==> (#[trigger] recordings[k]).fits()
}

/// The recordings under way among `sinks`, in registration order.
pub open spec fn recordings<L>(sinks: Seq<Sink<L>>) -> Seq<Recording>
    decreases sinks.len(),
{
    if sinks.len() == 0 {
        Seq::empty()
    } else {
        let before = recordings(sinks.drop_last());
        match sinks.last() {
            Sink::File(recorder) => if recorder@ != Recording::Idle {
                before.push(recorder@)
            } else {
                before
            },
            Sink::Live(_) => before,
        }
    }
}

/// What stopping the recorders hands out.
pub struct StopReport {
    /// The archives of the recordings that were stopped, in registration
    /// order.
    pub archives: Vec<SavedArchive>,
    /// The failure that ended the stopping early, if there was one.
    pub failure: Option<StopError>,
}

/// The test for being another number than `id`.
pub open spec fn other_than(id: u64) -> spec_fn(u64) -> bool {
    |other: u64| other != id
}

/// `ids` without `id`.
pub open spec fn without_id(ids: Seq<u64>, id: u64) -> Seq<u64> {
    ids.filter(other_than(id))
}

impl<L: AcmiRepository> AppState<L> {
    /// The numbers of the registered sinks, in registration order.
    pub closed spec fn ids(&self) -> Seq<u64> {
        self.acmi_repositories@.map_values(|entry: Registered<L>| entry.id)
    }

    /// The registered sinks, in registration order.
    pub closed spec fn sinks(&self) -> Seq<Sink<L>> {
        self.acmi_repositories@.map_values(|entry: Registered<L>| entry.sink)
    }

    /// The number that the next sink will be registered under.
    pub closed spec fn next_id(&self) -> u64 {
        self.next_id
    }

    /// Whether the bridge logs in detail.
    pub closed spec fn verbose(&self) -> bool {
        self.verbose
    }

    /// The registry's invariant: the numbers grow along the registration
    /// order and stay below the next number, so no two sinks share one.
    pub open spec fn wf(&self) -> bool {
        &&& self.ids().len() == self.sinks().len()
        &&& forall|i: int, j: int|
            0 <= i < j < self.ids().len() ==> #[trigger] self.ids()[i] < #[trigger] self.ids()[j]
        &&& forall|i: int| 0 <= i < self.ids().len() ==> #[trigger] self.ids()[i] < self.next_id()
    }

    /// An empty registry.
    pub fn new() -> (r: Self)
        ensures
            r.wf(),
            r.ids() == Seq::<u64>::empty(),
            r.sinks() == Seq::<Sink<L>>::empty(),
            r.next_id() == 0,
            !r.verbose(),
    {
        Self::new_with_verbose(false)
    }

    /// An empty registry, verbose or not.
    pub fn new_with_verbose(verbose: bool) -> (r: Self)
        ensures
            r.wf(),
            r.ids() == Seq::<u64>::empty(),
            r.sinks() == Seq::<Sink<L>>::empty(),
            r.next_id() == 0,
            r.verbose() == verbose,
    {
        let r = AppState { acmi_repositories: Vec::new(), next_id: 0, verbose };
        assert(r.ids() =~= Seq::<u64>::empty());
        assert(r.sinks() =~= Seq::<Sink<L>>::empty());
        r
    }

    /// Whether the bridge logs in detail.
    pub fn is_verbose(&self) -> (b: bool)
        ensures
            b == self.verbose(),
    {
        self.verbose
    }

    /// How many sinks are registered.
    pub fn list_len(&self) -> (n: usize)
        ensures
            n == self.sinks().len(),
    {
        self.acmi_repositories.len()
    }

    /// Registers `sink` behind the others and hands out its number. When
    /// the numbers have run out the sink is handed back and nothing
    /// changes.
    pub fn register(&mut self, sink: Sink<L>) -> (r: Result<u64, Sink<L>>)
        requires
            old(self).wf(),
        ensures
            final(self).wf(),
            final(self).verbose() == old(self).verbose(),
            match r {
                Ok(id) => {
                    &&& old(self).next_id() < u64::MAX
                    &&& id == old(self).next_id()
                    &&& final(self).next_id() == id + 1
                    &&& final(self).ids() == old(self).ids().push(id)
                    &&& final(self).sinks() == old(self).sinks().push(sink)
                },
                Err(back) => {
                    &&& old(self).next_id() == u64::MAX
                    &&& back == sink
                    &&& final(self).next_id() == old(self).next_id()
                    &&& final(self).ids() == old(self).ids()
                    &&& final(self).sinks() == old(self).sinks()
                },
            },
    {
        if self.next_id == u64::MAX {
            return Err(sink);
        }
        let id = self.next_id;
        self.acmi_repositories.push(Registered { id, sink });
        self.next_id = id + 1;
        assert(self.ids() =~= old(self).ids().push(id));
        assert(self.sinks() =~= old(self).sinks().push(sink));
        Ok(id)
    }

    /// Whether a sink is registered under `id`.
    pub fn is_registered(&self, id: u64) -> (b: bool)
        ensures
            b == self.ids().contains(id),
    {
        let mut i: usize = 0;
        while i < self.acmi_repositories.len()
            invariant
                i <= self.acmi_repositories.len(),
                forall|j: int| 0 <= j < i ==> self.ids()[j] != id,
            decreases self.acmi_repositories.len() - i,
        {
            if self.acmi_repositories[i].id == id {
                assert(self.ids()[i as int] == id);
                return true;
            }
            i += 1;
        }
        false
    }

    /// The sink registered under `id`, if there is one.
    pub fn get(&self, id: u64) -> (r: Option<&Sink<L>>)
        ensures
            match r {
                Some(sink) => exists|at: int|
                    0 <= at < self.ids().len() && self.ids()[at] == id && *sink
                        == self.sinks()[at],
                None => !self.ids().contains(id),
            },
    {
        let mut i: usize = 0;
        while i < self.acmi_repositories.len()
            invariant
                i <= self.acmi_repositories.len(),
                forall|j: int| 0 <= j < i ==> self.ids()[j] != id,
            decreases self.acmi_repositories.len() - i,
        {
            if self.acmi_repositories[i].id == id {
                assert(self.ids()[i as int] == id);
                assert(self.sinks()[i as int] == self.acmi_repositories@[i as int].sink);
                return Some(&self.acmi_repositories[i].sink);
            }
            i += 1;
        }
        None
    }

    /// Takes the sink registered under `id` out of the registry and hands
    /// it out; the others keep their order. Without such a sink nothing
    /// changes.
    pub fn deregister(&mut self, id: u64) -> (r: Option<Sink<L>>)
        requires
            old(self).wf(),
        ensures
            final(self).wf(),
            final(self).verbose() == old(self).verbose(),
            final(self).next_id() == old(self).next_id(),
            final(self).ids() == without_id(old(self).ids(), id),
            !final(self).ids().contains(id),
            match r {
                Some(sink) => exists|at: int|
                    0 <= at < old(self).ids().len() && old(self).ids()[at] == id && sink == old(self).sinks()[at] && final(self).sinks() == old(self).sinks().remove(at),
                None => !old(self).ids().contains(id) && final(self).sinks() == old(self).sinks(),
            },
    {
        let mut i: usize = 0;
        while i < self.acmi_repositories.len()
            invariant
                *self == *old(self),
                self.wf(),
                i <= self.acmi_repositories.len(),
                forall|j: int| 0 <= j < i ==> self.ids()[j] != id,
            decreases self.acmi_repositories.len() - i,
        {
            if self.acmi_repositories[i].id == id {
                let entry = self.acmi_repositories.remove(i);
                proof {
                    let before = old(self).ids();
                    assert(self.ids() =~= before.remove(i as int));
                    assert(self.sinks() =~= old(self).sinks().remove(i as int));
                    lemma_without_unique(before, id, i as int);
                    assert(before[i as int] == id);
                }
                return Some(entry.sink);
            }
            i += 1;
        }
        proof {
            lemma_without_absent(self.ids(), id);
        }
        None
    }

    /// Starts a recording on every recorder, in registration order, and
    /// gives up at the first that fails. `taken` holds the file names
    /// that the recordings must not use. Each recorder reads the clock
    /// for itself and fails only when the clock cannot be read, so
    /// without a recorder nothing can fail. A recorder that fails has
    /// dropped its recording all the same.
    pub fn start_recorders(&mut self, taken: &Vec<String>) -> (r: Result<(), StartError>)
        requires
            old(self).wf(),
        ensures
            final(self).wf(),
            final(self).verbose() == old(self).verbose(),
            final(self).next_id() == old(self).next_id(),
            final(self).ids() == old(self).ids(),
            final(self).sinks().len() == old(self).sinks().len(),
            forall|i: int|
                0 <= i < old(self).sinks().len() ==> start_effect(
                    #[trigger] old(self).sinks()[i],
                    final(self).sinks()[i],
                    taken@,
                    r is Ok,
                ),
            has_no_recorder(old(self).sinks()) ==> r is Ok,
            r is Err ==> exists|at: int|
                start_gave_up_at(old(self).sinks(), final(self).sinks(), taken@, at),
    {
        let mut i: usize = 0;
        while i < self.acmi_repositories.len()
            invariant
                old(self).wf(),
                i <= self.acmi_repositories.len(),
                self.verbose() == old(self).verbose(),
                self.next_id() == old(self).next_id(),
                self.ids() == old(self).ids(),
                self.sinks().len() == old(self).sinks().len(),
                forall|j: int|
                    0 <= j < i ==> start_effect(
                        #[trigger] old(self).sinks()[j],
                        self.sinks()[j],
                        taken@,
                        true,
                    ),
                forall|j: int|
                    i <= j < self.sinks().len() ==> (#[trigger] self.sinks()[j]) == old(self).sinks()[j],
            decreases self.acmi_repositories.len() - i,
        {
            let ghost before = *self;
            let started = match &mut self.acmi_repositories[i].sink {
                Sink::File(recorder) => recorder.start(taken),
                Sink::Live(_) => Ok(()),
            };
            proof {
                let now = self.acmi_repositories@;
                let then = before.acmi_repositories@;
                assert(now.len() == then.len());
                assert(now[i as int].id == then[i as int].id);
                assert(forall|j: int| 0 <= j < now.len() && j != i ==> now[j] == then[j]);
                assert(self.ids() =~= before.ids());
                assert(before.sinks()[i as int] == old(self).sinks()[i as int]);
                assert(start_effect(
                    before.sinks()[i as int],
                    self.sinks()[i as int],
                    taken@,
                    started is Ok,
                ));
                assert forall|j: int| i + 1 <= j < self.sinks().len() implies (#[trigger] self.sinks()[j])
                    == before.sinks()[j] by {}
            }
            match started {
                Ok(()) => {},
                Err(e) => {
                    proof {
                        assert forall|j: int| 0 <= j < old(self).sinks().len() implies start_effect(
                            #[trigger] old(self).sinks()[j],
                            self.sinks()[j],
                            taken@,
                            false,
                        ) by {
                            if j != i {
                                assert(self.sinks()[j] == before.sinks()[j]);
                            }
                        }
                        assert(old(self).sinks()[i as int] is File);
                        assert forall|j: int| i < j < old(self).sinks().len() implies #[trigger] self.sinks()[j]
                            == old(self).sinks()[j] by {
                            assert(self.sinks()[j] == before.sinks()[j]);
                        }
                        assert(start_gave_up_at(
                            old(self).sinks(),
                            self.sinks(),
                            taken@,
                            i as int,
                        ));
                    }
                    return Err(e);
                },
            }
            i += 1;
        }
        Ok(())
    }

    /// Stops every recorder, in registration order, and gives up at the
    /// first whose recording cannot be archived. Hands out the archives
    /// of the recordings that were under way. Nothing fails where every
    /// recording is small enough to be archived for sure.
    pub fn stop_recorders(&mut self) -> (r: StopReport)
        requires
            old(self).wf(),
        ensures
            final(self).wf(),
            final(self).verbose() == old(self).verbose(),
            final(self).next_id() == old(self).next_id(),
            final(self).ids() == old(self).ids(),
            final(self).sinks().len() == old(self).sinks().len(),
            forall|i: int|
                0 <= i < old(self).sinks().len() ==> stop_effect(
                    #[trigger] old(self).sinks()[i],
                    final(self).sinks()[i],
                    r.failure is None,
                ),
            r.archives.len() <= recordings(old(self).sinks()).len(),
            r.failure is None <==> r.archives.len() == recordings(old(self).sinks()).len(),
            forall|k: int|
                0 <= k < r.archives.len() ==> (#[trigger] recordings(
                    old(self).sinks(),
                )[k]).archived_as(r.archives[k]),
            recordings_fit(recordings(old(self).sinks())) ==> r.failure is None,
            r.failure is Some ==> exists|at: int|
                stop_gave_up_at(old(self).sinks(), final(self).sinks(), at) && r.archives.len()
                    == recordings(old(self).sinks().take(at)).len(),
    {
        let mut archives: Vec<SavedArchive> = Vec::new();
        let mut i: usize = 0;
        let ghost all = old(self).sinks();
        assert(all.take(0) =~= Seq::<Sink<L>>::empty());
        while i < self.acmi_repositories.len()
            invariant
                old(self).wf(),
                all == old(self).sinks(),
                i <= self.acmi_repositories.len(),
                self.verbose() == old(self).verbose(),
                self.next_id() == old(self).next_id(),
                self.ids() == old(self).ids(),
                self.sinks().len() == all.len(),
                forall|j: int| 0 <= j < i ==> stop_effect(#[trigger] all[j], self.sinks()[j], true),
                forall|j: int|
                    i <= j < self.sinks().len() ==> (#[trigger] self.sinks()[j]) == all[j],
                archives.len() == recordings(all.take(i as int)).len(),
                forall|k: int|
                    0 <= k < archives.len() ==> (#[trigger] recordings(
                        all.take(i as int),
                    )[k]).archived_as(archives[k]),
            decreases self.acmi_repositories.len() - i,
        {
            let ghost before = *self;
            let stopped = match &mut self.acmi_repositories[i].sink {
                Sink::File(recorder) => recorder.stop(),
                Sink::Live(_) => Ok(None),
            };
            proof {
                let now = self.acmi_repositories@;
                let then = before.acmi_repositories@;
                assert(now.len() == then.len());
                assert(now[i as int].id == then[i as int].id);
                assert(forall|j: int| 0 <= j < now.len() && j != i ==> now[j] == then[j]);
                assert(self.ids() =~= before.ids());
                assert(before.sinks()[i as int] == all[i as int]);
                assert forall|j: int| i + 1 <= j < self.sinks().len() implies (#[trigger] self.sinks()[j])
                    == before.sinks()[j] by {}
                assert(all.take(i + 1).drop_last() =~= all.take(i as int));
                assert(all.take(i + 1).last() == all[i as int]);
                lemma_recordings_prefix(all, i + 1);
            }
            match stopped {
                Ok(None) => {},
                Ok(Some(archive)) => {
                    archives.push(archive);
                },
                Err(e) => {
                    proof {
                        assert forall|j: int| 0 <= j < all.len() implies stop_effect(
                            #[trigger] all[j],
                            self.sinks()[j],
                            false,
                        ) by {
                            if j != i {
                                assert(self.sinks()[j] == before.sinks()[j]);
                            }
                        }
                        lemma_recordings_prefix(all, i as int);
                        assert forall|k: int| 0 <= k < archives.len() implies (#[trigger] recordings(
                            all,
                        )[k]).archived_as(archives[k]) by {
                            assert(recordings(all.take(i as int))[k] == recordings(all)[k]);
                        }
                        assert(all[i as int] is File);
                        assert forall|j: int| i < j < all.len() implies #[trigger] self.sinks()[j]
                            == all[j] by {
                            assert(self.sinks()[j] == before.sinks()[j]);
                        }
                        assert(stop_gave_up_at(all, self.sinks(), i as int));
                        let given_up = recordings(all.take(i + 1)).last();
                        assert(!given_up.fits());
                        assert(recordings(all)[archives.len() as int] == given_up);
                    }
                    return StopReport { archives, failure: Some(e) };
                },
            }
            i += 1;
        }
        assert(all.take(i as int) =~= all);
        StopReport { archives, failure: None }
    }

    /// Hands `record` to every registered sink, in registration order. A
    /// sink that fails does not keep the record from the sinks behind it,
    /// and stays registered. The results come in the order of the sinks.
    pub fn broadcast(&mut self, record: &str) -> (results: Vec<Result<(), WriteError>>)
        requires
            old(self).wf(),
        ensures
            final(self).wf(),
            final(self).verbose() == old(self).verbose(),
            final(self).next_id() == old(self).next_id(),
            final(self).ids() == old(self).ids(),
            final(self).sinks().len() == old(self).sinks().len(),
            results.len() == old(self).sinks().len(),
            forall|i: int|
                0 <= i < results.len() ==> (#[trigger] old(self).sinks()[i]).write_post(
                    record@,
                    &final(self).sinks()[i],
                    results[i],
                ),
    {
        let mut results: Vec<Result<(), WriteError>> = Vec::new();
        let mut i: usize = 0;
        while i < self.acmi_repositories.len()
            invariant
                i <= self.acmi_repositories.len(),
                self.verbose() == old(self).verbose(),
                self.next_id() == old(self).next_id(),
                self.ids() == old(self).ids(),
                self.sinks().len() == old(self).sinks().len(),
                results.len() == i,
                forall|j: int|
                    0 <= j < i ==> (#[trigger] old(self).sinks()[j]).write_post(
                        record@,
                        &self.sinks()[j],
                        results[j],
                    ),
                forall|j: int|
                    i <= j < self.sinks().len() ==> (#[trigger] self.sinks()[j]) == old(self).sinks()[j],
            decreases self.acmi_repositories.len() - i,
        {
            let ghost before = *self;
            let r = self.acmi_repositories[i].sink.write(record);
            results.push(r);
            proof {
                let now = self.acmi_repositories@;
                let then = before.acmi_repositories@;
                assert(now.len() == then.len());
                assert(now[i as int].id == then[i as int].id);
                assert(forall|j: int| 0 <= j < now.len() && j != i ==> now[j] == then[j]);
                assert(self.ids() =~= before.ids());
                assert(before.sinks()[i as int].write_post(record@, &self.sinks()[i as int], r));
                assert forall|j: int| 0 <= j < i + 1 implies (#[trigger] old(self).sinks()[j]).write_post(
                    record@,
                    &self.sinks()[j],
                    results[j],
                ) by {
                    if j < i {
                        assert(self.sinks()[j] == before.sinks()[j]);
                    }
                }
                assert forall|j: int| i + 1 <= j < self.sinks().len() implies (#[trigger] self.sinks()[j])
                    == old(self).sinks()[j] by {
                    assert(self.sinks()[j] == before.sinks()[j]);
                }
            }
            i += 1;
        }
        results
    }
}

impl<L: AcmiRepository> Default for AppState<L> {
    fn default() -> (r: Self)
        ensures
            r.wf(),
            r.ids() == Seq::<u64>::empty(),
            r.sinks() == Seq::<Sink<L>>::empty(),
            r.next_id() == 0,
            !r.verbose(),
    {
        Self::new()
    }
}

/// The registry that the bridge starts with: a recorder with the given
/// configuration, registered under the first number.
pub fn init_app_state<L: AcmiRepository>(verbose: bool, config: AppConfig) -> (r: AppState<L>)
    ensures
        r.wf(),
        r.verbose() == verbose,
        r.ids() == seq![0u64],
        r.sinks().len() == 1,
        r.sinks()[0] matches Sink::File(recorder) && recorder@ == Recording::Idle
            && recorder.config() == config,
{
    let mut state = AppState::new_with_verbose(verbose);
    let recorder = FileAcmiRepository::new_with_config(config);
    let registered = state.register(Sink::File(recorder));
    assert(registered is Ok);
    assert(state.ids() =~= seq![0u64]);
    state
}

/// The recordings among the first `n` sinks open the recordings among all
/// of them.
proof fn lemma_recordings_prefix<L>(sinks: Seq<Sink<L>>, n: int)
    requires
        0 <= n <= sinks.len(),
    ensures
        recordings(sinks.take(n)).len() <= recordings(sinks).len(),
        forall|k: int|
            0 <= k < recordings(sinks.take(n)).len() ==> recordings(sinks.take(n))[k]
                == recordings(sinks)[k],
    decreases sinks.len() - n,
{
    if n == sinks.len() {
        assert(sinks.take(n) =~= sinks);
    } else {
        lemma_recordings_prefix(sinks, n + 1);
        assert(sinks.take(n + 1).drop_last() =~= sinks.take(n));
    }
}

/// Deregistering touches one sink only: every other registered number is
/// still registered afterwards, and none is added.
pub proof fn law_deregister_keeps_the_others(ids: Seq<u64>, id: u64)
    ensures
        forall|other: u64|
            without_id(ids, id).contains(other) <==> (other != id && ids.contains(other)),
        without_id(ids, id).len() <= ids.len(),
{
    let keep = other_than(id);
    ids.lemma_filter_len(keep);
    assert forall|other: u64| without_id(ids, id).contains(other) <==> (other != id
        && ids.contains(other)) by {
        if without_id(ids, id).contains(other) {
            ids.lemma_filter_contains_rev(keep, other);
            let at = choose|at: int|
                0 <= at < without_id(ids, id).len() && without_id(ids, id)[at] == other;
            ids.lemma_filter_pred(keep, at);
        }
        if other != id && ids.contains(other) {
            let at = choose|at: int| 0 <= at < ids.len() && ids[at] == other;
            ids.lemma_filter_contains(keep, at);
        }
    }
}

/// Deregistering keeps the registration order of the sinks that stay.
pub proof fn law_deregister_keeps_the_order(ids: Seq<u64>, id: u64)
    requires
        forall|i: int, j: int| 0 <= i < j < ids.len() ==> #[trigger] ids[i] < #[trigger] ids[j],
    ensures
        forall|a: int, b: int|
            0 <= a < b < without_id(ids, id).len() ==> #[trigger] without_id(ids, id)[a]
                < #[trigger] without_id(ids, id)[b],
{
    lemma_without_keeps_order(ids, id);
}

/// A call on the registry, as far as it bears on which sinks are
/// registered.
pub enum RegistryCall {
    /// A sink is registered.
    Register,
    /// The sink under this number is deregistered.
    Deregister(u64),
    /// A record is handed to the sinks.
    Broadcast,
}

/// The numbers of the registered sinks and the next number to give out
/// after `call`, when they were `ids` and `next` before it.
pub open spec fn registry_after(ids: Seq<u64>, next: u64, call: RegistryCall) -> (Seq<u64>, u64) {
    match call {
        RegistryCall::Register => if next < u64::MAX {
            (ids.push(next), (next + 1) as u64)
        } else {
            (ids, next)
        },
        RegistryCall::Deregister(id) => (without_id(ids, id), next),
        RegistryCall::Broadcast => (ids, next),
    }
}

/// The numbers of the registered sinks and the next number to give out
/// after `calls` on an empty registry, whichever callers made them and
/// however their calls fell one behind the other.
pub open spec fn registry_after_all(calls: Seq<RegistryCall>) -> (Seq<u64>, u64)
    decreases calls.len(),
{
    if calls.len() == 0 {
        (Seq::empty(), 0)
    } else {
        let before = registry_after_all(calls.drop_last());
        registry_after(before.0, before.1, calls.last())
    }
}

/// Whether, after `calls` on an empty registry, a sink was registered
/// under `id` and has not been deregistered since.
pub open spec fn registered_and_kept(calls: Seq<RegistryCall>, id: u64) -> bool
    decreases calls.len(),
{
    if calls.len() == 0 {
        false
    } else {
        let earlier = calls.drop_last();
        match calls.last() {
            RegistryCall::Register => {
                let next = registry_after_all(earlier).1;
                (next < u64::MAX && id == next) || registered_and_kept(earlier, id)
            },
            RegistryCall::Deregister(gone) => gone != id && registered_and_kept(earlier, id),
            RegistryCall::Broadcast => registered_and_kept(earlier, id),
        }
    }
}

/// Whatever calls are made on a registry, in whatever order they come to
/// be served: no registration is lost, none comes back after it was taken
/// back, no number stands for two sinks, and the sinks stay in the order
/// in which they were registered.
pub proof fn law_registry_keeps_its_registrations(calls: Seq<RegistryCall>)
    ensures
        forall|id: u64|
            registry_after_all(calls).0.contains(id) <==> registered_and_kept(calls, id),
        forall|i: int, j: int|
            0 <= i < j < registry_after_all(calls).0.len() ==> #[trigger] registry_after_all(
                calls,
            ).0[i] < #[trigger] registry_after_all(calls).0[j],
        forall|i: int|
            0 <= i < registry_after_all(calls).0.len() ==> #[trigger] registry_after_all(
                calls,
            ).0[i] < registry_after_all(calls).1,
    decreases calls.len(),
{
    let after = registry_after_all(calls);
    if calls.len() == 0 {
        assert forall|id: u64| !after.0.contains(id) by {}
    } else {
        let earlier = calls.drop_last();
        law_registry_keeps_its_registrations(earlier);
        let before = registry_after_all(earlier);
        assert(after == registry_after(before.0, before.1, calls.last()));
        match calls.last() {
            RegistryCall::Register => {
                assert forall|id: u64| after.0.contains(id) <==> registered_and_kept(
                    calls,
                    id,
                ) by {
                    lemma_register_step(before.0, before.1, id);
                    assert(before.0.contains(id) <==> registered_and_kept(earlier, id));
                }
            },
            RegistryCall::Deregister(gone) => {
                law_deregister_keeps_the_others(before.0, gone);
                law_deregister_keeps_the_order(before.0, gone);
                assert forall|id: u64| after.0.contains(id) <==> registered_and_kept(
                    calls,
                    id,
                ) by {
                    assert(before.0.contains(id) <==> registered_and_kept(earlier, id));
                }
                assert forall|i: int| 0 <= i < after.0.len() implies #[trigger] after.0[i]
                    < after.1 by {
                    assert(after.0.contains(after.0[i]));
                    assert(before.0.contains(after.0[i]));
                    let at = choose|at: int| 0 <= at < before.0.len() && before.0[at] == after.0[i];
                    assert(before.0[at] < before.1);
                }
            },
            RegistryCall::Broadcast => {
                assert forall|id: u64| after.0.contains(id) <==> registered_and_kept(
                    calls,
                    id,
                ) by {
                    assert(before.0.contains(id) <==> registered_and_kept(earlier, id));
                }
            },
        }
    }
}

/// Registering adds the next number and nothing else.
proof fn lemma_register_step(ids: Seq<u64>, next: u64, id: u64)
    ensures
        registry_after(ids, next, RegistryCall::Register).0.contains(id) <==> (ids.contains(id) || (
        next < u64::MAX && id == next)),
{
    let after = registry_after(ids, next, RegistryCall::Register).0;
    if next < u64::MAX {
        if after.contains(id) {
            let at = choose|at: int| 0 <= at < after.len() && after[at] == id;
            if at < ids.len() {
                assert(ids[at] == id);
            }
        }
        if ids.contains(id) {
            let at = choose|at: int| 0 <= at < ids.len() && ids[at] == id;
            assert(after[at] == id);
        }
        if id == next {
            assert(after[ids.len() as int] == id);
        }
    }
}

/// Deregistering a number a second time changes nothing.
pub proof fn law_deregister_twice(ids: Seq<u64>, id: u64)
    ensures
        without_id(without_id(ids, id), id) == without_id(ids, id),
{
    law_deregister_keeps_the_others(ids, id);
    let once = without_id(ids, id);
    assert forall|i: int| 0 <= i < once.len() implies once[i] != id by {
        assert(once.contains(once[i]));
    }
    lemma_without_absent(once, id);
}

proof fn lemma_without_keeps_order(ids: Seq<u64>, id: u64)
    requires
        forall|i: int, j: int| 0 <= i < j < ids.len() ==> #[trigger] ids[i] < #[trigger] ids[j],
    ensures
        forall|a: int, b: int|
            0 <= a < b < without_id(ids, id).len() ==> #[trigger] without_id(ids, id)[a]
                < #[trigger] without_id(ids, id)[b],
        forall|a: int|
            0 <= a < without_id(ids, id).len() ==> ids.contains(#[trigger] without_id(ids, id)[a]),
        ids.len() > 0 ==> forall|a: int|
            0 <= a < without_id(ids, id).len() ==> #[trigger] without_id(ids, id)[a] <= ids.last(),
    decreases ids.len(),
{
    reveal(Seq::filter);
    if ids.len() > 0 {
        let earlier = ids.drop_last();
        lemma_without_keeps_order(earlier, id);
        let kept = without_id(earlier, id);
        assert forall|a: int| 0 <= a < kept.len() implies #[trigger] kept[a] < ids.last() by {
            assert(earlier.contains(kept[a]));
            let at = choose|at: int| 0 <= at < earlier.len() && earlier[at] == kept[a];
            assert(ids[at] < ids[ids.len() - 1]);
        }
        assert forall|a: int| 0 <= a < without_id(ids, id).len() implies ids.contains(
            #[trigger] without_id(ids, id)[a],
        ) by {
            if a < kept.len() {
                assert(earlier.contains(kept[a]));
                let at = choose|at: int| 0 <= at < earlier.len() && earlier[at] == kept[a];
                assert(ids[at] == kept[a]);
            } else {
                assert(ids[ids.len() - 1] == ids.last());
            }
        }
    }
}

/// Taking out the one place of `id` among distinct numbers is taking out
/// every `id`.
proof fn lemma_without_unique(ids: Seq<u64>, id: u64, at: int)
    requires
        0 <= at < ids.len(),
        ids[at] == id,
        forall|i: int, j: int| 0 <= i < j < ids.len() ==> #[trigger] ids[i] < #[trigger] ids[j],
    ensures
        without_id(ids, id) == ids.remove(at),
        !ids.remove(at).contains(id),
    decreases ids.len(),
{
    reveal(Seq::filter);
    let keep = other_than(id);
    let last = ids.len() - 1;
    if at == last {
        lemma_without_absent(ids.drop_last(), id);
        assert(ids.remove(at) =~= ids.drop_last());
    } else {
        lemma_without_unique(ids.drop_last(), id, at);
        assert(ids.last() != id);
        assert(ids.remove(at) =~= ids.drop_last().remove(at).push(ids.last()));
        assert forall|k: int| 0 <= k < ids.remove(at).len() implies ids.remove(at)[k] != id by {
            if k < at {
                assert(ids[k] < ids[at]);
            } else {
                assert(ids[at] < ids[k + 1]);
            }
        }
    }
}

/// Taking `id` out of numbers among which it does not occur changes
/// nothing.
proof fn lemma_without_absent(ids: Seq<u64>, id: u64)
    requires
        forall|i: int| 0 <= i < ids.len() ==> ids[i] != id,
    ensures
        without_id(ids, id) == ids,
        !ids.contains(id),
    decreases ids.len(),
{
    reveal(Seq::filter);
    if ids.len() > 0 {
        lemma_without_absent(ids.drop_last(), id);
        assert(ids.drop_last().push(ids.last()) =~= ids);
    }
}

} // verus!
