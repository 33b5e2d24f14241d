//! The background process: it publishes each descriptor as a link, says so
//! by creating the marker, waits for the marker to be removed, and removes
//! the links.
//!
//! The links, the marker and the waiting are outside work. What is decided
//! here is the next task, given whether the last one succeeded.

use crate::error::{Error, PublishFault};
use crate::fetch::DescriptorMap;
use crate::path::{
    as_relative_path, has_parent_ref, parent_of, parent_part, parent_ref, sanitized, steps,
};
use crate::path_proofs::lemma_sanitized_stays_under_parent;
use crate::procfs::{descriptor_reference, link_source};
use crate::rendezvous::{Change, Lifecycle};
use vstd::prelude::*;

verus! {

/// Where one descriptor is published.
#[derive(Debug)]
pub struct LinkPlan {
    /// The directory that holds the link; it is created if it is missing.
    pub directory: String,
    /// The path of the link.
    pub link: String,
    /// What the link points to: the descriptor, as the system shows it for
    /// the process that holds it.
    pub source: String,
}

/// The directory and the path of the link for a target path under the
/// publish parent, or why there is none: the target path names the
/// directory above, or the link would have no directory to stand in.
pub open spec fn planned(parent: Seq<char>, target: Seq<char>, index: usize) -> Result<
    (Seq<char>, Seq<char>),
    PublishFault,
> {
    if has_parent_ref(target) {
        Err(PublishFault::ParentReference { index })
    } else {
        match parent_part(sanitized(parent, target)) {
            Some(directory) => Ok((directory, sanitized(parent, target))),
            None => Err(PublishFault::NoDirectory { index }),
        }
    }
}

/// Plans the link for the entry at `index`: the descriptor `descriptor` of
/// process `pid` is published under `target`, made relative to `parent`.
pub fn plan_link(parent: &str, target: &str, pid: u32, descriptor: i32, index: usize) -> (r: Result<
    LinkPlan,
    PublishFault,
>)
    ensures
        match r {
            Ok(plan) => planned(parent@, target@, index) == Ok::<
                (Seq<char>, Seq<char>),
                PublishFault,
            >((plan.directory@, plan.link@)) && plan.source@ == descriptor_reference(
                pid as nat,
                descriptor as int,
            ),
            Err(fault) => planned(parent@, target@, index) == Err::<
                (Seq<char>, Seq<char>),
                PublishFault,
            >(fault),
        },
{
    let link = match as_relative_path(parent, target) {
        Ok(link) => link,
        Err(_) => {
            return Err(PublishFault::ParentReference { index });
        },
    };
    let directory = match parent_of(link.as_str()) {
        Some(directory) => directory,
        None => {
            return Err(PublishFault::NoDirectory { index });
        },
    };
    Ok(LinkPlan { directory, link, source: link_source(pid, descriptor) })
}

/// Where the background process stands.
#[derive(Clone, Copy, Debug, PartialEq, Eq, Structural)]
pub enum Stage {
    /// Nothing has been done.
    Start,
    /// The watch for the creation of the marker is set up.
    WatchingCreation,
    /// The watch for the deletion of the marker is set up.
    WatchingDeletion,
    /// The directory for the link of this entry is created.
    MakingDirectory { index: usize },
    /// The link of this entry is created.
    MakingLink { index: usize },
    /// The marker is created.
    WritingMarker,
    /// The creation of the marker is waited for.
    ConfirmingReady,
    /// The links are published; the deletion of the marker is waited for.
    Published,
    /// The published tree is removed.
    Removing,
    /// All is done.
    Done,
    /// The process has failed.
    Failed(Error),
}

impl Stage {
    /// What the stage says of the marker: it is ready while the links are
    /// published, torn down from then on, and absent before. A process that
    /// has failed says nothing of it.
    pub open spec fn lifecycle(self) -> Option<Lifecycle> {
        match self {
            Stage::Failed(_) => None,
            Stage::Published => Some(Lifecycle::Ready),
            Stage::Removing | Stage::Done => Some(Lifecycle::TornDown),
            _ => Some(Lifecycle::Absent),
        }
    }
}

/// The next task of the background process.
#[derive(Debug)]
pub enum Task {
    /// Watch the directory of the marker for creations.
    WatchCreation,
    /// Watch the directory of the marker for deletions.
    WatchDeletion,
    /// Create this directory and those above it that are missing.
    CreateDirectory { path: String },
    /// Create a link at `link` that points to `source`.
    CreateLink { source: String, link: String },
    /// Create the marker, empty.
    WriteMarker,
    /// Wait until the marker has been created.
    AwaitCreation,
    /// Wait until the marker has been deleted.
    AwaitDeletion,
    /// Remove the publish parent and all below it.
    RemoveTree,
    /// End well.
    Succeed,
    /// End with this failure.
    Fail(Error),
}

/// A task, with its paths as sequences of characters.
pub enum TaskModel {
    WatchCreation,
    WatchDeletion,
    CreateDirectory { path: Seq<char> },
    CreateLink { source: Seq<char>, link: Seq<char> },
    WriteMarker,
    AwaitCreation,
    AwaitDeletion,
    RemoveTree,
    Succeed,
    Fail(Error),
}

impl View for Task {
    type V = TaskModel;

    open spec fn view(&self) -> TaskModel {
        match self {
            Task::WatchCreation => TaskModel::WatchCreation,
            Task::WatchDeletion => TaskModel::WatchDeletion,
            Task::CreateDirectory { path } => TaskModel::CreateDirectory { path: path@ },
            Task::CreateLink { source, link } => TaskModel::CreateLink {
                source: source@,
                link: link@,
            },
            Task::WriteMarker => TaskModel::WriteMarker,
            Task::AwaitCreation => TaskModel::AwaitCreation,
            Task::AwaitDeletion => TaskModel::AwaitDeletion,
            Task::RemoveTree => TaskModel::RemoveTree,
            Task::Succeed => TaskModel::Succeed,
            Task::Fail(error) => TaskModel::Fail(*error),
        }
    }
}

/// What the background process works on, as plain values.
pub struct PublisherModel {
    /// The directory under which the links are published.
    pub parent: Seq<char>,
    /// The marker that says that the links are published.
    pub marker: Seq<char>,
    /// The process that holds the descriptors.
    pub pid: u32,
    /// The target paths, in order.
    pub targets: Seq<Seq<char>>,
    /// The descriptors, in order.
    pub descriptors: Seq<i32>,
    /// Where the process stands.
    pub stage: Stage,
}

/// The end of a process that fails.
pub open spec fn failed(error: Error) -> (Stage, TaskModel) {
    (Stage::Failed(error), TaskModel::Fail(error))
}

impl PublisherModel {
    /// Every target path has its descriptor, and an entry that is being
    /// published exists and has a link planned.
    pub open spec fn wf(self) -> bool {
        &&& self.targets.len() == self.descriptors.len()
        &&& self.targets.len() <= usize::MAX
        &&& match self.stage {
            Stage::MakingDirectory { index } | Stage::MakingLink { index } => index
                < self.targets.len() && planned(self.parent, self.targets[index as int], index)
                is Ok,
            _ => true,
        }
    }

    /// The step that turns to the entry at `index`: its directory is
    /// created, unless no link can be planned for it; after the last entry
    /// the marker is created.
    pub open spec fn turn_to(self, index: int) -> (Stage, TaskModel) {
        if index >= self.targets.len() {
            (Stage::WritingMarker, TaskModel::WriteMarker)
        } else {
            match planned(self.parent, self.targets[index], index as usize) {
                Ok((directory, _)) => (
                    Stage::MakingDirectory { index: index as usize },
                    TaskModel::CreateDirectory { path: directory },
                ),
                Err(fault) => failed(Error::PublishError(fault)),
            }
        }
    }

    /// The next stage and task, given whether the last task succeeded.
    ///
    /// Both watches are set up before anything is published, so that no
    /// change to the marker is missed. The entries are published in order,
    /// each directory before its link. The marker is created after the
    /// last link, and its creation is waited for; then its deletion is
    /// waited for, and after that the published tree is removed. The first
    /// task that fails ends the process.
    pub open spec fn next(self, succeeded: bool) -> (Stage, TaskModel) {
        match self.stage {
            Stage::Start => (Stage::WatchingCreation, TaskModel::WatchCreation),
            Stage::WatchingCreation => if succeeded {
                (Stage::WatchingDeletion, TaskModel::WatchDeletion)
            } else {
                failed(Error::PublishError(PublishFault::Watch))
            },
            Stage::WatchingDeletion => if succeeded {
                self.turn_to(0)
            } else {
                failed(Error::PublishError(PublishFault::Watch))
            },
            Stage::MakingDirectory { index } => if succeeded {
                (
                    Stage::MakingLink { index },
                    TaskModel::CreateLink {
                        source: descriptor_reference(
                            self.pid as nat,
                            self.descriptors[index as int] as int,
                        ),
                        link: sanitized(self.parent, self.targets[index as int]),
                    },
                )
            } else {
                failed(Error::PublishError(PublishFault::CreateDirectory { index }))
            },
            Stage::MakingLink { index } => if succeeded {
                self.turn_to(index + 1)
            } else {
                failed(Error::PublishError(PublishFault::CreateLink { index }))
            },
            Stage::WritingMarker => if succeeded {
                (Stage::ConfirmingReady, TaskModel::AwaitCreation)
            } else {
                failed(Error::PublishError(PublishFault::CreateMarker))
            },
            Stage::ConfirmingReady => if succeeded {
                (Stage::Published, TaskModel::AwaitDeletion)
            } else {
                failed(Error::PublishError(PublishFault::Watch))
            },
            Stage::Published => if succeeded {
                (Stage::Removing, TaskModel::RemoveTree)
            } else {
                failed(Error::PublishError(PublishFault::Watch))
            },
            Stage::Removing => if succeeded {
                (Stage::Done, TaskModel::Succeed)
            } else {
                failed(Error::TeardownError)
            },
            Stage::Done => (Stage::Done, TaskModel::Succeed),
            Stage::Failed(error) => failed(error),
        }
    }

    /// The process after its next step.
    pub open spec fn after(self, succeeded: bool) -> PublisherModel {
        PublisherModel { stage: self.next(succeeded).0, ..self }
    }

    /// How far the process has come.
    pub open spec fn rank(self) -> nat {
        let n = self.targets.len();
        match self.stage {
            Stage::Start => 0,
            Stage::WatchingCreation => 1,
            Stage::WatchingDeletion => 2,
            Stage::MakingDirectory { index } => 3 + 2 * index as nat,
            Stage::MakingLink { index } => 4 + 2 * index as nat,
            Stage::WritingMarker => 3 + 2 * n,
            Stage::ConfirmingReady => 4 + 2 * n,
            Stage::Published => 5 + 2 * n,
            Stage::Removing => 6 + 2 * n,
            Stage::Done => 7 + 2 * n,
            Stage::Failed(_) => 7 + 2 * n,
        }
    }

    /// Whether the process has ended.
    pub open spec fn is_final(self) -> bool {
        self.stage is Done || self.stage is Failed
    }
}

/// The background process of one run.
#[derive(Debug)]
pub struct Publisher {
    parent: String,
    marker: String,
    pid: u32,
    map: DescriptorMap,
    stage: Stage,
}

impl View for Publisher {
    type V = PublisherModel;

    closed spec fn view(&self) -> PublisherModel {
        PublisherModel {
            parent: self.parent@,
            marker: self.marker@,
            pid: self.pid,
            targets: self.map.targets(),
            descriptors: self.map.descriptor_list(),
            stage: self.stage,
        }
    }
}

impl Publisher {
    #[verifier::type_invariant]
    spec fn inv(&self) -> bool {
        self@.wf() && self.map.wf()
    }

    /// Sets out to publish the entries of `map`, which process `pid` holds,
    /// under `parent`, and to signal with `marker`.
    pub fn new(parent: &str, marker: &str, pid: u32, map: DescriptorMap) -> (publisher: Self)
        ensures
            publisher@.wf(),
            publisher@ == (PublisherModel {
                parent: parent@,
                marker: marker@,
                pid,
                targets: map.targets(),
                descriptors: map.descriptor_list(),
                stage: Stage::Start,
            }),
    {
        proof {
            use_type_invariant(&map);
        }
        Self { parent: parent.to_owned(), marker: marker.to_owned(), pid, map, stage: Stage::Start }
    }

    /// The directory under which the links are published.
    pub fn parent(&self) -> (path: &str)
        ensures
            path@ == self@.parent,
    {
        self.parent.as_str()
    }

    /// The marker.
    pub fn marker(&self) -> (path: &str)
        ensures
            path@ == self@.marker,
    {
        self.marker.as_str()
    }

    /// Where the process stands.
    pub fn stage(&self) -> (stage: Stage)
        ensures
            stage == self@.stage,
            self@.wf(),
    {
        proof {
            use_type_invariant(self);
        }
        self.stage
    }

    /// Turns to the entry at `index`, or to the marker after the last one.
    fn turn_to(&mut self, index: usize) -> (task: Task)
        requires
            index <= old(self)@.targets.len(),
        ensures
            (final(self)@.stage, task@) == old(self)@.turn_to(index as int),
            final(self)@ == (PublisherModel { stage: final(self)@.stage, ..old(self)@ }),
    {
        proof {
            use_type_invariant(&*self);
        }
        match self.map.entry(index) {
            None => {
                self.stage = Stage::WritingMarker;
                Task::WriteMarker
            },
            Some((target, descriptor)) => {
                match plan_link(self.parent.as_str(), target, self.pid, descriptor, index) {
                    Ok(plan) => {
                        self.stage = Stage::MakingDirectory { index };
                        Task::CreateDirectory { path: plan.directory }
                    },
                    Err(fault) => {
                        self.stage = Stage::Failed(Error::PublishError(fault));
                        Task::Fail(Error::PublishError(fault))
                    },
                }
            },
        }
    }

    /// Ends the process with a failure.
    fn fail(&mut self, error: Error) -> (task: Task)
        ensures
            (final(self)@.stage, task@) == failed(error),
            final(self)@ == (PublisherModel { stage: final(self)@.stage, ..old(self)@ }),
    {
        proof {
            use_type_invariant(&*self);
        }
        self.stage = Stage::Failed(error);
        Task::Fail(error)
    }

    /// Takes one step: `succeeded` says whether the task that was given
    /// last has been carried out; before the first task it says nothing.
    /// The task that is returned is the next to carry out.
    pub fn advance(&mut self, succeeded: bool) -> (task: Task)
        ensures
            old(self)@.wf(),
            final(self)@.wf(),
            (final(self)@.stage, task@) == old(self)@.next(succeeded),
            final(self)@ == old(self)@.after(succeeded),
    {
        proof {
            use_type_invariant(&*self);
        }
        match self.stage {
            Stage::Start => {
                self.stage = Stage::WatchingCreation;
                Task::WatchCreation
            },
            Stage::WatchingCreation => {
                if succeeded {
                    self.stage = Stage::WatchingDeletion;
                    Task::WatchDeletion
                } else {
                    self.fail(Error::PublishError(PublishFault::Watch))
                }
            },
            Stage::WatchingDeletion => {
                if succeeded {
                    self.turn_to(0)
                } else {
                    self.fail(Error::PublishError(PublishFault::Watch))
                }
            },
            Stage::MakingDirectory { index } => {
                if succeeded {
                    match self.map.entry(index) {
                        Some((target, descriptor)) => {
                            match plan_link(
                                self.parent.as_str(),
                                target,
                                self.pid,
                                descriptor,
                                index,
                            ) {
                                Ok(plan) => {
                                    self.stage = Stage::MakingLink { index };
                                    Task::CreateLink { source: plan.source, link: plan.link }
                                },
                                Err(fault) => self.fail(Error::PublishError(fault)),
                            }
                        },
                        None => self.fail(
                            Error::PublishError(PublishFault::CreateDirectory { index }),
                        ),
                    }
                } else {
                    self.fail(Error::PublishError(PublishFault::CreateDirectory { index }))
                }
            },
            Stage::MakingLink { index } => {
                if succeeded {
                    self.turn_to(index + 1)
                } else {
                    self.fail(Error::PublishError(PublishFault::CreateLink { index }))
                }
            },
            Stage::WritingMarker => {
                if succeeded {
                    self.stage = Stage::ConfirmingReady;
                    Task::AwaitCreation
                } else {
                    self.fail(Error::PublishError(PublishFault::CreateMarker))
                }
            },
            Stage::ConfirmingReady => {
                if succeeded {
                    self.stage = Stage::Published;
                    Task::AwaitDeletion
                } else {
                    self.fail(Error::PublishError(PublishFault::Watch))
                }
            },
            Stage::Published => {
                if succeeded {
                    self.stage = Stage::Removing;
                    Task::RemoveTree
                } else {
                    self.fail(Error::PublishError(PublishFault::Watch))
                }
            },
            Stage::Removing => {
                if succeeded {
                    self.stage = Stage::Done;
                    Task::Succeed
                } else {
                    self.fail(Error::TeardownError)
                }
            },
            Stage::Done => Task::Succeed,
            Stage::Failed(error) => Task::Fail(error),
        }
    }
}

/// Every step takes the process further, until it has ended: no entry is
/// published twice, and no task is given again.
pub proof fn lemma_publisher_advances(model: PublisherModel, succeeded: bool)
    requires
        model.wf(),
    ensures
        model.after(succeeded).wf(),
        !model.is_final() ==> model.after(succeeded).rank() > model.rank(),
        model.is_final() ==> model.after(succeeded) == model,
{
}

/// The marker is created only when every entry has its link: after the
/// link of the last entry has been made, or at once where there is no
/// entry.
pub proof fn lemma_marker_follows_links(model: PublisherModel, succeeded: bool)
    requires
        model.wf(),
        model.next(succeeded).1 == TaskModel::WriteMarker,
    ensures
        succeeded,
        model.targets.len() == 0 ==> model.stage == Stage::WatchingDeletion,
        model.targets.len() > 0 ==> model.stage == (Stage::MakingLink {
            index: (model.targets.len() - 1) as usize,
        }),
{
}

/// Every link lies under the publish parent, and points to the descriptor
/// of its entry: its steps are those of the publish parent followed by
/// those of the target path, none of which names the directory above.
pub proof fn lemma_links_stay_under_parent(model: PublisherModel, succeeded: bool)
    requires
        model.wf(),
        model.next(succeeded).1 is CreateLink,
    ensures
        succeeded,
        model.stage is MakingDirectory,
        ({
            let index = model.stage->MakingDirectory_index as int;
            let target = model.targets[index];
            let link = model.next(succeeded).1->CreateLink_link;
            &&& !has_parent_ref(target)
            &&& link == sanitized(model.parent, target)
            &&& steps(link) == steps(model.parent) + steps(target)
            &&& forall|k: int| steps(model.parent).len() <= k < steps(link).len() ==> steps(link)[k]
                != parent_ref()
            &&& model.next(succeeded).1->CreateLink_source == descriptor_reference(
                model.pid as nat,
                model.descriptors[index] as int,
            )
        }),
{
    let index = model.stage->MakingDirectory_index as int;
    lemma_sanitized_stays_under_parent(model.parent, model.targets[index]);
}

/// The published tree is removed only once the deletion of the marker has
/// been seen, and the marker is waited for only once it has been created.
pub proof fn lemma_teardown_follows_deletion(model: PublisherModel, succeeded: bool)
    requires
        model.wf(),
    ensures
        model.next(succeeded).1 == TaskModel::RemoveTree ==> succeeded && model.stage
            == Stage::Published,
        model.next(succeeded).1 == TaskModel::AwaitDeletion ==> succeeded && model.stage
            == Stage::ConfirmingReady,
        model.next(succeeded).1 == TaskModel::AwaitCreation ==> succeeded && model.stage
            == Stage::WritingMarker,
{
}

/// The process follows the marker: while it goes on, what it says of the
/// marker changes only when it has seen the marker created, and then when
/// it has seen it deleted.
pub proof fn lemma_publisher_follows_marker(model: PublisherModel, succeeded: bool)
    requires
        model.wf(),
        model.stage.lifecycle() is Some,
        model.next(succeeded).0.lifecycle() is Some,
    ensures
        model.next(succeeded).0.lifecycle()->0 == if model.stage == Stage::ConfirmingReady {
            model.stage.lifecycle()->0.after(Change::Created)
        } else if model.stage == Stage::Published {
            model.stage.lifecycle()->0.after(Change::Deleted)
        } else {
            model.stage.lifecycle()->0
        },
{
}

/// The tasks that publish the entries from the one at `index` on: for
/// each entry its directory, then its link.
pub open spec fn publishing(
    parent: Seq<char>,
    pid: u32,
    targets: Seq<Seq<char>>,
    descriptors: Seq<i32>,
    index: int,
) -> Seq<TaskModel>
    decreases targets.len() - index,
{
    if index < 0 || index >= targets.len() {
        Seq::empty()
    } else {
        seq![
            TaskModel::CreateDirectory { path: parent_part(sanitized(parent, targets[index]))->0 },
            TaskModel::CreateLink {
                source: descriptor_reference(pid as nat, descriptors[index] as int),
                link: sanitized(parent, targets[index]),
            },
        ] + publishing(parent, pid, targets, descriptors, index + 1)
    }
}

/// The tasks that follow the last link: the marker is created and seen,
/// its deletion is seen, and the published tree is removed.
pub open spec fn closing() -> Seq<TaskModel> {
    seq![
        TaskModel::WriteMarker,
        TaskModel::AwaitCreation,
        TaskModel::AwaitDeletion,
        TaskModel::RemoveTree,
        TaskModel::Succeed,
    ]
}

impl PublisherModel {
    /// The tasks of a process that is told `outcomes`, one after the
    /// other.
    pub open spec fn tasks(self, outcomes: Seq<bool>) -> Seq<TaskModel>
        decreases outcomes.len(),
    {
        if outcomes.len() == 0 {
            Seq::empty()
        } else {
            seq![self.next(outcomes[0]).1] + self.after(outcomes[0]).tasks(outcomes.drop_first())
        }
    }

    /// Whether a link can be planned for every entry.
    pub open spec fn publishable(self) -> bool {
        forall|i: int|
            0 <= i < self.targets.len() ==> (#[trigger] planned(
                self.parent,
                self.targets[i],
                i as usize,
            )) is Ok
    }

    /// Whether the next step turns to the entry at `index`.
    pub open spec fn turns_to(self, index: int) -> bool {
        if index == 0 {
            self.stage == Stage::WatchingDeletion
        } else {
            self.stage == (Stage::MakingLink { index: (index - 1) as usize })
        }
    }
}

/// Once the last link is made, a process whose tasks all succeed creates
/// the marker and sees it, sees it deleted, removes the published tree and
/// ends.
pub proof fn lemma_unhindered_closing(model: PublisherModel, outcomes: Seq<bool>)
    requires
        model.wf(),
        model.turns_to(model.targets.len() as int),
        outcomes.len() == 5,
        forall|i: int| 0 <= i < outcomes.len() ==> outcomes[i],
    ensures
        model.tasks(outcomes) == closing(),
{
    let first = model.after(true);
    let second = first.after(true);
    let third = second.after(true);
    let fourth = third.after(true);
    let r1 = outcomes.drop_first();
    let r2 = r1.drop_first();
    let r3 = r2.drop_first();
    let r4 = r3.drop_first();
    assert(model.next(true) == (Stage::WritingMarker, TaskModel::WriteMarker));
    assert(first.next(true) == (Stage::ConfirmingReady, TaskModel::AwaitCreation));
    assert(second.next(true) == (Stage::Published, TaskModel::AwaitDeletion));
    assert(third.next(true) == (Stage::Removing, TaskModel::RemoveTree));
    assert(fourth.next(true) == (Stage::Done, TaskModel::Succeed));
    assert(fourth.after(true).tasks(r4.drop_first()) =~= Seq::<TaskModel>::empty());
    assert(fourth.tasks(r4) =~= seq![TaskModel::Succeed]);
    assert(third.tasks(r3) =~= seq![TaskModel::RemoveTree] + fourth.tasks(r4));
    assert(second.tasks(r2) =~= seq![TaskModel::AwaitDeletion] + third.tasks(r3));
    assert(first.tasks(r1) =~= seq![TaskModel::AwaitCreation] + second.tasks(r2));
    assert(model.tasks(outcomes) =~= seq![TaskModel::WriteMarker] + first.tasks(r1));
    assert(model.tasks(outcomes) =~= closing());
}

/// Once the watches are set up, a process whose tasks all succeed publishes
/// the entries that are left, in order, and then closes.
pub proof fn lemma_unhindered_publishing(model: PublisherModel, index: int, outcomes: Seq<bool>)
    requires
        model.wf(),
        model.publishable(),
        0 <= index <= model.targets.len(),
        model.turns_to(index),
        outcomes.len() == 2 * (model.targets.len() - index) + 5,
        forall|i: int| 0 <= i < outcomes.len() ==> outcomes[i],
    ensures
        model.tasks(outcomes) == publishing(
            model.parent,
            model.pid,
            model.targets,
            model.descriptors,
            index,
        ) + closing(),
    decreases model.targets.len() - index,
{
    let left = publishing(model.parent, model.pid, model.targets, model.descriptors, index);
    if index == model.targets.len() {
        lemma_unhindered_closing(model, outcomes);
        assert(left =~= Seq::<TaskModel>::empty());
        assert(left + closing() =~= closing());
    } else {
        // the entry at `index` is published: its directory, then its link
        let first = model.after(true);
        let second = first.after(true);
        let r1 = outcomes.drop_first();
        let r2 = r1.drop_first();
        assert(planned(model.parent, model.targets[index], index as usize) is Ok);
        assert(model.next(true).0 == Stage::MakingDirectory { index: index as usize });
        assert(first.next(true).0 == Stage::MakingLink { index: index as usize });
        let both = seq![model.next(true).1, first.next(true).1];
        assert(first.tasks(r1) =~= seq![first.next(true).1] + second.tasks(r2));
        assert(model.tasks(outcomes) =~= both + second.tasks(r2));
        // and the entries after it follow
        lemma_unhindered_publishing(second, index + 1, r2);
        let later = publishing(model.parent, model.pid, model.targets, model.descriptors, index + 1);
        assert(left =~= both + later);
        assert(model.tasks(outcomes) =~= left + closing());
    }
}

/// A process whose tasks all succeed sets up both watches, publishes every
/// entry, in order, creates the marker and sees it, sees it deleted, and
/// removes the published tree.
pub proof fn lemma_unhindered_run(model: PublisherModel, outcomes: Seq<bool>)
    requires
        model.wf(),
        model.stage == Stage::Start,
        model.publishable(),
        outcomes.len() == 2 * model.targets.len() + 7,
        forall|i: int| 0 <= i < outcomes.len() ==> outcomes[i],
    ensures
        model.tasks(outcomes) == seq![TaskModel::WatchCreation, TaskModel::WatchDeletion]
            + publishing(model.parent, model.pid, model.targets, model.descriptors, 0)
            + closing(),
{
    let first = model.after(true);
    let rest = outcomes.drop_first();
    let second = first.after(true);
    let r2 = rest.drop_first();
    lemma_unhindered_publishing(second, 0, r2);
    assert(first.tasks(rest) =~= seq![TaskModel::WatchDeletion] + second.tasks(r2));
}

/// A task that fails ends the process: the failure is its next task and
/// every task after it.
pub proof fn lemma_failure_ends_the_process(model: PublisherModel, later: Seq<bool>)
    requires
        model.wf(),
        model.stage != Stage::Start,
        !model.is_final(),
    ensures
        model.next(false).1 is Fail,
        model.after(false).is_final(),
        forall|i: int|
            0 <= i < later.len() ==> #[trigger] model.after(false).tasks(later)[i] == model.next(
                false,
            ).1,
{
    lemma_ended_process_repeats(model.after(false), later);
}

/// A process that has ended gives its last task again and again.
pub proof fn lemma_ended_process_repeats(model: PublisherModel, outcomes: Seq<bool>)
    requires
        model.is_final(),
    ensures
        model.tasks(outcomes).len() == outcomes.len(),
        forall|i: int|
            0 <= i < outcomes.len() ==> #[trigger] model.tasks(outcomes)[i] == model.next(true).1,
    decreases outcomes.len(),
{
    if outcomes.len() > 0 {
        let rest = outcomes.drop_first();
        lemma_ended_process_repeats(model, rest);
    }
}

} // verus!
