//! The side that receives the descriptors: the course of one run, from the
//! first look at the paths it will use to the moment it goes into the
//! background or returns to its caller.
//!
//! The run itself is outside work: looking at the file system, talking to
//! the socket, forking. What is decided here is what to do next, given the
//! outcome of what was done last.

use crate::error::{Error, Occupied, PublishFault};
use crate::path::{join, joined, parent_of, parent_part};
use vstd::prelude::*;

verus! {

/// The name of the file that takes the output of the background process.
pub const LOG_FILE_NAME: &'static str = "pipesys-link.log";

/// What the receiving side is started with.
#[derive(Debug)]
pub struct MultiLink {
    fd_socket: String,
    parent: String,
    marker: String,
}

impl MultiLink {
    /// The name of the socket to fetch the descriptors from.
    pub closed spec fn socket_name(&self) -> Seq<char> {
        self.fd_socket@
    }

    /// The directory under which the links are published.
    pub closed spec fn publish_parent(&self) -> Seq<char> {
        self.parent@
    }

    /// The marker whose removal asks for the links to be removed.
    pub closed spec fn marker_path(&self) -> Seq<char> {
        self.marker@
    }

    /// The directory that the background process works in: the one that
    /// holds the publish parent.
    pub open spec fn working_directory_path(&self) -> Option<Seq<char>> {
        parent_part(self.publish_parent())
    }

    /// The file that takes the output of the background process: it stands
    /// beside the publish parent.
    pub open spec fn log_file_path(&self) -> Option<Seq<char>> {
        match self.working_directory_path() {
            Some(directory) => Some(joined(directory, LOG_FILE_NAME@)),
            None => None,
        }
    }

    pub fn new(fd_socket: String, parent: String, marker: String) -> (link: Self)
        ensures
            link.socket_name() == fd_socket@,
            link.publish_parent() == parent@,
            link.marker_path() == marker@,
    {
        Self { fd_socket, parent, marker }
    }

    /// Fetch the file descriptors from this abstract socket.
    pub fn fd_socket(&self) -> (name: &str)
        ensures
            name@ == self.socket_name(),
    {
        self.fd_socket.as_str()
    }

    /// Create symlinks under this parent path.
    pub fn parent(&self) -> (path: &str)
        ensures
            path@ == self.publish_parent(),
    {
        self.parent.as_str()
    }

    /// Use deletion of this marker file to indicate that the links should
    /// be removed.
    pub fn marker(&self) -> (path: &str)
        ensures
            path@ == self.marker_path(),
    {
        self.marker.as_str()
    }

    /// The directory for the background process to work in, if the publish
    /// parent has one above it.
    pub fn working_directory(&self) -> (r: Option<String>)
        ensures
            match r {
                Some(directory) => self.working_directory_path() == Some(directory@),
                None => self.working_directory_path() is None,
            },
    {
        parent_of(self.parent.as_str())
    }

    /// The file for the output of the background process, if the publish
    /// parent has a directory above it.
    pub fn log_file(&self) -> (r: Option<String>)
        ensures
            match r {
                Some(file) => self.log_file_path() == Some(file@),
                None => self.log_file_path() is None,
            },
    {
        match parent_of(self.parent.as_str()) {
            Some(directory) => Some(join(directory.as_str(), LOG_FILE_NAME)),
            None => None,
        }
    }
}

/// How an attempt to go into the background ended, as seen by the process
/// that goes on after it.
#[derive(Clone, Copy, Debug, PartialEq, Eq, Structural)]
pub enum Detachment {
    /// This is still the process that was started: it waits for the links.
    StillForeground,
    /// This is the background process: nothing from before the fork but
    /// the open files may be used.
    NowBackground,
    /// This is the background process, and it could not be set up.
    BackgroundFailed,
    /// This is still the process that was started, and there is no
    /// background process: nothing will create the marker.
    NotDetached,
}

/// Where a run stands.
#[derive(Clone, Copy, Debug, PartialEq, Eq, Structural)]
pub enum Phase {
    /// Nothing has been done.
    Start,
    /// The publish parent is looked for.
    ProbingParent,
    /// The marker is looked for.
    ProbingMarker,
    /// The descriptors are fetched.
    Fetching,
    /// The file for the output of the background process is set up.
    OpeningLog,
    /// The process forks.
    Detaching,
    /// The foreground process waits for the marker to appear.
    AwaitingReady,
    /// The background process publishes the links and waits for the marker
    /// to be removed.
    Publishing,
    /// The run ended well.
    Done,
    /// The run ended with this failure.
    Failed(Error),
}

/// The outcome of what was done last.
#[derive(Clone, Copy, Debug, PartialEq, Eq, Structural)]
pub enum Report {
    /// The run begins.
    Started,
    /// A path was looked for.
    Probed { exists: bool },
    /// The descriptors were fetched.
    Fetched,
    /// The descriptors could not be fetched.
    FetchFailed(Error),
    /// The file for the output was set up, or not.
    LogOpened { opened: bool },
    /// The process forked, or tried to.
    Detached(Detachment),
    /// The wait for the marker ended: the marker was seen, or the wait
    /// failed.
    Ready { seen: bool },
    /// The links were published and removed again.
    Published,
    /// Publishing failed.
    PublishFailed(Error),
}

/// What to do next.
#[derive(Clone, Copy, Debug, PartialEq, Eq, Structural)]
pub enum Order {
    /// Look whether the publish parent exists.
    ProbeParent,
    /// Look whether the marker exists.
    ProbeMarker,
    /// Fetch the descriptors from the socket.
    Fetch,
    /// Set up the file for the output of the background process.
    OpenLog,
    /// Fork into the background.
    Detach,
    /// Wait for the marker to appear.
    AwaitReady,
    /// Publish the links, wait for the marker to be removed, and remove
    /// them.
    Publish,
    /// Return to the caller: the links are published.
    Succeed,
    /// Return this failure to the caller.
    Fail(Error),
    /// End the background process with this status.
    Exit { status: i32 },
}

/// The step of a run from `phase` on `report`: the next phase and what to
/// do, or nothing where the report answers no question that the phase has
/// asked.
///
/// The publish parent and the marker must both be absent before anything
/// is fetched, and the descriptors must be fetched before the process
/// forks: up to the fork, and where the fork itself fails, every failure
/// goes back to the caller. After the fork the foreground process only
/// waits for the marker, and the background process ends with a status,
/// zero if all went well.
pub open spec fn step(phase: Phase, report: Report) -> Option<(Phase, Order)> {
    match (phase, report) {
        (Phase::Start, Report::Started) => Some((Phase::ProbingParent, Order::ProbeParent)),
        (Phase::ProbingParent, Report::Probed { exists }) => if exists {
            Some(failing(Error::PreconditionViolation(Occupied::Parent)))
        } else {
            Some((Phase::ProbingMarker, Order::ProbeMarker))
        },
        (Phase::ProbingMarker, Report::Probed { exists }) => if exists {
            Some(failing(Error::PreconditionViolation(Occupied::Marker)))
        } else {
            Some((Phase::Fetching, Order::Fetch))
        },
        (Phase::Fetching, Report::Fetched) => Some((Phase::OpeningLog, Order::OpenLog)),
        (Phase::Fetching, Report::FetchFailed(error)) => Some(failing(error)),
        (Phase::OpeningLog, Report::LogOpened { opened }) => if opened {
            Some((Phase::Detaching, Order::Detach))
        } else {
            Some(failing(Error::PublishError(PublishFault::LogFile)))
        },
        (Phase::Detaching, Report::Detached(detachment)) => match detachment {
            Detachment::StillForeground => Some((Phase::AwaitingReady, Order::AwaitReady)),
            Detachment::NowBackground => Some((Phase::Publishing, Order::Publish)),
            Detachment::BackgroundFailed => Some(
                (
                    Phase::Failed(Error::PublishError(PublishFault::Detach)),
                    Order::Exit { status: 1 },
                ),
            ),
            Detachment::NotDetached => Some(
                failing(Error::PublishError(PublishFault::Detach)),
            ),
        },
        (Phase::AwaitingReady, Report::Ready { seen }) => if seen {
            Some((Phase::Done, Order::Succeed))
        } else {
            Some(failing(Error::PublishError(PublishFault::Watch)))
        },
        (Phase::Publishing, Report::Published) => Some((Phase::Done, Order::Exit { status: 0 })),
        (Phase::Publishing, Report::PublishFailed(error)) => Some(
            (Phase::Failed(error), Order::Exit { status: 1 }),
        ),
        _ => None,
    }
}

/// The end of a run that fails in the foreground.
pub open spec fn failing(error: Error) -> (Phase, Order) {
    (Phase::Failed(error), Order::Fail(error))
}

impl Phase {
    /// Whether the run has ended.
    pub open spec fn is_final(self) -> bool {
        self is Done || self is Failed
    }

    /// How far a run has come.
    pub open spec fn rank(self) -> nat {
        match self {
            Phase::Start => 0,
            Phase::ProbingParent => 1,
            Phase::ProbingMarker => 2,
            Phase::Fetching => 3,
            Phase::OpeningLog => 4,
            Phase::Detaching => 5,
            Phase::AwaitingReady => 6,
            Phase::Publishing => 6,
            Phase::Done => 7,
            Phase::Failed(_) => 7,
        }
    }

    /// Takes one step of the run.
    pub fn advance(self, report: Report) -> (r: Option<(Phase, Order)>)
        ensures
            r == step(self, report),
    {
        match (self, report) {
            (Phase::Start, Report::Started) => Some((Phase::ProbingParent, Order::ProbeParent)),
            (Phase::ProbingParent, Report::Probed { exists }) => {
                if exists {
                    Some(fail_with(Error::PreconditionViolation(Occupied::Parent)))
                } else {
                    Some((Phase::ProbingMarker, Order::ProbeMarker))
                }
            },
            (Phase::ProbingMarker, Report::Probed { exists }) => {
                if exists {
                    Some(fail_with(Error::PreconditionViolation(Occupied::Marker)))
                } else {
                    Some((Phase::Fetching, Order::Fetch))
                }
            },
            (Phase::Fetching, Report::Fetched) => Some((Phase::OpeningLog, Order::OpenLog)),
            (Phase::Fetching, Report::FetchFailed(error)) => Some(fail_with(error)),
            (Phase::OpeningLog, Report::LogOpened { opened }) => {
                if opened {
                    Some((Phase::Detaching, Order::Detach))
                } else {
                    Some(fail_with(Error::PublishError(PublishFault::LogFile)))
                }
            },
            (Phase::Detaching, Report::Detached(detachment)) => match detachment {
                Detachment::StillForeground => Some((Phase::AwaitingReady, Order::AwaitReady)),
                Detachment::NowBackground => Some((Phase::Publishing, Order::Publish)),
                Detachment::BackgroundFailed => Some(
                    (
                        Phase::Failed(Error::PublishError(PublishFault::Detach)),
                        Order::Exit { status: 1 },
                    ),
                ),
                Detachment::NotDetached => Some(
                    fail_with(Error::PublishError(PublishFault::Detach)),
                ),
            },
            (Phase::AwaitingReady, Report::Ready { seen }) => {
                if seen {
                    Some((Phase::Done, Order::Succeed))
                } else {
                    Some(fail_with(Error::PublishError(PublishFault::Watch)))
                }
            },
            (Phase::Publishing, Report::Published) => Some(
                (Phase::Done, Order::Exit { status: 0 }),
            ),
            (Phase::Publishing, Report::PublishFailed(error)) => Some(
                (Phase::Failed(error), Order::Exit { status: 1 }),
            ),
            _ => None,
        }
    }
}

/// Ends the run with a failure that goes back to the caller.
fn fail_with(error: Error) -> (end: (Phase, Order))
    ensures
        end == failing(error),
{
    (Phase::Failed(error), Order::Fail(error))
}

/// The orders of a run that starts in `phase` and gets `reports` one after
/// the other. The run stops at the first report that answers no question.
pub open spec fn orders(phase: Phase, reports: Seq<Report>) -> Seq<Order>
    decreases reports.len(),
{
    if reports.len() == 0 {
        Seq::empty()
    } else {
        match step(phase, reports[0]) {
            Some((next, order)) => seq![order] + orders(next, reports.drop_first()),
            None => Seq::empty(),
        }
    }
}

/// A run that has ended takes no further step.
pub proof fn lemma_ended_run_stays_ended(phase: Phase, report: Report)
    requires
        phase.is_final(),
    ensures
        step(phase, report) is None,
{
}

/// Every step takes the run further: no phase is entered twice.
pub proof fn lemma_step_advances(phase: Phase, report: Report)
    ensures
        step(phase, report) matches Some((next, _)) ==> next.rank() > phase.rank(),
{
}

/// Each order is given in one phase only: the probes come first, the fetch
/// only after both probes, the fork only after the fetch and the log, and
/// whatever goes on in the background only after the fork.
pub proof fn lemma_order_of_a_run(phase: Phase, report: Report)
    ensures
        step(phase, report) matches Some((_, order)) ==> match order {
            Order::ProbeParent => phase == Phase::Start,
            Order::ProbeMarker => phase == Phase::ProbingParent && report == (Report::Probed {
                exists: false,
            }),
            Order::Fetch => phase == Phase::ProbingMarker && report == (Report::Probed {
                exists: false,
            }),
            Order::OpenLog => phase == Phase::Fetching && report == Report::Fetched,
            Order::Detach => phase == Phase::OpeningLog && report == (Report::LogOpened {
                opened: true,
            }),
            Order::AwaitReady => phase == Phase::Detaching && report == Report::Detached(
                Detachment::StillForeground,
            ),
            Order::Publish => phase == Phase::Detaching && report == Report::Detached(
                Detachment::NowBackground,
            ),
            Order::Succeed => phase == Phase::AwaitingReady,
            Order::Fail(_) => phase.rank() <= Phase::Detaching.rank() || phase
                == Phase::AwaitingReady,
            Order::Exit { status } => (phase == Phase::Detaching || phase == Phase::Publishing)
                && (status == 0) == (report == Report::Published),
        },
{
}

/// A run that finds the publish parent in place ends there: it reports the
/// violated precondition and gives no order after that, whatever it is
/// told. Nothing is fetched, nothing forks, and nothing is written.
pub proof fn lemma_occupied_parent_ends_run(later: Seq<Report>)
    ensures
        orders(Phase::Start, seq![Report::Started, Report::Probed { exists: true }] + later)
            == seq![
            Order::ProbeParent,
            Order::Fail(Error::PreconditionViolation(Occupied::Parent)),
        ],
{
    let probed = Report::Probed { exists: true };
    let all = seq![Report::Started, probed] + later;
    let after_start = all.drop_first();
    let after_probe = after_start.drop_first();
    let end = Phase::Failed(Error::PreconditionViolation(Occupied::Parent));
    assert(orders(end, after_probe) =~= Seq::<Order>::empty());
    assert(orders(Phase::ProbingParent, after_start) =~= seq![
        Order::Fail(Error::PreconditionViolation(Occupied::Parent)),
    ]);
}

/// A run that finds the marker in place ends there in the same way.
pub proof fn lemma_occupied_marker_ends_run(later: Seq<Report>)
    ensures
        orders(
            Phase::Start,
            seq![
                Report::Started,
                Report::Probed { exists: false },
                Report::Probed { exists: true },
            ] + later,
        ) == seq![
            Order::ProbeParent,
            Order::ProbeMarker,
            Order::Fail(Error::PreconditionViolation(Occupied::Marker)),
        ],
{
    let all = seq![
        Report::Started,
        Report::Probed { exists: false },
        Report::Probed { exists: true },
    ] + later;
    let second = all.drop_first();
    let third = second.drop_first();
    let rest = third.drop_first();
    let end = Phase::Failed(Error::PreconditionViolation(Occupied::Marker));
    assert(orders(end, rest) =~= Seq::<Order>::empty());
    assert(orders(Phase::ProbingMarker, third) =~= seq![
        Order::Fail(Error::PreconditionViolation(Occupied::Marker)),
    ]);
    assert(orders(Phase::ProbingParent, second) =~= seq![
        Order::ProbeMarker,
        Order::Fail(Error::PreconditionViolation(Occupied::Marker)),
    ]);
}

} // verus!
