//! Waiting for the marker to appear or to disappear.
//!
//! The marker is watched through the changes that the system reports for
//! the directory that holds it. A wait first looks whether what it waits
//! for holds already, and only then listens: a change that came before the
//! wait began is not reported again.

use crate::path::{file_name, name_part, parent_of, parent_part};
use vstd::prelude::*;

verus! {

/// A change to an entry of a directory.
#[derive(Clone, Copy, Debug, PartialEq, Eq, Structural)]
pub enum Change {
    /// The entry was created.
    Created,
    /// The entry was deleted.
    Deleted,
}

/// What is known of the marker, from the changes that were seen.
#[derive(Clone, Copy, Debug, PartialEq, Eq, Structural)]
pub enum Lifecycle {
    /// The marker has not been created: the links are not published yet.
    Absent,
    /// The marker is there: the links are published.
    Ready,
    /// The marker has been deleted: the links are to be removed.
    TornDown,
}

impl Lifecycle {
    /// The state after a change to the marker: its creation makes an
    /// absent marker ready, its deletion tears a ready one down, and
    /// nothing else changes anything.
    pub open spec fn after(self, change: Change) -> Lifecycle {
        match (self, change) {
            (Lifecycle::Absent, Change::Created) => Lifecycle::Ready,
            (Lifecycle::Ready, Change::Deleted) => Lifecycle::TornDown,
            _ => self,
        }
    }
}

/// Whether a wait is over.
#[derive(Clone, Copy, Debug, PartialEq, Eq, Structural)]
pub enum Wait {
    /// What was waited for holds.
    Over,
    /// The next change has to be looked at.
    Listen,
}

/// Whether `awaited` has happened to an entry of which `exists` says
/// whether it is there: it is there once created, and gone once deleted.
pub open spec fn holds_already(awaited: Change, exists: bool) -> bool {
    match awaited {
        Change::Created => exists,
        Change::Deleted => !exists,
    }
}

/// A wait for one change to the marker.
#[derive(Debug)]
pub struct MarkerWatch {
    directory: String,
    name: String,
    awaited: Change,
}

impl MarkerWatch {
    /// The directory whose changes are listened to.
    pub closed spec fn watched_directory(&self) -> Seq<char> {
        self.directory@
    }

    /// The name of the marker in that directory.
    pub closed spec fn marker_name(&self) -> Seq<char> {
        self.name@
    }

    /// The change that is waited for.
    pub closed spec fn awaited_change(&self) -> Change {
        self.awaited
    }

    /// Whether a change of kind `change` to the entry `name` is the one
    /// that is waited for.
    pub open spec fn is_awaited(&self, change: Change, name: Option<Seq<char>>) -> bool {
        change == self.awaited_change() && name == Some(self.marker_name())
    }

    /// Prepares a wait for `awaited` to happen to the marker. There is none
    /// for a marker without a name or without a directory that holds it.
    pub fn new(marker: &str, awaited: Change) -> (r: Option<Self>)
        ensures
            match r {
                Some(watch) => parent_part(marker@) == Some(watch.watched_directory())
                    && name_part(marker@) == Some(watch.marker_name()) && watch.awaited_change()
                    == awaited,
                None => parent_part(marker@) is None || name_part(marker@) is None,
            },
    {
        match parent_of(marker) {
            Some(directory) => match file_name(marker) {
                Some(name) => Some(Self { directory, name, awaited }),
                None => None,
            },
            None => None,
        }
    }

    /// The directory to listen to.
    pub fn directory(&self) -> (directory: &str)
        ensures
            directory@ == self.watched_directory(),
    {
        self.directory.as_str()
    }

    /// The name of the marker in that directory.
    pub fn name(&self) -> (name: &str)
        ensures
            name@ == self.marker_name(),
    {
        self.name.as_str()
    }

    /// The change that is waited for.
    pub fn awaited(&self) -> (awaited: Change)
        ensures
            awaited == self.awaited_change(),
    {
        self.awaited
    }

    /// Begins the wait, once the directory is listened to: `exists` says
    /// whether the marker is there now. The wait is over at once if what it
    /// waits for holds already.
    pub fn begin(&self, exists: bool) -> (wait: Wait)
        ensures
            wait == (if holds_already(self.awaited_change(), exists) {
                Wait::Over
            } else {
                Wait::Listen
            }),
    {
        let over = match self.awaited {
            Change::Created => exists,
            Change::Deleted => !exists,
        };
        if over {
            Wait::Over
        } else {
            Wait::Listen
        }
    }

    /// Looks at one change that was reported for the directory. The wait is
    /// over when the change is the awaited one and names the marker; a
    /// change to another entry, or of another kind, is passed over.
    pub fn observe(&self, change: Change, name: Option<&str>) -> (wait: Wait)
        ensures
            wait == (if self.is_awaited(
                change,
                match name {
                    Some(n) => Some(n@),
                    None => None,
                },
            ) {
                Wait::Over
            } else {
                Wait::Listen
            }),
    {
        match name {
            Some(n) => {
                if change == self.awaited && same_text(n, self.name.as_str()) {
                    Wait::Over
                } else {
                    Wait::Listen
                }
            },
            None => Wait::Listen,
        }
    }
}

/// Whether two texts are the same.
fn same_text(a: &str, b: &str) -> (same: bool)
    ensures
        same == (a@ == b@),
{
    let x = a.to_owned();
    let y = b.to_owned();
    x == y
}

} // verus!
