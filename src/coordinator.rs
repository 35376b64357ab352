//! The per-request coordinator, as a state machine. The caller performs each
//! action that [`Coordinator::action`] names and hands the result back to
//! [`Coordinator::step`] as an event, until the action is `Finish`.
//!
//! A request goes through `Fetching`, `Announcing`, creating the workspace
//! and its items folder, locating and streaming each item, `Archiving`,
//! `Uploading`, removing the workspace and the archive, and `Reporting`, and
//! ends in `Finished`. A failure after the workspace exists leads to the
//! removals all the same.

use vstd::prelude::*;
use crate::naming::{
    archive_of, archive_path, decimal, item_path, item_path_of, items_dir, items_dir_of,
    push_decimal, workspace_name, workspace_of,
};
use crate::resolver::{resolve, resolved, Input, ResolveError};

verus! {

/// A collection as the platform returns it: its name and the file ids of its
/// items, in order.
#[derive(Debug)]
pub struct Collection {
    pub name: String,
    pub items: Vec<String>,
}

/// What started a request: an explicit `download <reference>` command, or a
/// message to resolve a reference from.
pub enum Request {
    Download(String),
    Message(Input),
}

/// How a request ended.
#[derive(Clone, Copy, Debug, PartialEq, Eq, Structural)]
pub enum Outcome {
    /// The archive was uploaded.
    Delivered,
    /// No collection name could be had from the message.
    Unresolved(ResolveError),
    /// The platform has no collection by that name, or the lookup failed.
    NotFound,
    /// A local file operation, a download or the upload failed.
    Failed,
}

/// Where a request stands: each phase but `Finished` asks for one action.
#[derive(Clone, Copy, Debug, PartialEq, Eq, Structural)]
pub enum Phase {
    Fetching,
    Announcing,
    CreatingWorkspace,
    CreatingItemsDir,
    Locating,
    Streaming,
    Archiving,
    Uploading,
    RemovingWorkspace,
    RemovingArchive,
    Reporting,
    Finished,
}

/// The result of the last action, as the caller saw it.
#[derive(Debug)]
pub enum Event {
    Succeeded,
    Failed,
    /// The collection lookup found the collection.
    Fetched(Collection),
    /// The item's download locator: its path relative to the workspace.
    Located(String),
}

/// What the caller is to do next.
#[derive(Debug, PartialEq, Eq)]
pub enum Action {
    SendText(String),
    FetchCollection(String),
    CreateDir(String),
    ResolveLocator(String),
    /// Create the file `dest` and stream the bytes at `locator` into it.
    Download { locator: String, dest: String },
    /// Pack the tree under `source` into the archive file `dest`.
    BuildArchive { source: String, dest: String },
    /// Upload the file as a document, under its own name.
    SendDocument(String),
    RemoveDir(String),
    RemoveFile(String),
    /// The request is over; `artifacts_left` tells that a removal failed.
    Finish { outcome: Outcome, artifacts_left: bool },
}

pub ghost enum EventView {
    Succeeded,
    Failed,
    Fetched(Seq<char>, Seq<Seq<char>>),
    Located(Seq<char>),
}

pub ghost enum ActionView {
    SendText(Seq<char>),
    FetchCollection(Seq<char>),
    CreateDir(Seq<char>),
    ResolveLocator(Seq<char>),
    Download { locator: Seq<char>, dest: Seq<char> },
    BuildArchive { source: Seq<char>, dest: Seq<char> },
    SendDocument(Seq<char>),
    RemoveDir(Seq<char>),
    RemoveFile(Seq<char>),
    Finish { outcome: Outcome, artifacts_left: bool },
}

pub ghost struct CoordinatorView {
    pub chat: int,
    pub reference: Seq<char>,
    pub name: Seq<char>,
    pub items: Seq<Seq<char>>,
    pub index: int,
    pub locator: Seq<char>,
    pub workspace: Seq<char>,
    pub phase: Phase,
    pub outcome: Outcome,
    pub workspace_live: bool,
    pub archive_live: bool,
    pub cleanup_failed: bool,
}

impl View for Event {
    type V = EventView;

    open spec fn view(&self) -> EventView {
        match self {
            Event::Succeeded => EventView::Succeeded,
            Event::Failed => EventView::Failed,
            Event::Fetched(c) => EventView::Fetched(c.name@, c.items@.map_values(|i: String| i@)),
            Event::Located(p) => EventView::Located(p@),
        }
    }
}

impl View for Action {
    type V = ActionView;

    open spec fn view(&self) -> ActionView {
        match self {
            Action::SendText(t) => ActionView::SendText(t@),
            Action::FetchCollection(r) => ActionView::FetchCollection(r@),
            Action::CreateDir(p) => ActionView::CreateDir(p@),
            Action::ResolveLocator(i) => ActionView::ResolveLocator(i@),
            Action::Download { locator, dest } => ActionView::Download {
                locator: locator@,
                dest: dest@,
            },
            Action::BuildArchive { source, dest } => ActionView::BuildArchive {
                source: source@,
                dest: dest@,
            },
            Action::SendDocument(p) => ActionView::SendDocument(p@),
            Action::RemoveDir(p) => ActionView::RemoveDir(p@),
            Action::RemoveFile(p) => ActionView::RemoveFile(p@),
            Action::Finish { outcome, artifacts_left } => ActionView::Finish {
                outcome: *outcome,
                artifacts_left: *artifacts_left,
            },
        }
    }
}

/// The progress message sent once the collection is known.
pub open spec fn progress_text(count: nat) -> Seq<char> {
    "Downloading "@ + decimal(count) + " stickers..."@
}

/// The message that tells the requester how the request ended.
pub open spec fn report_text(outcome: Outcome) -> Seq<char> {
    match outcome {
        Outcome::Delivered => "Done"@,
        Outcome::NotFound => "Sticker not found"@,
        Outcome::Unresolved(ResolveError::IncorrectUrl) => "Incorrect url for emoji / sticker set"@,
        Outcome::Unresolved(_) => "Sticker set name not found"@,
        Outcome::Failed => "Something went wrong, please try again later"@,
    }
}

/// The state in which a request starts.
pub open spec fn start(chat: int, reference: Result<Seq<char>, ResolveError>) -> CoordinatorView {
    CoordinatorView {
        chat,
        reference: match reference {
            Ok(r) => r,
            Err(_) => seq![],
        },
        name: seq![],
        items: seq![],
        index: 0,
        locator: seq![],
        workspace: seq![],
        phase: match reference {
            Ok(_) => Phase::Fetching,
            Err(ResolveError::NoReference) => Phase::Finished,
            Err(_) => Phase::Reporting,
        },
        outcome: match reference {
            Ok(_) => Outcome::Delivered,
            Err(e) => Outcome::Unresolved(e),
        },
        workspace_live: false,
        archive_live: false,
        cleanup_failed: false,
    }
}

/// The reference that a request names.
pub open spec fn request_reference(request: &Request) -> Result<Seq<char>, ResolveError> {
    match request {
        Request::Download(r) => Ok(r@),
        Request::Message(input) => resolved(input),
    }
}

/// The action that a state asks for.
pub open spec fn action_of(s: CoordinatorView) -> ActionView {
    match s.phase {
        Phase::Fetching => ActionView::FetchCollection(s.reference),
        Phase::Announcing => ActionView::SendText(progress_text(s.items.len())),
        Phase::CreatingWorkspace => ActionView::CreateDir(s.workspace),
        Phase::CreatingItemsDir => ActionView::CreateDir(items_dir_of(s.workspace)),
        Phase::Locating => ActionView::ResolveLocator(s.items[s.index]),
        Phase::Streaming => ActionView::Download {
            locator: s.locator,
            dest: item_path_of(s.workspace, s.locator),
        },
        Phase::Archiving => ActionView::BuildArchive {
            source: s.workspace,
            dest: archive_of(s.workspace),
        },
        Phase::Uploading => ActionView::SendDocument(archive_of(s.workspace)),
        Phase::RemovingWorkspace => ActionView::RemoveDir(s.workspace),
        Phase::RemovingArchive => ActionView::RemoveFile(archive_of(s.workspace)),
        Phase::Reporting => ActionView::SendText(report_text(s.outcome)),
        Phase::Finished => ActionView::Finish {
            outcome: s.outcome,
            artifacts_left: s.workspace_live || s.archive_live,
        },
    }
}

/// The phase after the last item, or after the items folder when there are none.
pub open spec fn after_item(s: CoordinatorView, next_index: int) -> Phase {
    if next_index < s.items.len() {
        Phase::Locating
    } else {
        Phase::Archiving
    }
}

/// The state after the result `e` of the action that `s` asked for.
pub open spec fn next(s: CoordinatorView, e: EventView) -> CoordinatorView {
    let ok = e is Succeeded;
    match s.phase {
        Phase::Fetching => match e {
            EventView::Fetched(name, items) => CoordinatorView {
                name,
                items,
                index: 0,
                workspace: workspace_of(s.chat, name),
                phase: Phase::Announcing,
                ..s
            },
            _ => CoordinatorView { outcome: Outcome::NotFound, phase: Phase::Reporting, ..s },
        },
        Phase::Announcing => if ok {
            CoordinatorView { phase: Phase::CreatingWorkspace, ..s }
        } else {
            CoordinatorView { outcome: Outcome::Failed, phase: Phase::Reporting, ..s }
        },
        Phase::CreatingWorkspace => if ok {
            CoordinatorView { phase: Phase::CreatingItemsDir, workspace_live: true, ..s }
        } else {
            CoordinatorView { outcome: Outcome::Failed, phase: Phase::Reporting, ..s }
        },
        Phase::CreatingItemsDir => if ok {
            CoordinatorView { index: 0, phase: after_item(s, 0), ..s }
        } else {
            CoordinatorView { outcome: Outcome::Failed, phase: Phase::RemovingWorkspace, ..s }
        },
        Phase::Locating => match e {
            EventView::Located(p) => CoordinatorView { locator: p, phase: Phase::Streaming, ..s },
            _ => CoordinatorView { outcome: Outcome::Failed, phase: Phase::RemovingWorkspace, ..s },
        },
        Phase::Streaming => if ok {
            CoordinatorView { index: s.index + 1, phase: after_item(s, s.index + 1), ..s }
        } else {
            CoordinatorView { outcome: Outcome::Failed, phase: Phase::RemovingWorkspace, ..s }
        },
        Phase::Archiving => if ok {
            CoordinatorView { archive_live: true, phase: Phase::Uploading, ..s }
        } else {
            CoordinatorView {
                archive_live: true,
                outcome: Outcome::Failed,
                phase: Phase::RemovingWorkspace,
                ..s
            }
        },
        Phase::Uploading => CoordinatorView {
            outcome: if ok { Outcome::Delivered } else { Outcome::Failed },
            phase: Phase::RemovingWorkspace,
            ..s
        },
        Phase::RemovingWorkspace => CoordinatorView {
            workspace_live: if ok { false } else { s.workspace_live },
            cleanup_failed: s.cleanup_failed || !ok,
            phase: if s.archive_live { Phase::RemovingArchive } else { Phase::Reporting },
            ..s
        },
        Phase::RemovingArchive => CoordinatorView {
            archive_live: if ok { false } else { s.archive_live },
            cleanup_failed: s.cleanup_failed || !ok,
            phase: Phase::Reporting,
            ..s
        },
        Phase::Reporting => CoordinatorView { phase: Phase::Finished, ..s },
        Phase::Finished => s,
    }
}

/// Whether the state is one that a request can reach.
pub open spec fn reachable_state(s: CoordinatorView) -> bool {
    &&& 0 <= s.index <= s.items.len()
    &&& (s.phase is Locating || s.phase is Streaming) ==> s.index < s.items.len()
    &&& (s.phase is Fetching || s.phase is Announcing || s.phase is CreatingWorkspace) ==> (
    !s.workspace_live && !s.archive_live)
    &&& (s.phase is CreatingItemsDir || s.phase is Locating || s.phase is Streaming
        || s.phase is Archiving) ==> (s.workspace_live && !s.archive_live)
    &&& s.phase is Uploading ==> (s.workspace_live && s.archive_live)
    &&& s.phase is RemovingWorkspace ==> s.workspace_live
    &&& s.phase is RemovingArchive ==> (s.archive_live && (s.cleanup_failed || !s.workspace_live))
    &&& (s.phase is Reporting || s.phase is Finished) ==> (s.cleanup_failed || (
    !s.workspace_live && !s.archive_live))
    &&& !(s.phase is RemovingArchive || s.phase is Reporting || s.phase is Finished)
        ==> !s.cleanup_failed
}

/// The request's own artifacts on disk: whether its workspace (with whatever
/// was written into it) exists, and whether its archive file exists.
pub ghost struct Disk {
    pub workspace: bool,
    pub archive: bool,
}

/// What performing `a` does to the request's artifacts, given the result `e`
/// that it reported. Items are written inside the workspace. A failed archive
/// build may leave a partial archive behind.
pub open spec fn disk_after(d: Disk, workspace: Seq<char>, a: ActionView, e: EventView) -> Disk {
    match a {
        ActionView::CreateDir(p) => if p == workspace && e is Succeeded {
            Disk { workspace: true, ..d }
        } else {
            d
        },
        ActionView::RemoveDir(p) => if p == workspace && e is Succeeded {
            Disk { workspace: false, ..d }
        } else {
            d
        },
        ActionView::BuildArchive { source, dest } => if dest == archive_of(workspace) {
            Disk { archive: true, ..d }
        } else {
            d
        },
        ActionView::RemoveFile(p) => if p == archive_of(workspace) && e is Succeeded {
            Disk { archive: false, ..d }
        } else {
            d
        },
        _ => d,
    }
}

/// Runs a request from `s` with the artifacts `d` through the results `events`.
pub open spec fn run(s: CoordinatorView, d: Disk, events: Seq<EventView>) -> (CoordinatorView, Disk)
    decreases events.len(),
{
    if events.len() == 0 {
        (s, d)
    } else {
        run(
            next(s, events[0]),
            disk_after(d, s.workspace, action_of(s), events[0]),
            events.drop_first(),
        )
    }
}

pub open spec fn tracks(s: CoordinatorView, d: Disk) -> bool {
    d.workspace == s.workspace_live && d.archive == s.archive_live
}

proof fn lemma_step_tracks(s: CoordinatorView, d: Disk, e: EventView)
    requires
        reachable_state(s),
        tracks(s, d),
    ensures
        reachable_state(next(s, e)),
        tracks(next(s, e), disk_after(d, s.workspace, action_of(s), e)),
{
    reveal_strlit("/stickers");
    assert(items_dir_of(s.workspace).len() > s.workspace.len());
}

/// Whatever the results of the actions, the coordinator's record of its
/// artifacts matches what is on disk at every step, and a request that has
/// finished without recording a failed removal leaves neither its workspace
/// nor its archive file on disk.
pub proof fn lemma_finished_request_leaves_nothing(
    s: CoordinatorView,
    d: Disk,
    events: Seq<EventView>,
)
    requires
        reachable_state(s),
        tracks(s, d),
    ensures
        reachable_state(run(s, d, events).0),
        tracks(run(s, d, events).0, run(s, d, events).1),
        run(s, d, events).0.phase is Finished && !run(s, d, events).0.cleanup_failed ==> (
        !run(s, d, events).1.workspace && !run(s, d, events).1.archive),
    decreases events.len(),
{
    if events.len() > 0 {
        lemma_step_tracks(s, d, events[0]);
        lemma_finished_request_leaves_nothing(
            next(s, events[0]),
            disk_after(d, s.workspace, action_of(s), events[0]),
            events.drop_first(),
        );
    }
}

/// Whether every removal that the run from `s` through `events` asks for is
/// answered with success.
pub open spec fn removals_succeed(s: CoordinatorView, events: Seq<EventView>) -> bool
    decreases events.len(),
{
    events.len() == 0 || (((action_of(s) is RemoveDir || action_of(s) is RemoveFile)
        ==> events[0] is Succeeded) && removals_succeed(next(s, events[0]), events.drop_first()))
}

proof fn lemma_cleanup_from(s: CoordinatorView, d: Disk, events: Seq<EventView>)
    requires
        reachable_state(s),
        tracks(s, d),
        !s.cleanup_failed,
        removals_succeed(s, events),
    ensures
        run(s, d, events).0.phase is Finished ==> (!run(s, d, events).1.workspace
            && !run(s, d, events).1.archive),
    decreases events.len(),
{
    lemma_finished_request_leaves_nothing(s, d, events);
    if events.len() > 0 {
        lemma_step_tracks(s, d, events[0]);
        lemma_cleanup_from(
            next(s, events[0]),
            disk_after(d, s.workspace, action_of(s), events[0]),
            events.drop_first(),
        );
    }
}

/// For every request, whatever the results of the actions other than the
/// removals (a failed lookup, download, archive build or upload), a request
/// whose removals succeed leaves neither its workspace nor its archive file
/// on disk once it has finished.
pub proof fn lemma_cleanup_on_every_path(
    chat: int,
    reference: Result<Seq<char>, ResolveError>,
    events: Seq<EventView>,
)
    requires
        removals_succeed(start(chat, reference), events),
    ensures
        ({
            let (s, d) = run(start(chat, reference), Disk { workspace: false, archive: false }, events);
            s.phase is Finished ==> !d.workspace && !d.archive
        }),
{
    lemma_cleanup_from(start(chat, reference), Disk { workspace: false, archive: false }, events);
}

/// The state of one request.
pub struct Coordinator {
    chat: i64,
    reference: String,
    name: String,
    items: Vec<String>,
    index: usize,
    locator: String,
    workspace: String,
    phase: Phase,
    outcome: Outcome,
    workspace_live: bool,
    archive_live: bool,
    cleanup_failed: bool,
}

impl View for Coordinator {
    type V = CoordinatorView;

    closed spec fn view(&self) -> CoordinatorView {
        CoordinatorView {
            chat: self.chat as int,
            reference: self.reference@,
            name: self.name@,
            items: self.items@.map_values(|i: String| i@),
            index: self.index as int,
            locator: self.locator@,
            workspace: self.workspace@,
            phase: self.phase,
            outcome: self.outcome,
            workspace_live: self.workspace_live,
            archive_live: self.archive_live,
            cleanup_failed: self.cleanup_failed,
        }
    }
}

/// The progress message for a collection of `count` items.
pub fn progress_message(count: usize) -> (r: String)
    ensures
        r@ == progress_text(count as nat),
{
    let mut s = String::from_str("Downloading ");
    push_decimal(&mut s, count as u64);
    s.append(" stickers...");
    s
}

/// The message that tells the requester how the request ended.
pub fn report_message(outcome: Outcome) -> (r: String)
    ensures
        r@ == report_text(outcome),
{
    match outcome {
        Outcome::Delivered => String::from_str("Done"),
        Outcome::NotFound => String::from_str("Sticker not found"),
        Outcome::Unresolved(ResolveError::IncorrectUrl) => String::from_str(
            "Incorrect url for emoji / sticker set",
        ),
        Outcome::Unresolved(_) => String::from_str("Sticker set name not found"),
        Outcome::Failed => String::from_str("Something went wrong, please try again later"),
    }
}

impl Coordinator {
    pub open spec fn wf(&self) -> bool {
        reachable_state(self@)
    }

    /// Starts the request made in `chat`: a `download` command names its
    /// reference verbatim; a message has it resolved.
    pub fn new(chat: i64, request: Request) -> (r: Coordinator)
        ensures
            r@ == start(chat as int, request_reference(&request)),
            r.wf(),
    {
        let reference = match request {
            Request::Download(r) => Ok(r),
            Request::Message(input) => resolve(&input),
        };
        let (reference, phase, outcome) = match reference {
            Ok(r) => (r, Phase::Fetching, Outcome::Delivered),
            Err(e) => (
                String::new(),
                match e {
                    ResolveError::NoReference => Phase::Finished,
                    _ => Phase::Reporting,
                },
                Outcome::Unresolved(e),
            ),
        };
        let r = Coordinator {
            chat,
            reference,
            name: String::new(),
            items: Vec::new(),
            index: 0,
            locator: String::new(),
            workspace: String::new(),
            phase,
            outcome,
            workspace_live: false,
            archive_live: false,
            cleanup_failed: false,
        };
        assert(r@.items =~= Seq::<Seq<char>>::empty());
        r
    }

    pub fn phase(&self) -> (r: Phase)
        ensures
            r == self@.phase,
    {
        self.phase
    }

    pub fn outcome(&self) -> (r: Outcome)
        ensures
            r == self@.outcome,
    {
        self.outcome
    }

    /// What the caller is to do next.
    pub fn action(&self) -> (r: Action)
        requires
            self.wf(),
        ensures
            r@ == action_of(self@),
    {
        match self.phase {
            Phase::Fetching => Action::FetchCollection(self.reference.clone()),
            Phase::Announcing => Action::SendText(progress_message(self.items.len())),
            Phase::CreatingWorkspace => Action::CreateDir(self.workspace.clone()),
            Phase::CreatingItemsDir => Action::CreateDir(items_dir(self.workspace.as_str())),
            Phase::Locating => Action::ResolveLocator(self.items[self.index].clone()),
            Phase::Streaming => Action::Download {
                locator: self.locator.clone(),
                dest: item_path(self.workspace.as_str(), self.locator.as_str()),
            },
            Phase::Archiving => Action::BuildArchive {
                source: self.workspace.clone(),
                dest: archive_path(self.workspace.as_str()),
            },
            Phase::Uploading => Action::SendDocument(archive_path(self.workspace.as_str())),
            Phase::RemovingWorkspace => Action::RemoveDir(self.workspace.clone()),
            Phase::RemovingArchive => Action::RemoveFile(archive_path(self.workspace.as_str())),
            Phase::Reporting => Action::SendText(report_message(self.outcome)),
            Phase::Finished => Action::Finish {
                outcome: self.outcome,
                artifacts_left: self.workspace_live || self.archive_live,
            },
        }
    }

    /// Takes the result of the last action and moves to the next state.
    pub fn step(&mut self, event: Event)
        requires
            old(self).wf(),
        ensures
            final(self)@ == next(old(self)@, event@),
            final(self).wf(),
    {
        proof {
            lemma_step_tracks(self@, Disk { workspace: self.workspace_live, archive: self.archive_live }, event@);
        }
        let ok = match event {
            Event::Succeeded => true,
            _ => false,
        };
        match self.phase {
            Phase::Fetching => match event {
                Event::Fetched(c) => {
                    self.workspace = workspace_name(self.chat, c.name.as_str());
                    self.name = c.name;
                    self.items = c.items;
                    self.index = 0;
                    self.phase = Phase::Announcing;
                },
                _ => {
                    self.outcome = Outcome::NotFound;
                    self.phase = Phase::Reporting;
                },
            },
            Phase::Announcing => {
                if ok {
                    self.phase = Phase::CreatingWorkspace;
                } else {
                    self.outcome = Outcome::Failed;
                    self.phase = Phase::Reporting;
                }
            },
            Phase::CreatingWorkspace => {
                if ok {
                    self.workspace_live = true;
                    self.phase = Phase::CreatingItemsDir;
                } else {
                    self.outcome = Outcome::Failed;
                    self.phase = Phase::Reporting;
                }
            },
            Phase::CreatingItemsDir => {
                if ok {
                    self.index = 0;
                    self.phase = if self.items.len() > 0 { Phase::Locating } else { Phase::Archiving };
                } else {
                    self.outcome = Outcome::Failed;
                    self.phase = Phase::RemovingWorkspace;
                }
            },
            Phase::Locating => match event {
                Event::Located(p) => {
                    self.locator = p;
                    self.phase = Phase::Streaming;
                },
                _ => {
                    self.outcome = Outcome::Failed;
                    self.phase = Phase::RemovingWorkspace;
                },
            },
            Phase::Streaming => {
                if ok {
                    assert(self@.items.len() == self.items.len());
                    self.index = self.index + 1;
                    self.phase = if self.index < self.items.len() {
                        Phase::Locating
                    } else {
                        Phase::Archiving
                    };
                } else {
                    self.outcome = Outcome::Failed;
                    self.phase = Phase::RemovingWorkspace;
                }
            },
            Phase::Archiving => {
                self.archive_live = true;
                if ok {
                    self.phase = Phase::Uploading;
                } else {
                    self.outcome = Outcome::Failed;
                    self.phase = Phase::RemovingWorkspace;
                }
            },
            Phase::Uploading => {
                self.outcome = if ok { Outcome::Delivered } else { Outcome::Failed };
                self.phase = Phase::RemovingWorkspace;
            },
            Phase::RemovingWorkspace => {
                if ok {
                    self.workspace_live = false;
                } else {
                    self.cleanup_failed = true;
                }
                self.phase = if self.archive_live { Phase::RemovingArchive } else { Phase::Reporting };
            },
            Phase::RemovingArchive => {
                if ok {
                    self.archive_live = false;
                } else {
                    self.cleanup_failed = true;
                }
                self.phase = Phase::Reporting;
            },
            Phase::Reporting => {
                self.phase = Phase::Finished;
            },
            Phase::Finished => {},
        }
    }
}

} // verus!
