use vstd::prelude::*;
use crate::error::{text_option, ErrorView, UploadError};

verus! {

/// One file to upload: where it lies, and the remote folder that receives it.
#[derive(Debug, Clone, PartialEq, Eq)]
pub struct Job {
    pub path: String,
    pub parent_id: String,
}

/// The mathematical value of a [`Job`].
pub struct JobView {
    pub path: Seq<char>,
    pub parent_id: Seq<char>,
}

impl View for Job {
    type V = JobView;

    open spec fn view(&self) -> JobView {
        JobView { path: self.path@, parent_id: self.parent_id@ }
    }
}

/// What a directory entry is, as far as the walk reads it.
#[derive(Debug, Clone, Copy, PartialEq, Eq)]
pub enum EntryKind {
    /// A subdirectory.
    Directory,
    /// A file of `size` bytes.
    File { size: u64 },
    /// An entry whose metadata cannot be read.
    Unreadable,
}

/// One entry of a listed directory. `name` is its base name where that is text.
#[derive(Debug, Clone, PartialEq, Eq)]
pub struct Entry {
    pub path: String,
    pub name: Option<String>,
    pub kind: EntryKind,
}

/// The mathematical value of an [`Entry`].
pub struct EntryView {
    pub path: Seq<char>,
    pub name: Option<Seq<char>>,
    pub kind: EntryKind,
}

impl View for Entry {
    type V = EntryView;

    open spec fn view(&self) -> EntryView {
        EntryView { path: self.path@, name: text_option(self.name), kind: self.kind }
    }
}

/// An entry that waits for its turn, with the remote folder of its directory.
struct Task {
    entry: Entry,
    parent_id: String,
}

/// The mathematical value of a waiting entry.
pub struct TaskView {
    pub entry: EntryView,
    pub parent_id: Seq<char>,
}

impl View for Task {
    type V = TaskView;

    closed spec fn view(&self) -> TaskView {
        TaskView { entry: self.entry@, parent_id: self.parent_id@ }
    }
}

/// Why an entry is left out.
#[derive(Debug, Clone, Copy, PartialEq, Eq)]
pub enum SkipReason {
    /// The file is larger than the maximum.
    Oversize,
    /// The entry's metadata cannot be read.
    Unreadable,
}

impl SkipReason {
    /// The error that stands for this reason.
    pub open spec fn error(self) -> ErrorView {
        match self {
            SkipReason::Oversize => ErrorView::OversizeSkipped,
            SkipReason::Unreadable => ErrorView::LocalIo,
        }
    }

    /// The reason as an error, for a caller that reports errors.
    pub fn as_error(&self) -> (e: UploadError)
        ensures
            e@ == self.error(),
    {
        match self {
            SkipReason::Oversize => UploadError::OversizeSkipped,
            SkipReason::Unreadable => UploadError::LocalIo,
        }
    }
}

/// What the walk asks of its surroundings next.
#[derive(Debug, Clone, PartialEq, Eq)]
pub enum Action {
    /// List the directory `path`, whose remote folder is `remote_id`.
    List { path: String, remote_id: String },
    /// Create the remote folder `name` under `parent_id` for the directory `path`.
    CreateFolder { name: String, parent_id: String, path: String },
    /// Hand the job to the queue.
    Enqueue(Job),
    /// Report that the entry `path` is left out.
    Skip { path: String, reason: SkipReason },
    /// Nothing is left: close the queue.
    Finished,
}

/// The mathematical value of an [`Action`].
pub enum ActionView {
    List { path: Seq<char>, remote_id: Seq<char> },
    CreateFolder { name: Seq<char>, parent_id: Seq<char>, path: Seq<char> },
    Enqueue(JobView),
    Skip { path: Seq<char>, reason: SkipReason },
    Finished,
}

impl View for Action {
    type V = ActionView;

    open spec fn view(&self) -> ActionView {
        match *self {
            Action::List { path, remote_id } => ActionView::List {
                path: path@,
                remote_id: remote_id@,
            },
            Action::CreateFolder { name, parent_id, path } => ActionView::CreateFolder {
                name: name@,
                parent_id: parent_id@,
                path: path@,
            },
            Action::Enqueue(job) => ActionView::Enqueue(job@),
            Action::Skip { path, reason } => ActionView::Skip { path: path@, reason },
            Action::Finished => ActionView::Finished,
        }
    }
}

/// What came of the last action.
#[derive(Debug, Clone, PartialEq, Eq)]
pub enum Event {
    /// The directory was listed: its entries, in the order of the file system.
    Listed(Vec<Entry>),
    /// The remote folder was created and has this identifier.
    FolderCreated(String),
    /// The action is over and leaves nothing to take in: a job was handed
    /// over or refused, a skip was reported, a listing or a creation failed.
    Continue,
}

/// The mathematical value of an [`Event`].
pub enum EventView {
    Listed(Seq<EntryView>),
    FolderCreated(Seq<char>),
    Continue,
}

impl View for Event {
    type V = EventView;

    open spec fn view(&self) -> EventView {
        match *self {
            Event::Listed(entries) => EventView::Listed(entries@.map_values(|e: Entry| e@)),
            Event::FolderCreated(id) => EventView::FolderCreated(id@),
            Event::Continue => EventView::Continue,
        }
    }
}

/// The answer that the walk waits for.
enum Awaiting {
    Nothing,
    Listing { remote_id: String },
    Creation { path: String },
}

/// The mathematical value of what the walk waits for.
pub enum AwaitingView {
    /// No answer carries anything.
    Nothing,
    /// The listing of the directory whose remote folder is `remote_id`.
    Listing { remote_id: Seq<char> },
    /// The identifier of the remote folder for the directory `path`.
    Creation { path: Seq<char> },
}

impl View for Awaiting {
    type V = AwaitingView;

    closed spec fn view(&self) -> AwaitingView {
        match *self {
            Awaiting::Nothing => AwaitingView::Nothing,
            Awaiting::Listing { remote_id } => AwaitingView::Listing { remote_id: remote_id@ },
            Awaiting::Creation { path } => AwaitingView::Creation { path: path@ },
        }
    }
}

/// The name under which a directory without a textual base name is created.
pub const DEFAULT_FOLDER_NAME: &'static str = "folder";

/// The tasks that a listing adds: one per entry, each under `parent_id`, the
/// first entry last, so that it is taken first.
pub open spec fn tasks_of(entries: Seq<EntryView>, parent_id: Seq<char>) -> Seq<TaskView> {
    Seq::new(
        entries.len(),
        |i: int| TaskView { entry: entries[entries.len() - 1 - i], parent_id },
    )
}

/// The mathematical state of a walk.
pub struct WalkerView {
    /// Files above this size are left out.
    pub max_file_size: u64,
    /// The remote folder of the root directory.
    pub root_id: Seq<char>,
    /// The entries that wait, the next one last.
    pub pending: Seq<TaskView>,
    /// The answer that the walk waits for.
    pub awaiting: AwaitingView,
    /// The remote folders created during the walk, in order.
    pub created: Seq<Seq<char>>,
    /// The subdirectories entered during the walk, in order.
    pub visited: Seq<Seq<char>>,
}

impl WalkerView {
    /// The state in which a walk starts.
    pub open spec fn initial(max_file_size: u64, root_id: Seq<char>) -> WalkerView {
        WalkerView {
            max_file_size,
            root_id,
            pending: Seq::empty(),
            awaiting: AwaitingView::Listing { remote_id: root_id },
            created: Seq::empty(),
            visited: Seq::empty(),
        }
    }

    /// Whether `id` names a remote folder that exists: the root's, or one
    /// created during the walk.
    pub open spec fn is_known(self, id: Seq<char>) -> bool {
        id == self.root_id || self.created.contains(id)
    }

    /// What holds of every state of a walk: as many folders were created as
    /// subdirectories entered, and every remote folder that the walk will
    /// still refer to exists.
    pub open spec fn consistent(self) -> bool {
        &&& self.created.len() == self.visited.len()
        &&& forall|i: int|
            0 <= i < self.pending.len() ==> self.is_known((#[trigger] self.pending[i]).parent_id)
        &&& (self.awaiting matches AwaitingView::Listing { remote_id } ==> self.is_known(remote_id))
    }

    /// What becomes of one waiting entry.
    pub open spec fn action_for(self, task: TaskView) -> ActionView {
        match task.entry.kind {
            EntryKind::Directory => ActionView::CreateFolder {
                name: match task.entry.name {
                    Some(name) => name,
                    None => DEFAULT_FOLDER_NAME@,
                },
                parent_id: task.parent_id,
                path: task.entry.path,
            },
            EntryKind::Unreadable => ActionView::Skip {
                path: task.entry.path,
                reason: SkipReason::Unreadable,
            },
            EntryKind::File { size } => if size > self.max_file_size {
                ActionView::Skip { path: task.entry.path, reason: SkipReason::Oversize }
            } else {
                ActionView::Enqueue(JobView { path: task.entry.path, parent_id: task.parent_id })
            },
        }
    }

    /// Takes the next waiting entry, if there is one, and says what to do with it.
    pub open spec fn dispatch(self) -> (WalkerView, ActionView) {
        if self.pending.len() == 0 {
            (WalkerView { awaiting: AwaitingView::Nothing, ..self }, ActionView::Finished)
        } else {
            let task = self.pending.last();
            let awaiting = match task.entry.kind {
                EntryKind::Directory => AwaitingView::Creation { path: task.entry.path },
                _ => AwaitingView::Nothing,
            };
            (
                WalkerView { pending: self.pending.drop_last(), awaiting, ..self },
                self.action_for(task),
            )
        }
    }

    /// Puts the entries of an awaited listing on top of those that wait. Any
    /// other event adds nothing.
    pub open spec fn take_in(self, event: EventView) -> WalkerView {
        match (self.awaiting, event) {
            (AwaitingView::Listing { remote_id }, EventView::Listed(entries)) => WalkerView {
                pending: self.pending + tasks_of(entries, remote_id),
                ..self
            },
            _ => self,
        }
    }

    /// Takes in `event` and says what to do next.
    ///
    /// A created folder is entered at once. A listing adds its entries on top
    /// of those that wait. An event that is not the awaited answer carries
    /// nothing: the awaited step has failed and the walk goes on with the
    /// entries that wait.
    pub open spec fn step(self, event: EventView) -> (WalkerView, ActionView) {
        match (self.awaiting, event) {
            (AwaitingView::Creation { path }, EventView::FolderCreated(id)) => (
                WalkerView {
                    awaiting: AwaitingView::Listing { remote_id: id },
                    created: self.created.push(id),
                    visited: self.visited.push(path),
                    ..self
                },
                ActionView::List { path, remote_id: id },
            ),
            _ => self.take_in(event).dispatch(),
        }
    }

    /// The state after the events `events`, each taken in by a step.
    pub open spec fn run(self, events: Seq<EventView>) -> WalkerView
        decreases events.len(),
    {
        if events.len() == 0 {
            self
        } else {
            self.run(events.drop_last()).step(events.last()).0
        }
    }

    /// The action that answers the last of the events `events`.
    pub open spec fn last_action(self, events: Seq<EventView>) -> ActionView
        recommends
            events.len() > 0,
    {
        self.run(events.drop_last()).step(events.last()).1
    }

    /// Whether a step on `event` enters a subdirectory: a folder was awaited
    /// and has been created.
    pub open spec fn enters(self, event: EventView) -> bool {
        self.awaiting is Creation && event is FolderCreated
    }

    /// The number of entries that a step on `event` adds to those that wait.
    pub open spec fn adds(self, event: EventView) -> nat {
        (self.take_in(event).pending.len() - self.pending.len()) as nat
    }

    /// The number of entries that the steps on `events` have added.
    pub open spec fn listed_total(self, events: Seq<EventView>) -> nat
        decreases events.len(),
    {
        if events.len() == 0 {
            0
        } else {
            self.listed_total(events.drop_last()) + self.run(events.drop_last()).adds(
                events.last(),
            )
        }
    }

    /// The number of entries that the steps on `events` have taken: each was
    /// answered with a folder to create, a job or a skip.
    pub open spec fn taken_total(self, events: Seq<EventView>) -> nat
        decreases events.len(),
    {
        if events.len() == 0 {
            0
        } else {
            self.taken_total(events.drop_last()) + if takes_entry(self.last_action(events)) {
                1nat
            } else {
                0nat
            }
        }
    }

    /// The number of steps on `events` that have entered a subdirectory.
    pub open spec fn entered_total(self, events: Seq<EventView>) -> nat
        decreases events.len(),
    {
        if events.len() == 0 {
            0
        } else {
            self.entered_total(events.drop_last()) + if self.run(events.drop_last()).enters(
                events.last(),
            ) {
                1nat
            } else {
                0nat
            }
        }
    }
}

/// Whether `action` disposes of one waiting entry.
pub open spec fn takes_entry(action: ActionView) -> bool {
    action is CreateFolder || action is Enqueue || action is Skip
}

/// A depth-first walk of a directory tree, one step at a time.
///
/// The walk performs no work on the file system or the service itself: each
/// step takes what came of the last action and names the next one.
pub struct Walker {
    max_file_size: u64,
    root_id: String,
    pending: Vec<Task>,
    awaiting: Awaiting,
    created: Vec<String>,
    visited: Vec<String>,
}

impl View for Walker {
    type V = WalkerView;

    closed spec fn view(&self) -> WalkerView {
        WalkerView {
            max_file_size: self.max_file_size,
            root_id: self.root_id@,
            pending: self.pending@.map_values(|t: Task| t@),
            awaiting: self.awaiting@,
            created: self.created@.map_values(|s: String| s@),
            visited: self.visited@.map_values(|s: String| s@),
        }
    }
}

impl Walker {
    /// Starts a walk of the directory `root_path`, whose remote folder
    /// `root_id` exists. The first action is to list that directory.
    pub fn new(max_file_size: u64, root_path: String, root_id: String) -> (r: (Walker, Action))
        ensures
            r.0@ == WalkerView::initial(max_file_size, root_id@),
            r.1@ == (ActionView::List { path: root_path@, remote_id: root_id@ }),
    {
        let walker = Walker {
            max_file_size,
            root_id: root_id.clone(),
            pending: Vec::new(),
            awaiting: Awaiting::Listing { remote_id: root_id.clone() },
            created: Vec::new(),
            visited: Vec::new(),
        };
        proof {
            assert(walker@.pending =~= Seq::empty());
            assert(walker@.created =~= Seq::empty());
            assert(walker@.visited =~= Seq::empty());
        }
        (walker, Action::List { path: root_path, remote_id: root_id })
    }

    /// The number of remote folders created during the walk so far.
    pub fn folders_created(&self) -> (n: usize)
        ensures
            n == self@.created.len(),
    {
        self.created.len()
    }

    /// The number of subdirectories entered during the walk so far.
    pub fn directories_visited(&self) -> (n: usize)
        ensures
            n == self@.visited.len(),
    {
        self.visited.len()
    }

    /// The number of entries that wait for their turn.
    pub fn pending_entries(&self) -> (n: usize)
        ensures
            n == self@.pending.len(),
    {
        self.pending.len()
    }

    /// Puts the entries of a listing on top of those that wait.
    fn push_tasks(&mut self, entries: Vec<Entry>, remote_id: &String)
        ensures
            final(self)@ == (WalkerView {
                pending: old(self)@.pending + tasks_of(
                    entries@.map_values(|e: Entry| e@),
                    remote_id@,
                ),
                ..old(self)@
            }),
    {
        let mut rest = entries;
        let ghost all = entries@.map_values(|e: Entry| e@);
        let ghost before = self@;
        while rest.len() > 0
            invariant
                rest@.len() <= all.len(),
                rest@.map_values(|e: Entry| e@) =~= all.subrange(0, rest@.len() as int),
                self@ == (WalkerView {
                    pending: before.pending + tasks_of(all, remote_id@).subrange(
                        0,
                        all.len() - rest@.len(),
                    ),
                    ..before
                }),
            decreases rest.len(),
        {
            let ghost prior = self@;
            let ghost k = rest@.len();
            let ghost listed = rest@.map_values(|e: Entry| e@);
            let entry = rest.pop().unwrap();
            proof {
                assert(entry@ == listed[k - 1]);
                assert(listed[k - 1] == all.subrange(0, k as int)[k - 1]);
                assert(rest@.map_values(|e: Entry| e@) =~= all.subrange(0, k - 1));
            }
            self.pending.push(Task { entry, parent_id: remote_id.clone() });
            proof {
                let done = tasks_of(all, remote_id@).subrange(0, all.len() - k);
                let next = tasks_of(all, remote_id@).subrange(0, all.len() - k + 1);
                assert(next =~= done.push(
                    TaskView { entry: all[k - 1], parent_id: remote_id@ },
                ));
                assert(self@.pending =~= prior.pending.push(
                    TaskView { entry: all[k - 1], parent_id: remote_id@ },
                ));
                assert(self@.pending =~= before.pending + next);
            }
        }
        proof {
            assert(tasks_of(all, remote_id@).subrange(0, all.len() as int) =~= tasks_of(
                all,
                remote_id@,
            ));
        }
    }

    /// Takes the next waiting entry, if there is one, and says what to do with it.
    fn dispatch(&mut self) -> (action: Action)
        ensures
            final(self)@ == old(self)@.dispatch().0,
            action@ == old(self)@.dispatch().1,
    {
        self.awaiting = Awaiting::Nothing;
        match self.pending.pop() {
            None => Action::Finished,
            Some(task) => {
                proof {
                    assert(self@.pending =~= old(self)@.pending.drop_last());
                    assert(task@ == old(self)@.pending.last());
                }
                let Task { entry, parent_id } = task;
                let Entry { path, name, kind } = entry;
                match kind {
                    EntryKind::Directory => {
                        let name = match name {
                            Some(n) => n,
                            None => DEFAULT_FOLDER_NAME.to_owned(),
                        };
                        self.awaiting = Awaiting::Creation { path: path.clone() };
                        Action::CreateFolder { name, parent_id, path }
                    },
                    EntryKind::Unreadable => Action::Skip { path, reason: SkipReason::Unreadable },
                    EntryKind::File { size } => {
                        if size > self.max_file_size {
                            Action::Skip { path, reason: SkipReason::Oversize }
                        } else {
                            Action::Enqueue(Job { path, parent_id })
                        }
                    },
                }
            },
        }
    }

    /// Takes in what came of the last action and names the next one.
    pub fn step(&mut self, event: Event) -> (action: Action)
        ensures
            final(self)@ == old(self)@.step(event@).0,
            action@ == old(self)@.step(event@).1,
    {
        let mut awaiting = Awaiting::Nothing;
        core::mem::swap(&mut self.awaiting, &mut awaiting);
        match (awaiting, event) {
            (Awaiting::Creation { path }, Event::FolderCreated(id)) => {
                self.created.push(id.clone());
                self.visited.push(path.clone());
                self.awaiting = Awaiting::Listing { remote_id: id.clone() };
                proof {
                    assert(self@.created =~= old(self)@.created.push(id@));
                    assert(self@.visited =~= old(self)@.visited.push(path@));
                }
                Action::List { path, remote_id: id }
            },
            (Awaiting::Listing { remote_id }, Event::Listed(entries)) => {
                self.awaiting = Awaiting::Listing { remote_id: remote_id.clone() };
                self.push_tasks(entries, &remote_id);
                self.dispatch()
            },
            (other, _) => {
                self.awaiting = other;
                self.dispatch()
            },
        }
    }
}

/// A walk starts in a consistent state.
pub proof fn law_start_is_consistent(max_file_size: u64, root_id: Seq<char>)
    ensures
        WalkerView::initial(max_file_size, root_id).consistent(),
{
}

/// A step keeps the state consistent, and every remote folder that its
/// action names exists by then: the folder of a job, the parent of a folder
/// to create, the folder of a directory to list.
pub proof fn law_step_keeps_consistent(state: WalkerView, event: EventView)
    requires
        state.consistent(),
    ensures
        state.step(event).0.consistent(),
        state.step(event).1 matches ActionView::Enqueue(job) ==> state.step(event).0.is_known(
            job.parent_id,
        ),
        state.step(event).1 matches ActionView::CreateFolder { parent_id, .. }
            ==> state.step(event).0.is_known(parent_id),
        state.step(event).1 matches ActionView::List { remote_id, .. } ==> state.step(
            event,
        ).0.is_known(remote_id),
{
    let next = state.step(event).0;
    if state.enters(event) {
        let id = event->FolderCreated_0;
        assert(next.created.last() == id);
        assert forall|i: int| 0 <= i < next.pending.len() implies next.is_known(
            (#[trigger] next.pending[i]).parent_id,
        ) by {
            let parent = state.pending[i].parent_id;
            assert(state.is_known(parent));
            if parent != state.root_id {
                let j = choose|j: int| 0 <= j < state.created.len() && state.created[j] == parent;
                assert(next.created[j] == parent);
            }
        }
    } else {
        let taken = state.take_in(event);
        assert(taken.created == state.created);
        assert forall|i: int| 0 <= i < taken.pending.len() implies taken.is_known(
            (#[trigger] taken.pending[i]).parent_id,
        ) by {
            if i < state.pending.len() {
                assert(taken.pending[i] == state.pending[i]);
            }
        }
        if taken.pending.len() > 0 {
            assert(taken.is_known(taken.pending[taken.pending.len() - 1].parent_id));
            assert forall|i: int| 0 <= i < next.pending.len() implies next.is_known(
                (#[trigger] next.pending[i]).parent_id,
            ) by {
                assert(next.pending[i] == taken.pending[i]);
            }
        }
    }
}

/// Whatever the events, the walk stays consistent: in particular it has
/// created exactly as many remote folders as it has entered subdirectories.
pub proof fn law_one_folder_per_directory(
    max_file_size: u64,
    root_id: Seq<char>,
    events: Seq<EventView>,
)
    ensures
        WalkerView::initial(max_file_size, root_id).run(events).consistent(),
        WalkerView::initial(max_file_size, root_id).run(events).created.len()
            == WalkerView::initial(max_file_size, root_id).run(events).visited.len(),
    decreases events.len(),
{
    let start = WalkerView::initial(max_file_size, root_id);
    if events.len() > 0 {
        law_one_folder_per_directory(max_file_size, root_id, events.drop_last());
        law_step_keeps_consistent(start.run(events.drop_last()), events.last());
    }
}

/// Whatever the events, a job that the walk hands out names a remote folder
/// that exists by then.
pub proof fn law_jobs_name_created_folders(
    max_file_size: u64,
    root_id: Seq<char>,
    events: Seq<EventView>,
)
    requires
        events.len() > 0,
    ensures
        WalkerView::initial(max_file_size, root_id).last_action(events) matches ActionView::Enqueue(
            job,
        ) ==> WalkerView::initial(max_file_size, root_id).run(events).is_known(job.parent_id),
{
    let start = WalkerView::initial(max_file_size, root_id);
    law_one_folder_per_directory(max_file_size, root_id, events.drop_last());
    law_step_keeps_consistent(start.run(events.drop_last()), events.last());
}

/// Whatever the events, no entry is lost and none is taken twice: the
/// entries that were listed are those that were taken, each with one action,
/// and those that still wait. The walk says that it has finished only when
/// none waits.
pub proof fn law_entries_are_taken_once(state: WalkerView, events: Seq<EventView>)
    ensures
        state.pending.len() + state.listed_total(events) == state.taken_total(events) + state.run(
            events,
        ).pending.len(),
        events.len() > 0 && state.last_action(events) is Finished ==> state.run(
            events,
        ).pending.len() == 0,
    decreases events.len(),
{
    if events.len() > 0 {
        law_entries_are_taken_once(state, events.drop_last());
    }
}

/// Whatever the events, the remote folders recorded are those with which the
/// walk started and one for each subdirectory entered since, and so are the
/// directories recorded as entered.
pub proof fn law_folders_count_entered_directories(state: WalkerView, events: Seq<EventView>)
    ensures
        state.run(events).created.len() == state.created.len() + state.entered_total(events),
        state.run(events).visited.len() == state.visited.len() + state.entered_total(events),
    decreases events.len(),
{
    if events.len() > 0 {
        law_folders_count_entered_directories(state, events.drop_last());
    }
}

/// A folder is recorded exactly when a subdirectory is entered: such a step
/// records the new folder and the directory together and asks for that
/// directory's listing; any other step records nothing and asks for no listing.
pub proof fn law_entering_records_folder(state: WalkerView, event: EventView)
    ensures
        state.enters(event) ==> {
            &&& state.step(event).0.created == state.created.push(event->FolderCreated_0)
            &&& state.step(event).0.visited == state.visited.push(state.awaiting->path)
            &&& state.step(event).1 == (ActionView::List {
                path: state.awaiting->path,
                remote_id: event->FolderCreated_0,
            })
        },
        !state.enters(event) ==> {
            &&& state.step(event).0.created == state.created
            &&& state.step(event).0.visited == state.visited
            &&& !(state.step(event).1 is List)
        },
{
}

/// Each listed entry waits exactly once, under the listed directory's folder.
pub proof fn law_listing_adds_each_entry_once(entries: Seq<EntryView>, parent_id: Seq<char>)
    ensures
        tasks_of(entries, parent_id).len() == entries.len(),
        forall|i: int|
            0 <= i < entries.len() ==> (#[trigger] tasks_of(entries, parent_id)[entries.len() - 1
                - i]) == (TaskView { entry: entries[i], parent_id }),
{
}

/// The next waiting entry leaves the walk with exactly one action. A file
/// within the limit, the limit included, becomes one job with its path and
/// its directory's folder; a larger one is skipped.
pub proof fn law_file_becomes_one_job(state: WalkerView, size: u64)
    requires
        state.pending.len() > 0,
        state.pending.last().entry.kind == (EntryKind::File { size }),
    ensures
        state.dispatch().0.pending == state.pending.drop_last(),
        size <= state.max_file_size ==> state.dispatch().1 == ActionView::Enqueue(
            JobView {
                path: state.pending.last().entry.path,
                parent_id: state.pending.last().parent_id,
            },
        ),
        size > state.max_file_size ==> state.dispatch().1 == (ActionView::Skip {
            path: state.pending.last().entry.path,
            reason: SkipReason::Oversize,
        }),
{
}

/// A job is handed out only for a file within the limit: the entry that a
/// step turns into a job is a file of at most the maximum size.
pub proof fn law_no_job_above_limit(state: WalkerView, event: EventView)
    ensures
        state.step(event).1 matches ActionView::Enqueue(job) ==> {
            let waiting = state.take_in(event).pending;
            &&& waiting.len() > 0
            &&& waiting.last().entry.kind matches EntryKind::File { size }
            &&& size <= state.max_file_size
            &&& job == (JobView {
                path: waiting.last().entry.path,
                parent_id: waiting.last().parent_id,
            })
        },
{
}

} // verus!
