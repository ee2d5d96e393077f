use vstd::prelude::*;
use crate::walker::{
    tasks_of, ActionView, EntryKind, EntryView, EventView, JobView, TaskView, WalkerView,
};

verus! {

/// A directory tree together with what its surroundings answer: for each
/// directory, the identifier that the service gives its folder (`None`
/// where the creation fails) and its entries (`None` where it cannot be listed).
pub enum NodeView {
    /// A file of `size` bytes; `None` where its metadata cannot be read.
    File { path: Seq<char>, name: Option<Seq<char>>, size: Option<u64> },
    /// A subdirectory.
    Directory {
        path: Seq<char>,
        name: Option<Seq<char>>,
        folder: Option<Seq<char>>,
        listing: Option<Seq<NodeView>>,
    },
}

/// The entry under which a node is listed.
pub open spec fn entry_of(node: NodeView) -> EntryView {
    match node {
        NodeView::File { path, name, size } => EntryView {
            path,
            name,
            kind: match size {
                Some(size) => EntryKind::File { size },
                None => EntryKind::Unreadable,
            },
        },
        NodeView::Directory { path, name, .. } => EntryView {
            path,
            name,
            kind: EntryKind::Directory,
        },
    }
}

/// The listing of a directory with the children `nodes`.
pub open spec fn entries_of(nodes: Seq<NodeView>) -> Seq<EntryView> {
    nodes.map_values(|n: NodeView| entry_of(n))
}

/// The jobs that mirroring `nodes` under the folder `parent_id` must
/// produce, in order: one for each file within the limit, and those of each
/// subdirectory whose folder was created and whose entries could be listed.
pub open spec fn jobs_of(nodes: Seq<NodeView>, parent_id: Seq<char>, max_file_size: u64) -> Seq<
    JobView,
>
    decreases nodes,
{
    if nodes.len() == 0 {
        Seq::empty()
    } else {
        let first = match nodes[0] {
            NodeView::File { path, size: Some(size), .. } => if size <= max_file_size {
                seq![JobView { path, parent_id }]
            } else {
                Seq::empty()
            },
            NodeView::Directory { folder: Some(id), listing: Some(children), .. } => jobs_of(
                children,
                id,
                max_file_size,
            ),
            _ => Seq::empty(),
        };
        first + jobs_of(nodes.drop_first(), parent_id, max_file_size)
    }
}

/// The folders of the subdirectories below `nodes` that the walk enters,
/// in the order of their creation: those whose folder was created, and
/// below them only where they could be listed.
pub open spec fn folders_of(nodes: Seq<NodeView>) -> Seq<Seq<char>>
    decreases nodes,
{
    if nodes.len() == 0 {
        Seq::empty()
    } else {
        let first = match nodes[0] {
            NodeView::Directory { folder: Some(id), listing: Some(children), .. } => seq![id]
                + folders_of(children),
            NodeView::Directory { folder: Some(id), listing: None, .. } => seq![id],
            _ => Seq::empty(),
        };
        first + folders_of(nodes.drop_first())
    }
}

/// The answers that the surroundings give while `nodes` are walked, in order.
pub open spec fn answers_of(nodes: Seq<NodeView>) -> Seq<EventView>
    decreases nodes,
{
    if nodes.len() == 0 {
        Seq::empty()
    } else {
        let first = match nodes[0] {
            NodeView::Directory { folder: Some(id), listing: Some(children), .. } => seq![
                EventView::FolderCreated(id),
                EventView::Listed(entries_of(children)),
            ] + answers_of(children),
            NodeView::Directory { folder: Some(id), listing: None, .. } => seq![
                EventView::FolderCreated(id),
                EventView::Continue,
            ],
            _ => seq![EventView::Continue],
        };
        first + answers_of(nodes.drop_first())
    }
}

/// The job that `action` hands out, if it hands one out.
pub open spec fn job_in(action: ActionView) -> Seq<JobView> {
    match action {
        ActionView::Enqueue(job) => seq![job],
        _ => Seq::empty(),
    }
}

/// The jobs that the walk hands out while it takes in `events`, in order.
pub open spec fn emitted(state: WalkerView, events: Seq<EventView>) -> Seq<JobView>
    decreases events.len(),
{
    if events.len() == 0 {
        Seq::empty()
    } else {
        emitted(state, events.drop_last()) + job_in(state.last_action(events))
    }
}

/// Taking in one event is one step.
proof fn lemma_run_one(state: WalkerView, event: EventView)
    ensures
        state.run(seq![event]) == state.step(event).0,
        emitted(state, seq![event]) == job_in(state.step(event).1),
{
    let one = seq![event];
    assert(one.drop_last() =~= Seq::<EventView>::empty());
    assert(one.last() == event);
    assert(state.run(one.drop_last()) == state);
    assert(emitted(state, one.drop_last()) =~= Seq::<JobView>::empty());
    assert(emitted(state, one) =~= job_in(state.step(event).1));
}

/// Taking in two runs of events one after the other is taking in both.
proof fn lemma_run_concat(state: WalkerView, a: Seq<EventView>, b: Seq<EventView>)
    ensures
        state.run(a + b) == state.run(a).run(b),
        emitted(state, a + b) == emitted(state, a) + emitted(state.run(a), b),
    decreases b.len(),
{
    if b.len() == 0 {
        assert(a + b =~= a);
        assert(emitted(state, a) + emitted(state.run(a), b) =~= emitted(state, a));
    } else {
        lemma_run_concat(state, a, b.drop_last());
        assert((a + b).drop_last() =~= a + b.drop_last());
        assert((a + b).last() == b.last());
        assert(emitted(state, a + b) =~= emitted(state, a) + emitted(state.run(a), b));
    }
}

/// The jobs of the first node alone, where it is a file.
pub open spec fn file_job(node: NodeView, parent_id: Seq<char>, max_file_size: u64) -> Seq<JobView> {
    match node {
        NodeView::File { path, size: Some(size), .. } => if size <= max_file_size {
            seq![JobView { path, parent_id }]
        } else {
            Seq::empty()
        },
        _ => Seq::empty(),
    }
}

/// The step that takes the first of the nodes on top of the waiting entries.
proof fn lemma_first_node(
    state: WalkerView,
    carry: EventView,
    nodes: Seq<NodeView>,
    parent_id: Seq<char>,
    base: Seq<TaskView>,
)
    requires
        !state.enters(carry),
        state.take_in(carry).pending == base + tasks_of(entries_of(nodes), parent_id),
        nodes.len() > 0,
    ensures
        ({
            let next = state.step(carry).0;
            &&& state.run(seq![carry]) == next
            &&& emitted(state, seq![carry]) == file_job(nodes[0], parent_id, state.max_file_size)
            &&& next.pending == base + tasks_of(entries_of(nodes.drop_first()), parent_id)
            &&& next.created == state.created
            &&& next.max_file_size == state.max_file_size
            &&& !next.enters(EventView::Continue)
            &&& next.take_in(EventView::Continue) == next
            &&& (nodes[0] is Directory ==> next.awaiting is Creation)
        }),
{
    let head = nodes[0];
    let rest = nodes.drop_first();
    let taken = state.take_in(carry);
    let tasks = tasks_of(entries_of(nodes), parent_id);
    assert(taken.pending.last() == tasks.last());
    assert(tasks.last() == (TaskView { entry: entry_of(head), parent_id }));
    assert(taken.pending.drop_last() =~= base + tasks_of(entries_of(rest), parent_id));
    lemma_run_one(state, carry);
    assert(job_in(state.step(carry).1) =~= file_job(head, parent_id, state.max_file_size));
}

/// The step that enters a directory whose folder was created.
proof fn lemma_enter(state: WalkerView, id: Seq<char>, entries: Seq<EntryView>)
    requires
        state.awaiting is Creation,
    ensures
        ({
            let next = state.step(EventView::FolderCreated(id)).0;
            &&& state.run(seq![EventView::FolderCreated(id)]) == next
            &&& emitted(state, seq![EventView::FolderCreated(id)]) == Seq::<JobView>::empty()
            &&& next.pending == state.pending
            &&& next.created == state.created.push(id)
            &&& next.max_file_size == state.max_file_size
            &&& !next.enters(EventView::Continue)
            &&& next.take_in(EventView::Continue) == next
            &&& !next.enters(EventView::Listed(entries))
            &&& next.take_in(EventView::Listed(entries)).pending == next.pending + tasks_of(
                entries,
                id,
            )
        }),
{
    lemma_run_one(state, EventView::FolderCreated(id));
    assert(job_in(state.step(EventView::FolderCreated(id)).1) =~= Seq::<JobView>::empty());
}

/// What walking `nodes` on top of the waiting entries `base` comes to: the
/// walk takes them all, hands out their jobs, records their folders, and
/// leaves what waited below.
pub open spec fn walked(
    state: WalkerView,
    carry: EventView,
    nodes: Seq<NodeView>,
    parent_id: Seq<char>,
    base: Seq<TaskView>,
) -> bool {
    let all = seq![carry] + answers_of(nodes);
    let end = state.run(all.drop_last());
    &&& !end.enters(all.last())
    &&& end.take_in(all.last()).pending == base
    &&& end.max_file_size == state.max_file_size
    &&& end.created == state.created + folders_of(nodes)
    &&& emitted(state, all.drop_last()) == jobs_of(nodes, parent_id, state.max_file_size)
}

/// The walk of nodes whose first is a directory that is entered and listed.
proof fn lemma_walk_listed(
    state: WalkerView,
    carry: EventView,
    nodes: Seq<NodeView>,
    parent_id: Seq<char>,
    base: Seq<TaskView>,
)
    requires
        !state.enters(carry),
        state.take_in(carry).pending == base + tasks_of(entries_of(nodes), parent_id),
        nodes.len() > 0,
        nodes[0] matches NodeView::Directory { folder: Some(_), listing: Some(_), .. },
    ensures
        walked(state, carry, nodes, parent_id, base),
    decreases nodes, 0nat,
{
    let all = seq![carry] + answers_of(nodes);
    let max = state.max_file_size;
    let head = nodes[0];
    let rest = nodes.drop_first();
    let id = head->folder->Some_0;
    let children = head->listing->Some_0;
    let s1 = state.step(carry).0;
    lemma_first_node(state, carry, nodes, parent_id, base);
    let created = EventView::FolderCreated(id);
    let s2 = s1.step(created).0;
    let listed = EventView::Listed(entries_of(children));
    lemma_enter(s1, id, entries_of(children));
    lemma_walk(s2, listed, children, id, s2.pending);
    let inner = seq![listed] + answers_of(children);
    let s3 = s2.run(inner.drop_last());
    let c3 = inner.last();
    lemma_walk(s3, c3, rest, parent_id, base);
    let outer = seq![c3] + answers_of(rest);
    let prefix = seq![carry] + seq![created];
    assert(answers_of(nodes) =~= seq![created, listed] + answers_of(children) + answers_of(rest));
    assert(all.drop_last() =~= prefix + inner.drop_last() + outer.drop_last());
    assert(all.last() == outer.last());
    lemma_run_concat(state, seq![carry], seq![created]);
    lemma_run_concat(state, prefix, inner.drop_last());
    lemma_run_concat(state, prefix + inner.drop_last(), outer.drop_last());
    assert(file_job(head, parent_id, max) =~= Seq::<JobView>::empty());
    assert(emitted(state, all.drop_last()) =~= jobs_of(nodes, parent_id, max));
    assert(state.created.push(id) + folders_of(children) + folders_of(rest) =~= state.created
        + folders_of(nodes));
}

/// The walk of nodes whose first is a directory that is entered but cannot
/// be listed.
proof fn lemma_walk_unlisted(
    state: WalkerView,
    carry: EventView,
    nodes: Seq<NodeView>,
    parent_id: Seq<char>,
    base: Seq<TaskView>,
)
    requires
        !state.enters(carry),
        state.take_in(carry).pending == base + tasks_of(entries_of(nodes), parent_id),
        nodes.len() > 0,
        nodes[0] matches NodeView::Directory { folder: Some(_), listing: None, .. },
    ensures
        walked(state, carry, nodes, parent_id, base),
    decreases nodes, 0nat,
{
    let all = seq![carry] + answers_of(nodes);
    let max = state.max_file_size;
    let head = nodes[0];
    let rest = nodes.drop_first();
    let id = head->folder->Some_0;
    let s1 = state.step(carry).0;
    lemma_first_node(state, carry, nodes, parent_id, base);
    let created = EventView::FolderCreated(id);
    let s2 = s1.step(created).0;
    lemma_enter(s1, id, Seq::empty());
    lemma_walk(s2, EventView::Continue, rest, parent_id, base);
    let outer = seq![EventView::Continue] + answers_of(rest);
    let prefix = seq![carry] + seq![created];
    assert(answers_of(nodes) =~= seq![created, EventView::Continue] + answers_of(rest));
    assert(all.drop_last() =~= prefix + outer.drop_last());
    assert(all.last() == outer.last());
    lemma_run_concat(state, seq![carry], seq![created]);
    lemma_run_concat(state, prefix, outer.drop_last());
    assert(file_job(head, parent_id, max) =~= Seq::<JobView>::empty());
    assert(emitted(state, all.drop_last()) =~= jobs_of(nodes, parent_id, max));
    assert(state.created.push(id) + folders_of(rest) =~= state.created + folders_of(nodes));
}

/// The walk of nodes whose first is a file, or a directory whose folder
/// cannot be created.
proof fn lemma_walk_passed(
    state: WalkerView,
    carry: EventView,
    nodes: Seq<NodeView>,
    parent_id: Seq<char>,
    base: Seq<TaskView>,
)
    requires
        !state.enters(carry),
        state.take_in(carry).pending == base + tasks_of(entries_of(nodes), parent_id),
        nodes.len() > 0,
        !(nodes[0] matches NodeView::Directory { folder: Some(_), .. }),
    ensures
        walked(state, carry, nodes, parent_id, base),
    decreases nodes, 0nat,
{
    let all = seq![carry] + answers_of(nodes);
    let max = state.max_file_size;
    let head = nodes[0];
    let rest = nodes.drop_first();
    let s1 = state.step(carry).0;
    lemma_first_node(state, carry, nodes, parent_id, base);
    lemma_walk(s1, EventView::Continue, rest, parent_id, base);
    let outer = seq![EventView::Continue] + answers_of(rest);
    assert(answers_of(nodes) =~= seq![EventView::Continue] + answers_of(rest));
    assert(all.drop_last() =~= seq![carry] + outer.drop_last());
    assert(all.last() == outer.last());
    lemma_run_concat(state, seq![carry], outer.drop_last());
    assert(jobs_of(nodes, parent_id, max) =~= file_job(head, parent_id, max) + jobs_of(
        rest,
        parent_id,
        max,
    ));
    assert(emitted(state, all.drop_last()) =~= jobs_of(nodes, parent_id, max));
    assert(folders_of(nodes) =~= folders_of(rest));
}

/// The walk of any nodes on top of the waiting entries.
proof fn lemma_walk(
    state: WalkerView,
    carry: EventView,
    nodes: Seq<NodeView>,
    parent_id: Seq<char>,
    base: Seq<TaskView>,
)
    requires
        !state.enters(carry),
        state.take_in(carry).pending == base + tasks_of(entries_of(nodes), parent_id),
    ensures
        walked(state, carry, nodes, parent_id, base),
    decreases nodes, 1nat,
{
    if nodes.len() == 0 {
        let all = seq![carry] + answers_of(nodes);
        assert(all.drop_last() =~= Seq::<EventView>::empty());
        assert(all.last() == carry);
        assert(tasks_of(entries_of(nodes), parent_id) =~= Seq::<TaskView>::empty());
        assert(base + tasks_of(entries_of(nodes), parent_id) =~= base);
        assert(state.created + folders_of(nodes) =~= state.created);
    } else {
        match nodes[0] {
            NodeView::Directory { folder: Some(_), listing: Some(_), .. } => {
                lemma_walk_listed(state, carry, nodes, parent_id, base);
            },
            NodeView::Directory { folder: Some(_), listing: None, .. } => {
                lemma_walk_unlisted(state, carry, nodes, parent_id, base);
            },
            _ => {
                lemma_walk_passed(state, carry, nodes, parent_id, base);
            },
        }
    }
}

/// For every directory tree and whatever the service and the file system
/// answer: when the walk is given those answers it finishes with nothing
/// left waiting, it has handed out exactly the jobs that the tree calls
/// for, each once, in order and under the folder created for its directory,
/// and it has recorded exactly the folders created, one for each
/// subdirectory entered.
pub proof fn law_walk_mirrors_tree(max_file_size: u64, root_id: Seq<char>, children: Seq<NodeView>)
    ensures
        ({
            let start = WalkerView::initial(max_file_size, root_id);
            let events = seq![EventView::Listed(entries_of(children))] + answers_of(children);
            &&& start.last_action(events) == ActionView::Finished
            &&& start.run(events).pending.len() == 0
            &&& emitted(start, events) == jobs_of(children, root_id, max_file_size)
            &&& start.run(events).created == folders_of(children)
            &&& start.run(events).visited.len() == folders_of(children).len()
        }),
{
    let start = WalkerView::initial(max_file_size, root_id);
    let listed = EventView::Listed(entries_of(children));
    let events = seq![listed] + answers_of(children);
    assert(start.pending + tasks_of(entries_of(children), root_id) =~= Seq::<TaskView>::empty()
        + tasks_of(entries_of(children), root_id));
    lemma_walk(start, listed, children, root_id, Seq::empty());
    let end = start.run(events.drop_last());
    assert(end.step(events.last()) == end.take_in(events.last()).dispatch());
    assert(emitted(start, events) =~= emitted(start, events.drop_last()));
    crate::walker::law_folders_count_entered_directories(start, events);
    assert(start.created + folders_of(children) =~= folders_of(children));
}

} // verus!
