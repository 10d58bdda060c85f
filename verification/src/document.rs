//! The to-do document and the mutations that the state store applies to it.
//!
//! Every mutation is specified over [`DocumentView`], the document as a
//! mathematical value. The two counters are kept by hand at each mutation:
//! they are data of their own, not derived from the task list, and a
//! document may hold counters that disagree with its tasks.

use vstd::prelude::*;

verus! {

/// A to-do entry as a mathematical value.
pub struct TaskView {
    pub task: Seq<char>,
    pub completed: bool,
}

/// A to-do entry: its text and whether it is done.
#[derive(Clone, Debug, PartialEq, Eq)]
pub struct Task {
    pub task: String,
    pub completed: bool,
}

impl View for Task {
    type V = TaskView;

    open spec fn view(&self) -> TaskView {
        TaskView { task: self.task@, completed: self.completed }
    }
}

/// A free-text note without a completion flag.
#[derive(Clone, Debug, PartialEq, Eq)]
pub struct RememberItem {
    pub item: String,
}

impl View for RememberItem {
    type V = Seq<char>;

    open spec fn view(&self) -> Seq<char> {
        self.item@
    }
}

/// The views of a list of tasks, in order.
pub open spec fn task_views(tasks: Seq<Task>) -> Seq<TaskView> {
    Seq::new(tasks.len(), |i: int| tasks[i]@)
}

/// The views of a list of notes, in order.
pub open spec fn item_views(items: Seq<RememberItem>) -> Seq<Seq<char>> {
    Seq::new(items.len(), |i: int| items[i]@)
}

/// The whole persisted state as a mathematical value.
pub struct DocumentView {
    pub header: Seq<char>,
    pub remember_header: Seq<char>,
    pub tasks: Seq<TaskView>,
    pub remember_items: Seq<Seq<char>>,
    pub completed_tasks: int,
    pub unfinished_tasks: int,
}

/// The heading of the to-do list in a fresh document.
pub open spec fn todo_header() -> Seq<char> {
    "\n TODO\n ----"@
}

/// The heading of the notes in a fresh document.
pub open spec fn remember_header() -> Seq<char> {
    "\n REMEMBER\n --------"@
}

/// The tasks that are not done, as a predicate.
pub open spec fn incomplete() -> spec_fn(TaskView) -> bool {
    |task: TaskView| !task.completed
}

/// The tasks that are done, as a predicate.
pub open spec fn completed() -> spec_fn(TaskView) -> bool {
    |task: TaskView| task.completed
}

impl DocumentView {
    /// Whether the counters agree with the tasks: as many unfinished tasks
    /// are counted as are in the list, and no fewer completed ones than are
    /// in it. (A completed task that is removed stays counted.)
    pub open spec fn counts_agree(self) -> bool {
        &&& self.unfinished_tasks == self.tasks.filter(incomplete()).len()
        &&& self.completed_tasks >= self.tasks.filter(completed()).len()
    }

    /// The canonical empty document: both lists empty, both counters zero,
    /// the two headings in place.
    pub open spec fn template() -> DocumentView {
        DocumentView {
            header: todo_header(),
            remember_header: remember_header(),
            tasks: Seq::empty(),
            remember_items: Seq::empty(),
            completed_tasks: 0,
            unfinished_tasks: 0,
        }
    }

    /// Whether `index` names a task.
    pub open spec fn has_task(self, index: int) -> bool {
        0 <= index < self.tasks.len()
    }

    /// Whether `index` names a note.
    pub open spec fn has_item(self, index: int) -> bool {
        0 <= index < self.remember_items.len()
    }

    /// A new, incomplete task at the end; one more unfinished task.
    pub open spec fn add(self, text: Seq<char>) -> DocumentView {
        DocumentView {
            tasks: self.tasks.push(TaskView { task: text, completed: false }),
            unfinished_tasks: self.unfinished_tasks + 1,
            ..self
        }
    }

    /// The task at `index` deleted; one unfinished task fewer where it was
    /// incomplete. An index that names no task changes nothing.
    pub open spec fn remove(self, index: int) -> DocumentView {
        if self.has_task(index) {
            DocumentView {
                tasks: self.tasks.remove(index),
                unfinished_tasks: if self.tasks[index].completed {
                    self.unfinished_tasks
                } else {
                    self.unfinished_tasks - 1
                },
                ..self
            }
        } else {
            self
        }
    }

    /// Every completed task deleted; the others stay in their order.
    pub open spec fn remove_completed(self) -> DocumentView {
        DocumentView { tasks: self.tasks.filter(incomplete()), ..self }
    }

    /// The completion flag of the task at `index` flipped, and the task
    /// moved from one count to the other: where it became complete, one more
    /// completed and one fewer unfinished task; where it became incomplete,
    /// the reverse. An index that names no task changes nothing.
    pub open spec fn complete(self, index: int) -> DocumentView {
        if self.has_task(index) {
            let old_task = self.tasks[index];
            let step: int = if old_task.completed {
                -1
            } else {
                1
            };
            DocumentView {
                tasks: self.tasks.update(
                    index,
                    TaskView { task: old_task.task, completed: !old_task.completed },
                ),
                completed_tasks: self.completed_tasks + step,
                unfinished_tasks: self.unfinished_tasks - step,
                ..self
            }
        } else {
            self
        }
    }

    /// A new note at the end.
    pub open spec fn remember(self, text: Seq<char>) -> DocumentView {
        DocumentView { remember_items: self.remember_items.push(text), ..self }
    }

    /// The note at `index` deleted. An index that names no note changes
    /// nothing.
    pub open spec fn remove_remember(self, index: int) -> DocumentView {
        if self.has_item(index) {
            DocumentView { remember_items: self.remember_items.remove(index), ..self }
        } else {
            self
        }
    }
}

/// The single source of truth of the tracker: two headings, the tasks, the
/// notes, and the two counters.
#[derive(Clone, Debug, PartialEq, Eq)]
pub struct Document {
    pub header: String,
    pub remember_header: String,
    pub tasks: Vec<Task>,
    pub remember_items: Vec<RememberItem>,
    pub completed_tasks: u64,
    pub unfinished_tasks: u64,
}

impl View for Document {
    type V = DocumentView;

    open spec fn view(&self) -> DocumentView {
        DocumentView {
            header: self.header@,
            remember_header: self.remember_header@,
            tasks: task_views(self.tasks@),
            remember_items: item_views(self.remember_items@),
            completed_tasks: self.completed_tasks as int,
            unfinished_tasks: self.unfinished_tasks as int,
        }
    }
}

impl Document {
    /// The canonical empty document.
    pub fn template() -> (document: Document)
        ensures
            document@ == DocumentView::template(),
            document.tasks@.len() == 0,
            document.remember_items@.len() == 0,
            document.completed_tasks == 0,
            document.unfinished_tasks == 0,
    {
        let document = Document {
            header: "\n TODO\n ----".to_owned(),
            remember_header: "\n REMEMBER\n --------".to_owned(),
            tasks: Vec::new(),
            remember_items: Vec::new(),
            completed_tasks: 0,
            unfinished_tasks: 0,
        };
        assert(document@.tasks =~= Seq::empty());
        assert(document@.remember_items =~= Seq::empty());
        document
    }

    /// Overwrites the whole document with the canonical empty one.
    pub fn reset(&mut self)
        ensures
            final(self)@ == DocumentView::template(),
    {
        *self = Document::template();
    }

    /// Appends an incomplete task with the given text and counts it as
    /// unfinished.
    pub fn add(&mut self, text: String)
        requires
            old(self).unfinished_tasks < u64::MAX,
        ensures
            final(self)@ == old(self)@.add(text@),
            final(self)@.tasks.len() == old(self)@.tasks.len() + 1,
            final(self)@.tasks.last() == (TaskView { task: text@, completed: false }),
            final(self).unfinished_tasks == old(self).unfinished_tasks + 1,
    {
        self.tasks.push(Task { task: text, completed: false });
        self.unfinished_tasks = self.unfinished_tasks + 1;
        assert(self@.tasks =~= old(self)@.tasks.push(
            TaskView { task: text@, completed: false },
        ));
    }

    /// Appends a note with the given text.
    pub fn remember(&mut self, text: String)
        ensures
            final(self)@ == old(self)@.remember(text@),
            final(self)@.remember_items.len() == old(self)@.remember_items.len() + 1,
            final(self)@.remember_items.last() == text@,
    {
        self.remember_items.push(RememberItem { item: text });
        assert(self@.remember_items =~= old(self)@.remember_items.push(text@));
    }

    /// Deletes the task at `index` and, where it was incomplete, counts one
    /// unfinished task fewer. An index past the end changes nothing.
    pub fn remove(&mut self, index: usize)
        requires
            old(self)@.has_task(index as int) && !old(self)@.tasks[index as int].completed
                ==> old(self).unfinished_tasks > 0,
        ensures
            final(self)@ == old(self)@.remove(index as int),
            !old(self)@.has_task(index as int) ==> *final(self) == *old(self),
            old(self)@.has_task(index as int) ==> final(self)@.tasks.len() + 1
                == old(self)@.tasks.len(),
            old(self)@.has_task(index as int) ==> final(self).unfinished_tasks + (if old(
                self,
            )@.tasks[index as int].completed {
                0int
            } else {
                1int
            }) == old(self).unfinished_tasks,
    {
        if index < self.tasks.len() {
            let removed = self.tasks.remove(index);
            if !removed.completed {
                self.unfinished_tasks = self.unfinished_tasks - 1;
            }
            assert(self@.tasks =~= old(self)@.tasks.remove(index as int));
        }
    }

    /// Flips the completion flag of the task at `index` and moves the task
    /// from one count to the other: a task that became complete is counted
    /// as completed and no longer as unfinished, one that became incomplete
    /// the other way round. An index past the end changes nothing.
    pub fn complete(&mut self, index: usize)
        requires
            old(self)@.has_task(index as int) ==> (if old(self)@.tasks[index as int].completed {
                old(self).completed_tasks > 0 && old(self).unfinished_tasks < u64::MAX
            } else {
                old(self).completed_tasks < u64::MAX && old(self).unfinished_tasks > 0
            }),
        ensures
            final(self)@ == old(self)@.complete(index as int),
            !old(self)@.has_task(index as int) ==> *final(self) == *old(self),
            old(self)@.has_task(index as int) ==> final(self)@.tasks[index as int].completed
                != old(self)@.tasks[index as int].completed,
            old(self)@.has_task(index as int) ==> final(self).completed_tasks == old(
                self,
            ).completed_tasks + (if old(self)@.tasks[index as int].completed {
                -1int
            } else {
                1int
            }),
            final(self).completed_tasks + final(self).unfinished_tasks == old(
                self,
            ).completed_tasks + old(self).unfinished_tasks,
    {
        if index < self.tasks.len() {
            let was_completed = self.tasks[index].completed;
            self.tasks[index].completed = !was_completed;
            if was_completed {
                self.completed_tasks = self.completed_tasks - 1;
                self.unfinished_tasks = self.unfinished_tasks + 1;
            } else {
                self.completed_tasks = self.completed_tasks + 1;
                self.unfinished_tasks = self.unfinished_tasks - 1;
            }
            assert(self@.tasks =~= old(self)@.complete(index as int).tasks);
        }
    }

    /// Deletes the note at `index`. An index past the end changes nothing.
    pub fn remove_remember(&mut self, index: usize)
        ensures
            final(self)@ == old(self)@.remove_remember(index as int),
            !old(self)@.has_item(index as int) ==> *final(self) == *old(self),
            old(self)@.has_item(index as int) ==> final(self)@.remember_items.len() + 1
                == old(self)@.remember_items.len(),
    {
        if index < self.remember_items.len() {
            self.remember_items.remove(index);
            assert(self@.remember_items =~= old(self)@.remember_items.remove(index as int));
        }
    }

    /// Deletes every completed task, scanning from the end toward the start
    /// so that the positions still to be visited never shift. The tasks that
    /// stay keep their order; the counters are not touched.
    pub fn remove_completed(&mut self)
        ensures
            final(self)@ == old(self)@.remove_completed(),
    {
        let ghost before = task_views(self.tasks@);
        let mut i: usize = self.tasks.len();
        while i > 0
            invariant
                i <= self.tasks@.len(),
                i <= before.len(),
                task_views(self.tasks@).take(i as int) =~= before.take(i as int),
                task_views(self.tasks@).skip(i as int) =~= before.skip(i as int).filter(
                    incomplete(),
                ),
                self.header == old(self).header,
                self.remember_header == old(self).remember_header,
                self.remember_items == old(self).remember_items,
                self.completed_tasks == old(self).completed_tasks,
                self.unfinished_tasks == old(self).unfinished_tasks,
            decreases i,
        {
            i = i - 1;
            let ghost here = task_views(self.tasks@);
            proof {
                assert(here[i as int] == before.take(i + 1)[i as int]);
                lemma_filter_front(before.skip(i as int), incomplete());
                assert(before.skip(i as int).drop_first() =~= before.skip(i + 1));
            }
            if self.tasks[i].completed {
                self.tasks.remove(i);
                assert(task_views(self.tasks@) =~= here.remove(i as int));
            }
        }
        assert(task_views(self.tasks@).skip(0) =~= task_views(self.tasks@));
        assert(before.skip(0) =~= before);
    }
}

/// Filtering a sequence that is not empty decides on its first element and
/// filters the rest.
pub proof fn lemma_filter_front<A>(s: Seq<A>, pred: spec_fn(A) -> bool)
    requires
        s.len() > 0,
    ensures
        s.filter(pred) == (if pred(s[0]) {
            seq![s[0]] + s.drop_first().filter(pred)
        } else {
            s.drop_first().filter(pred)
        }),
{
    let head = seq![s[0]];
    assert(s =~= head + s.drop_first());
    Seq::filter_distributes_over_add(head, s.drop_first(), pred);
    reveal_with_fuel(Seq::filter, 2);
    assert(head.drop_last() =~= Seq::<A>::empty());
    assert(head.filter(pred) =~= (if pred(s[0]) {
        head
    } else {
        Seq::<A>::empty()
    }));
    assert(Seq::<A>::empty() + s.drop_first().filter(pred) =~= s.drop_first().filter(pred));
}

/// Completing a task twice restores the document. On a task that is not
/// done, the first call completes it, counts one completed task more and
/// one unfinished task fewer; the second reverts the task and both counts.
pub proof fn lemma_complete_twice(document: DocumentView, index: int)
    ensures
        document.complete(index).complete(index) == document,
        document.has_task(index) && !document.tasks[index].completed ==> ({
            let once = document.complete(index);
            &&& once.tasks[index].completed
            &&& once.completed_tasks == document.completed_tasks + 1
            &&& once.unfinished_tasks == document.unfinished_tasks - 1
            &&& once.complete(index).completed_tasks == once.completed_tasks - 1
            &&& once.complete(index).unfinished_tasks == once.unfinished_tasks + 1
            &&& !once.complete(index).tasks[index].completed
        }),
{
    assert(document.complete(index).complete(index).tasks =~= document.tasks);
}

/// The number of tasks before `index` that are not done.
pub open spec fn kept_before(document: DocumentView, index: int) -> int {
    document.tasks.take(index).filter(incomplete()).len() as int
}

/// After the completed tasks are removed, no task that is left is
/// completed, and the tasks that are left are as many as were not done.
pub proof fn lemma_remove_completed_leaves_incomplete(document: DocumentView)
    ensures
        forall|i: int|
            0 <= i < document.remove_completed().tasks.len() ==> !(
            #[trigger] document.remove_completed().tasks[i]).completed,
        document.remove_completed().tasks.len() == kept_before(
            document,
            document.tasks.len() as int,
        ),
{
    let kept = document.tasks.filter(incomplete());
    assert forall|i: int| 0 <= i < kept.len() implies !(#[trigger] kept[i]).completed by {
        document.tasks.lemma_filter_pred(incomplete(), i);
    }
    assert(document.tasks.take(document.tasks.len() as int) =~= document.tasks);
}

/// Removing the completed tasks keeps every task that is not done, at the
/// place that the tasks before it leave for it: its new index is the number
/// of tasks before it that are not done.
pub proof fn lemma_remove_completed_keeps_task(document: DocumentView, index: int)
    requires
        document.has_task(index),
        !document.tasks[index].completed,
    ensures
        0 <= kept_before(document, index) < document.remove_completed().tasks.len(),
        document.remove_completed().tasks[kept_before(document, index)] == document.tasks[index],
{
    let front = document.tasks.take(index);
    let back = document.tasks.skip(index);
    assert(document.tasks =~= front + back);
    Seq::filter_distributes_over_add(front, back, incomplete());
    lemma_filter_front(back, incomplete());
}

/// Removing the completed tasks preserves the relative order of the others:
/// of two tasks that are not done, the earlier one stays the earlier one.
pub proof fn lemma_remove_completed_keeps_order(document: DocumentView, first: int, second: int)
    requires
        0 <= first < second,
        document.has_task(second),
        !document.tasks[first].completed,
    ensures
        kept_before(document, first) < kept_before(document, second),
{
    let front = document.tasks.take(first);
    let between = document.tasks.subrange(first, second);
    assert(document.tasks.take(second) =~= front + between);
    Seq::filter_distributes_over_add(front, between, incomplete());
    lemma_filter_front(between, incomplete());
}

/// How many elements of a sequence a filter keeps, counted around one of
/// its positions: those before it, the element itself, those after it.
pub proof fn lemma_filter_around<A>(s: Seq<A>, position: int, pred: spec_fn(A) -> bool)
    requires
        0 <= position < s.len(),
    ensures
        s.filter(pred).len() == s.take(position).filter(pred).len() + (if pred(s[position]) {
            1int
        } else {
            0int
        }) + s.skip(position + 1).filter(pred).len(),
{
    let front = s.take(position);
    let back = s.skip(position);
    assert(s =~= front + back);
    Seq::filter_distributes_over_add(front, back, pred);
    lemma_filter_front(back, pred);
    assert(back.drop_first() =~= s.skip(position + 1));
}

/// A filter keeps of an appended element what it keeps of the sequence and,
/// where the element passes, the element.
pub proof fn lemma_filter_push<A>(s: Seq<A>, last: A, pred: spec_fn(A) -> bool)
    ensures
        s.push(last).filter(pred) == (if pred(last) {
            s.filter(pred).push(last)
        } else {
            s.filter(pred)
        }),
{
    reveal(Seq::filter);
    assert(s.push(last).drop_last() =~= s);
}

/// Counters that agree with the tasks go on agreeing: every mutation of the
/// store keeps the count of unfinished tasks equal to the number of tasks
/// that are not done, and the count of completed tasks no less than the
/// number of tasks that are done.
pub proof fn lemma_mutations_keep_counts(document: DocumentView, text: Seq<char>, index: int)
    requires
        document.counts_agree(),
    ensures
        DocumentView::template().counts_agree(),
        document.add(text).counts_agree(),
        document.remove(index).counts_agree(),
        document.complete(index).counts_agree(),
        document.remove_completed().counts_agree(),
        document.remember(text).counts_agree(),
        document.remove_remember(index).counts_agree(),
{
    let tasks = document.tasks;
    assert(DocumentView::template().counts_agree()) by {
        reveal(Seq::filter);
    }
    assert(document.add(text).counts_agree()) by {
        let added = TaskView { task: text, completed: false };
        lemma_filter_push(tasks, added, incomplete());
        lemma_filter_push(tasks, added, completed());
    }
    if document.has_task(index) {
        let front = tasks.take(index);
        let back = tasks.skip(index + 1);
        lemma_filter_around(tasks, index, incomplete());
        lemma_filter_around(tasks, index, completed());
        assert(document.remove(index).counts_agree()) by {
            assert(tasks.remove(index) =~= front + back);
            Seq::filter_distributes_over_add(front, back, incomplete());
            Seq::filter_distributes_over_add(front, back, completed());
        }
        assert(document.complete(index).counts_agree()) by {
            let toggled = document.complete(index).tasks;
            assert(toggled.take(index) =~= front);
            assert(toggled.skip(index + 1) =~= back);
            lemma_filter_around(toggled, index, incomplete());
            lemma_filter_around(toggled, index, completed());
        }
    }
    assert(document.remove_completed().counts_agree()) by {
        lemma_filter_twice(tasks);
    }
}

/// Of the tasks that are not done, all are not done and none is done.
pub proof fn lemma_filter_twice(tasks: Seq<TaskView>)
    ensures
        tasks.filter(incomplete()).filter(incomplete()) == tasks.filter(incomplete()),
        tasks.filter(incomplete()).filter(completed()).len() == 0,
    decreases tasks.len(),
{
    reveal(Seq::filter);
    if tasks.len() > 0 {
        lemma_filter_twice(tasks.drop_last());
        let kept = tasks.drop_last().filter(incomplete());
        if !tasks.last().completed {
            lemma_filter_push(kept, tasks.last(), incomplete());
            lemma_filter_push(kept, tasks.last(), completed());
        }
    }
}

/// With counters that agree with the tasks, no mutation asks a counter to
/// go below zero: an incomplete task is counted as unfinished, a completed
/// one as completed.
pub proof fn lemma_agreeing_counts_suffice(document: DocumentView, index: int)
    requires
        document.counts_agree(),
        document.has_task(index),
    ensures
        !document.tasks[index].completed ==> document.unfinished_tasks > 0,
        document.tasks[index].completed ==> document.completed_tasks > 0,
{
    lemma_filter_around(document.tasks, index, incomplete());
    lemma_filter_around(document.tasks, index, completed());
}

} // verus!
