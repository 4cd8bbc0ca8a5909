//! Todo lists: the tasks of one user, in the order in which they were added.

use crate::user_id::UserId;
use vstd::prelude::*;

verus! {

/// The tasks of a list, each as its text.
pub open spec fn texts(list: Seq<String>) -> Seq<Seq<char>> {
    Seq::new(list.len(), |i: int| list[i]@)
}

/// An ordered list of tasks. Two lists are equal when they hold the same
/// tasks in the same order.
#[derive(Clone, Debug, Eq)]
pub struct Todo {
    list: Vec<String>,
}

impl PartialEq for Todo {
    fn eq(&self, other: &Self) -> (b: bool) {
        if self.list.len() != other.list.len() {
            proof {
                assert(texts(self.list@).len() != texts(other.list@).len());
            }
            return false;
        }
        let mut i: usize = 0;
        while i < self.list.len()
            invariant
                i <= self.list@.len(),
                self.list@.len() == other.list@.len(),
                forall|j: int| 0 <= j < i ==> self.list@[j]@ == other.list@[j]@,
            decreases self.list@.len() - i,
        {
            if !(self.list[i] == other.list[i]) {
                proof {
                    assert(texts(self.list@)[i as int] != texts(other.list@)[i as int]);
                }
                return false;
            }
            i += 1;
        }
        proof {
            assert(texts(self.list@) =~= texts(other.list@));
        }
        true
    }
}

impl vstd::std_specs::cmp::PartialEqSpecImpl for Todo {
    open spec fn obeys_eq_spec() -> bool {
        true
    }

    open spec fn eq_spec(&self, other: &Self) -> bool {
        self@ == other@
    }
}

impl View for Todo {
    type V = Seq<Seq<char>>;

    closed spec fn view(&self) -> Seq<Seq<char>> {
        texts(self.list@)
    }
}

impl Default for Todo {
    fn default() -> (todo: Todo)
        ensures
            todo@ == Seq::<Seq<char>>::empty(),
    {
        Todo::new()
    }
}

impl Todo {
    /// The empty list, which is also the list of a user who has none yet.
    pub fn new() -> (todo: Todo)
        ensures
            todo@ == Seq::<Seq<char>>::empty(),
    {
        let todo = Todo { list: Vec::new() };
        proof {
            assert(todo@ =~= Seq::<Seq<char>>::empty());
        }
        todo
    }

    /// The list that holds `list`, in its order.
    pub fn from_tasks(list: Vec<String>) -> (todo: Todo)
        ensures
            todo@ == texts(list@),
    {
        Todo { list }
    }

    /// The tasks, in order.
    pub fn tasks(&self) -> (list: &Vec<String>)
        ensures
            texts(list@) == self@,
    {
        &self.list
    }

    /// The tasks, in order, leaving the list behind.
    pub fn into_tasks(self) -> (list: Vec<String>)
        ensures
            texts(list@) == self@,
    {
        self.list
    }

    /// A second list with the same tasks.
    pub fn duplicate(&self) -> (copy: Todo)
        ensures
            copy@ == self@,
    {
        let mut list: Vec<String> = Vec::new();
        let mut i: usize = 0;
        while i < self.list.len()
            invariant
                i <= self.list@.len(),
                texts(list@) == texts(self.list@.take(i as int)),
            decreases self.list@.len() - i,
        {
            let ghost before = list@;
            list.push(self.list[i].clone());
            proof {
                let seen = self.list@.take(i as int);
                let now = self.list@.take(i + 1);
                assert(texts(before).len() == seen.len());
                assert forall|k: int| 0 <= k < now.len() implies texts(list@)[k] == texts(now)[k] by {
                    if k < i {
                        assert(texts(before)[k] == texts(seen)[k]);
                    }
                }
                assert(texts(list@) =~= texts(now));
            }
            i += 1;
        }
        proof {
            assert(self.list@.take(self.list@.len() as int) =~= self.list@);
        }
        Todo { list }
    }

    /// Appends `task` to the end of the list.
    pub fn push(&mut self, task: String)
        ensures
            final(self)@ == old(self)@.push(task@),
    {
        self.list.push(task);
        proof {
            assert(self@ =~= old(self)@.push(task@));
        }
    }
}

/// The todo list of one user as it is stored: one document for each user.
/// Two documents are equal when they have the same owner and the same list.
#[derive(Clone, Debug, Eq)]
pub struct TodoStorage {
    user_id: UserId,
    todo: Todo,
}

impl PartialEq for TodoStorage {
    fn eq(&self, other: &Self) -> (b: bool) {
        self.user_id == other.user_id && self.todo == other.todo
    }
}

impl vstd::std_specs::cmp::PartialEqSpecImpl for TodoStorage {
    open spec fn obeys_eq_spec() -> bool {
        true
    }

    open spec fn eq_spec(&self, other: &Self) -> bool {
        self@ == other@
    }
}

/// What a stored todo list holds: its owner and the tasks.
pub struct TodoDocument {
    pub owner: Seq<char>,
    pub tasks: Seq<Seq<char>>,
}

impl View for TodoStorage {
    type V = TodoDocument;

    closed spec fn view(&self) -> TodoDocument {
        TodoDocument { owner: self.user_id@, tasks: self.todo@ }
    }
}

impl TodoStorage {
    /// The document that keeps `todo` for the user `user_id`.
    pub fn new(user_id: UserId, todo: Todo) -> (storage: TodoStorage)
        ensures
            storage@ == (TodoDocument { owner: user_id@, tasks: todo@ }),
    {
        TodoStorage { user_id, todo }
    }

    /// The owner of the list.
    pub fn user_id(&self) -> (id: UserId)
        ensures
            id@ == self@.owner,
    {
        self.user_id
    }

    /// The list itself.
    pub fn todo(&self) -> (todo: &Todo)
        ensures
            todo@ == self@.tasks,
    {
        &self.todo
    }

    /// The list, without its owner.
    pub fn to_todo_list(self) -> (todo: Todo)
        ensures
            todo@ == self@.tasks,
    {
        Todo { list: self.todo.list }
    }
}

/// The body of a request that adds a task.
#[derive(Debug)]
pub struct UpdateTodo {
    pub task: String,
}

} // verus!
