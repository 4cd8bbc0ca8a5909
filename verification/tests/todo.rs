use todo_backend::todo::Todo;
use todo_backend::todo::TodoStorage;
use todo_backend::todo::UpdateTodo;
use todo_backend::user_id::UserId;

#[test]
fn new_list_is_empty() {
    assert!(Todo::new().tasks().is_empty());
    assert!(Todo::default().tasks().is_empty());
    assert_eq!(Todo::new(), Todo::default());
}

#[test]
fn pushed_task_comes_last() {
    let mut todo = Todo::new();
    todo.push("buy milk".to_string());
    assert_eq!(todo.tasks(), &vec!["buy milk".to_string()]);
    todo.push("call mom".to_string());
    assert_eq!(todo.tasks(), &vec!["buy milk".to_string(), "call mom".to_string()]);
    todo.push("buy milk".to_string());
    assert_eq!(
        todo.into_tasks(),
        vec!["buy milk".to_string(), "call mom".to_string(), "buy milk".to_string()]
    );
}

#[test]
fn list_keeps_the_order_of_its_tasks() {
    let tasks = vec!["c".to_string(), "a".to_string(), "b".to_string()];
    let todo = Todo::from_tasks(tasks.clone());
    assert_eq!(todo.tasks(), &tasks);
    assert_eq!(todo.duplicate(), todo);
    assert_eq!(todo.duplicate().into_tasks(), tasks);
}

#[test]
fn storage_keeps_owner_and_list() {
    let owner = UserId::from_str("0123456789ab").unwrap();
    let todo = Todo::from_tasks(vec!["buy milk".to_string()]);
    let storage = TodoStorage::new(owner, todo.duplicate());
    assert_eq!(storage.user_id(), owner);
    assert_eq!(storage.todo(), &todo);
    assert_eq!(storage.to_todo_list(), todo);
}

#[test]
fn update_carries_the_task() {
    let update = UpdateTodo { task: "buy milk".to_string() };
    assert_eq!(update.task, "buy milk");
}
