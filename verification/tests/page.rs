use todomvc::{item_label, items_left_label, update, update_with_id, view, Model, Msg, Todo};

fn three_todos_one_completed() -> Model {
    let mut model = Model::new();
    for (id, title) in [(1u128, "a"), (2, "b"), (3, "c")] {
        update_with_id(Msg::NewTodoTitleChanged(title.to_string()), &mut model, 0);
        update_with_id(Msg::CreateTodo, &mut model, id);
    }
    update(Msg::ToggleTodo(2), &mut model);
    model
}

#[test]
fn active_filter_shows_the_open_todos() {
    let mut model = three_todos_one_completed();
    update(Msg::UrlChanged("/active".to_string()), &mut model);
    let page = view(&model);
    assert_eq!(
        page.visible_todos,
        vec![
            Todo { id: 1, title: "a".to_string(), completed: false },
            Todo { id: 3, title: "c".to_string(), completed: false },
        ]
    );
    assert_eq!(page.active_count, 2);
    assert_eq!(page.items_left, "2 items left");
    assert_eq!(model.visible_todos(), page.visible_todos);
    assert_eq!(model.active_count(), 2);
}

#[test]
fn completed_filter_shows_the_completed_todos() {
    let mut model = three_todos_one_completed();
    update(Msg::UrlChanged("/completed".to_string()), &mut model);
    assert_eq!(
        model.visible_todos(),
        vec![Todo { id: 2, title: "b".to_string(), completed: true }]
    );
    assert_eq!(model.total_count(), 3);
}

#[test]
fn all_filter_shows_every_todo() {
    let mut model = three_todos_one_completed();
    update(Msg::UrlChanged("/active".to_string()), &mut model);
    update(Msg::UrlChanged("/".to_string()), &mut model);
    let ids: Vec<u128> = model.visible_todos().iter().map(|t| t.id).collect();
    assert_eq!(ids, vec![1, 2, 3]);
}

#[test]
fn counts_add_up() {
    let mut model = three_todos_one_completed();
    let check = |model: &Model| {
        let page = view(model);
        assert_eq!(page.active_count + page.completed_count, page.total_count);
        assert_eq!(model.active_count() + model.completed_count(), model.total_count());
    };
    check(&Model::new());
    check(&model);
    for msg in [
        Msg::CheckOrUncheckAll,
        Msg::ToggleTodo(1),
        Msg::ToggleTodo(3),
        Msg::ClearCompleted,
        Msg::RemoveTodo(1),
        Msg::CheckOrUncheckAll,
    ] {
        update(msg, &mut model);
        check(&model);
    }
}

#[test]
fn counts_of_a_page() {
    let model = three_todos_one_completed();
    let page = view(&model);
    assert_eq!(page.total_count, 3);
    assert_eq!(page.active_count, 2);
    assert_eq!(page.completed_count, 1);
    assert!(!page.all_completed);
    assert!(page.has_completed);
    assert_eq!(page.visible_todos.len(), 3);
    assert_eq!(model.completed_count(), 1);
    assert!(!model.is_empty());
}

#[test]
fn page_without_todos() {
    let model = Model::new();
    let page = view(&model);
    assert!(page.visible_todos.is_empty());
    assert_eq!(page.total_count, 0);
    assert_eq!(page.active_count, 0);
    assert_eq!(page.completed_count, 0);
    assert!(!page.all_completed);
    assert!(!page.has_completed);
    assert_eq!(page.items_left, "0 items left");
    assert!(model.is_empty());
    assert!(!model.all_completed());
}

#[test]
fn all_completed_needs_a_todo_and_no_open_one() {
    let mut model = three_todos_one_completed();
    assert!(!model.all_completed());
    update(Msg::ToggleTodo(1), &mut model);
    update(Msg::ToggleTodo(3), &mut model);
    assert!(model.all_completed());
    assert!(model.has_completed());
    assert_eq!(model.active_count(), 0);
    assert_eq!(view(&model).items_left, "0 items left");
    update(Msg::ClearCompleted, &mut model);
    assert!(!model.all_completed());
    assert!(!model.has_completed());
}

#[test]
fn one_open_todo_is_an_item() {
    let mut model = three_todos_one_completed();
    update(Msg::ToggleTodo(1), &mut model);
    let page = view(&model);
    assert_eq!(page.active_count, 1);
    assert_eq!(page.items_left, "1 item left");
}

#[test]
fn footer_words() {
    assert_eq!(item_label(0), "items");
    assert_eq!(item_label(1), "item");
    assert_eq!(item_label(2), "items");
    assert_eq!(item_label(usize::MAX), "items");
    assert_eq!(items_left_label(0), "0 items left");
    assert_eq!(items_left_label(1), "1 item left");
    assert_eq!(items_left_label(2), "2 items left");
    assert_eq!(items_left_label(10), "10 items left");
    assert_eq!(items_left_label(11), "11 items left");
    assert_eq!(items_left_label(1234567), "1234567 items left");
    assert_eq!(items_left_label(usize::MAX), format!("{} items left", usize::MAX));
}

#[test]
fn filter_changes_no_todo() {
    let mut model = three_todos_one_completed();
    update(Msg::UrlChanged("/completed".to_string()), &mut model);
    assert_eq!(model.total_count(), 3);
    assert_eq!(model.active_count(), 2);
    for id in 1..=3u128 {
        assert!(model.todo(id).is_some());
    }
}
