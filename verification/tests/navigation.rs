use nltui::app::{App, Direction};
use nltui::list::{Item as ArenaItem, List as ArenaList};
use nltui::options::PageOptions;
use nltui::{Item, List, UI};

fn leaf(name: &str) -> Item {
    Item::new(name.to_string(), name.to_string(), None)
}

fn branch(name: &str, list_name: &str, items: Vec<Item>) -> Item {
    Item::new(name.to_string(), name.to_string(), Some(List::new(list_name.to_string(), items)))
}

fn sample() -> List {
    List::new(
        String::from("first list"),
        vec![
            branch(
                "item 1 for first list",
                "second list",
                vec![branch(
                    "item 1 for second list",
                    "third list",
                    vec![leaf("item 1 for third list")],
                )],
            ),
            leaf("item 2 for first list"),
        ],
    )
}

fn gated() -> UI {
    let mut page_options = vec![
        PageOptions::new(String::from("Example1")),
        PageOptions::new(String::from("Example2")),
        PageOptions::new(String::from("Example3")),
    ];
    page_options[0].disable_delete = true;
    page_options[2].disable_add = true;
    let mut ui = UI::new(sample());
    ui.set_page_options(page_options);
    ui
}

fn shape(list: &List) -> String {
    format!("{:?}", list)
}

fn names(list: &ArenaList) -> Vec<&str> {
    list.items.iter().map(|i| i.name.as_str()).collect()
}

#[test]
fn new_engine_shows_the_root_at_depth_zero() {
    let mut root = ArenaList::new(String::from("root"));
    root.items.push(ArenaItem::new(String::from("a"), String::from("a")));
    let app = App::new(root);
    assert_eq!(app.lists.len(), 1);
    assert_eq!(app.current, 0);
    assert_eq!(app.depth, 0);
    assert!(app.options.page_options.is_empty());
    assert!(app.on_save.is_none());
    assert!(!app.running);
    assert!(app.notification.is_none());
    assert!(!app.adding);
    assert_eq!(app.input, "");
    assert_eq!(app.get_current_list().name, "root");
    assert!(!app.can_go_back());
}

#[test]
fn add_list_appends_an_empty_parentless_list() {
    let mut app = App::new(ArenaList::new(String::from("root")));
    let first = app.add_list(String::from("one"));
    let second = app.add_list(String::from("two"));
    assert_eq!(first, 1);
    assert_eq!(second, 2);
    assert_eq!(app.lists.len(), 3);
    assert_eq!(app.lists[1].name, "one");
    assert_eq!(app.lists[2].name, "two");
    assert_eq!(app.lists[2].previous, None);
    assert_eq!(app.lists[2].selected, None);
    assert!(app.lists[2].items.is_empty());
    assert_eq!(app.current, 0);
}

#[test]
fn getters_follow_the_cursor() {
    let ui = UI::new(sample());
    let app = &ui.app;
    assert_eq!(app.get_current_list().name, "first list");
    assert_eq!(app.get_selected_item().unwrap().name, "item 1 for first list");
    assert_eq!(app.get_list_for_selected_item().unwrap().name, "second list");
    assert_eq!(app.get_current_page_options().title, "0");
}

#[test]
fn getters_see_no_nested_list_on_a_leaf() {
    let mut ui = UI::new(sample());
    ui.app.move_selection(Direction::Down);
    assert_eq!(ui.app.get_selected_item().unwrap().name, "item 2 for first list");
    assert!(ui.app.get_list_for_selected_item().is_none());
    ui.app.clear_selection();
    assert!(ui.app.get_selected_item().is_none());
    assert!(ui.app.get_list_for_selected_item().is_none());
}

#[test]
fn move_selection_wraps_in_the_list_on_show() {
    let mut ui = UI::new(sample());
    ui.app.move_selection(Direction::Down);
    assert_eq!(ui.app.lists[0].selected, Some(1));
    ui.app.move_selection(Direction::Down);
    assert_eq!(ui.app.lists[0].selected, Some(0));
    ui.app.move_selection(Direction::Up);
    assert_eq!(ui.app.lists[0].selected, Some(1));
    assert_eq!(ui.app.lists[1].selected, Some(0));
}

#[test]
fn move_selection_in_an_empty_list_selects_nothing() {
    let mut ui = UI::new(List::new(String::from("empty"), vec![]));
    ui.app.move_selection(Direction::Down);
    assert_eq!(ui.app.lists[0].selected, None);
    ui.app.move_selection(Direction::Up);
    assert_eq!(ui.app.lists[0].selected, None);
}

#[test]
fn clear_selection_removes_the_cursor_only() {
    let mut ui = UI::new(sample());
    ui.app.clear_selection();
    assert_eq!(ui.app.lists[0].selected, None);
    assert_eq!(ui.app.lists[0].items.len(), 2);
    assert_eq!(ui.app.current, 0);
    assert_eq!(ui.app.depth, 0);
    ui.app.move_selection(Direction::Up);
    assert_eq!(ui.app.lists[0].selected, Some(0));
}

#[test]
fn descend_opens_the_nested_list() {
    let mut ui = UI::new(sample());
    ui.app.notify(Some(String::from("note")));
    ui.app.open_selected_item_list();
    assert_eq!(ui.app.current, 1);
    assert_eq!(ui.app.depth, 1);
    assert!(ui.app.notification.is_none());
    assert!(ui.app.can_go_back());
    assert_eq!(ui.app.get_current_list().name, "second list");
    ui.app.open_selected_item_list();
    assert_eq!(ui.app.current, 2);
    assert_eq!(ui.app.depth, 2);
    assert_eq!(ui.app.get_current_page_options().title, "2");
}

#[test]
fn descend_without_nested_list_changes_nothing() {
    let mut ui = UI::new(sample());
    ui.app.move_selection(Direction::Down);
    ui.app.notify(Some(String::from("note")));
    ui.app.open_selected_item_list();
    assert_eq!(ui.app.current, 0);
    assert_eq!(ui.app.depth, 0);
    assert_eq!(ui.app.notification.as_deref(), Some("note"));
}

#[test]
fn descend_without_selection_changes_nothing() {
    let mut ui = UI::new(sample());
    ui.app.clear_selection();
    ui.app.open_selected_item_list();
    assert_eq!(ui.app.current, 0);
    assert_eq!(ui.app.depth, 0);
}

#[test]
fn descend_is_inert_when_editing_is_disabled() {
    let mut ui = UI::new(sample());
    let mut options = PageOptions::new(String::from("locked"));
    options.disable_edit = true;
    ui.set_page_options(vec![options]);
    ui.app.open_selected_item_list();
    assert_eq!(ui.app.current, 0);
    assert_eq!(ui.app.depth, 0);
}

#[test]
fn descend_keeps_a_cursor_that_is_already_there() {
    let mut ui = UI::new(List::new(
        String::from("root"),
        vec![branch("a", "inner", vec![leaf("x"), leaf("y"), leaf("z")])],
    ));
    ui.app.open_selected_item_list();
    ui.app.move_selection(Direction::Down);
    ui.app.move_selection(Direction::Down);
    assert_eq!(ui.app.lists[1].selected, Some(2));
    ui.app.close_current_list();
    ui.app.open_selected_item_list();
    assert_eq!(ui.app.current, 1);
    assert_eq!(ui.app.lists[1].selected, Some(2));
}

#[test]
fn descend_selects_the_first_item_of_a_list_without_cursor() {
    let mut ui = UI::new(List::new(String::from("root"), vec![leaf("a")]));
    ui.app.add_list_item(String::from("x"), String::from("x"));
    ui.app.add_list_item(String::from("y"), String::from("y"));
    assert_eq!(ui.app.lists[1].selected, None);
    ui.app.open_selected_item_list();
    assert_eq!(ui.app.current, 1);
    assert_eq!(ui.app.lists[1].selected, Some(0));
}

#[test]
fn ascend_returns_to_the_parent() {
    let mut ui = UI::new(sample());
    ui.app.open_selected_item_list();
    ui.app.open_selected_item_list();
    ui.app.notify(Some(String::from("note")));
    ui.app.close_current_list();
    assert_eq!(ui.app.current, 1);
    assert_eq!(ui.app.depth, 1);
    assert!(ui.app.notification.is_none());
    ui.app.close_current_list();
    assert_eq!(ui.app.current, 0);
    assert_eq!(ui.app.depth, 0);
    assert_eq!(ui.app.lists[0].items[0].list_index, Some(1));
}

#[test]
fn ascend_from_the_root_changes_nothing() {
    let mut ui = UI::new(sample());
    ui.app.notify(Some(String::from("note")));
    ui.app.close_current_list();
    assert_eq!(ui.app.current, 0);
    assert_eq!(ui.app.depth, 0);
    assert_eq!(ui.app.notification.as_deref(), Some("note"));
    assert_eq!(shape(&ui.app.tree()), shape(&sample()));
}

#[test]
fn ascend_drops_the_reference_to_an_empty_nested_list() {
    let mut ui = UI::new(List::new(
        String::from("root"),
        vec![branch("a", "never filled", vec![]), leaf("b")],
    ));
    assert_eq!(ui.app.lists[0].items[0].list_index, Some(1));
    ui.app.open_selected_item_list();
    assert_eq!(ui.app.current, 1);
    ui.app.close_current_list();
    assert_eq!(ui.app.current, 0);
    assert_eq!(ui.app.lists[0].items[0].list_index, None);
    assert_eq!(ui.app.lists.len(), 2);
    assert!(ui.app.tree().items[0].list.is_none());
}

#[test]
fn add_creates_the_nested_list_on_demand() {
    let mut ui = UI::new(List::new(String::from("root"), vec![leaf("a"), leaf("b")]));
    ui.app.move_selection(Direction::Down);
    ui.app.add_list_item(String::from("new name"), String::from("new id"));

    assert_eq!(ui.app.lists.len(), 2);
    assert_eq!(ui.app.lists[0].items[0].list_index, None);
    assert_eq!(ui.app.lists[0].items[1].list_index, Some(1));
    let created = &ui.app.lists[1];
    assert_eq!(created.name, "b");
    assert_eq!(created.previous, Some(0));
    assert_eq!(created.selected, None);
    assert_eq!(created.items.len(), 1);
    assert_eq!(created.items[0].id, "new id");
    assert_eq!(created.items[0].name, "new name");
    assert_eq!(created.items[0].list_index, None);
    assert_eq!(ui.app.current, 0);
    assert_eq!(ui.app.depth, 0);
}

#[test]
fn add_appends_to_a_nested_list_that_exists() {
    let mut ui = UI::new(sample());
    ui.app.add_list_item(String::from("n1"), String::from("i1"));
    ui.app.add_list_item(String::from("n2"), String::from("i2"));
    assert_eq!(ui.app.lists.len(), 3);
    assert_eq!(names(&ui.app.lists[1]), vec!["item 1 for second list", "n1", "n2"]);
    assert_eq!(ui.app.lists[1].items[2].id, "i2");
    assert_eq!(ui.app.lists[1].selected, Some(0));
}

#[test]
fn add_without_selection_changes_nothing() {
    let mut ui = UI::new(sample());
    ui.app.clear_selection();
    ui.app.add_list_item(String::from("n"), String::from("i"));
    assert_eq!(ui.app.lists.len(), 3);
    assert_eq!(ui.app.lists[1].items.len(), 1);
    assert_eq!(shape(&ui.app.tree()), shape(&sample()));
}

#[test]
fn delete_removes_the_selected_item() {
    let mut ui = UI::new(sample());
    ui.app.move_selection(Direction::Down);
    ui.app.delete_selected_item();
    assert_eq!(names(&ui.app.lists[0]), vec!["item 1 for first list"]);
    assert_eq!(ui.app.lists[0].selected, Some(0));
    assert_eq!(ui.app.current, 0);
}

#[test]
fn delete_orphans_the_nested_list_of_the_item() {
    let mut ui = UI::new(sample());
    ui.app.delete_selected_item();
    assert_eq!(names(&ui.app.lists[0]), vec!["item 2 for first list"]);
    assert_eq!(ui.app.lists.len(), 3);
    assert_eq!(ui.app.lists[1].name, "second list");
    let tree = ui.app.tree();
    assert_eq!(tree.items.len(), 1);
    assert!(tree.items[0].list.is_none());
}

#[test]
fn delete_without_selection_changes_nothing() {
    let mut ui = UI::new(sample());
    ui.app.clear_selection();
    ui.app.delete_selected_item();
    assert_eq!(ui.app.lists[0].items.len(), 2);
}

#[test]
fn deleting_the_last_item_of_the_root_leaves_it_empty() {
    let mut ui = UI::new(List::new(String::from("root"), vec![leaf("only")]));
    ui.app.delete_selected_item();
    assert!(ui.app.lists[0].items.is_empty());
    assert_eq!(ui.app.lists[0].selected, None);
    assert_eq!(ui.app.current, 0);
    assert_eq!(ui.app.depth, 0);
}

#[test]
fn deleting_the_only_item_closes_the_list() {
    let mut ui = UI::new(sample());
    ui.app.open_selected_item_list();
    ui.app.open_selected_item_list();
    assert_eq!(ui.app.current, 2);
    assert_eq!(ui.app.depth, 2);
    ui.app.delete_selected_item();
    assert_eq!(ui.app.current, 1);
    assert_eq!(ui.app.depth, 1);
    assert!(ui.app.lists[2].items.is_empty());
    assert_eq!(ui.app.lists[2].selected, None);
    assert_eq!(ui.app.lists[1].items[0].list_index, None);
}

#[test]
fn emptied_nested_list_is_not_saved() {
    let mut ui = UI::new(List::new(
        String::from("root"),
        vec![branch("A", "sub", vec![leaf("X"), leaf("Y")])],
    ));
    ui.app.open_selected_item_list();
    ui.app.delete_selected_item();
    assert_eq!(ui.app.current, 1);
    assert_eq!(names(&ui.app.lists[1]), vec!["Y"]);
    ui.app.delete_selected_item();
    assert_eq!(ui.app.current, 0);
    assert_eq!(ui.app.depth, 0);

    let saved = ui.app.tree();
    assert_eq!(saved.name, "root");
    assert_eq!(saved.items.len(), 1);
    assert_eq!(saved.items[0].id, "A");
    assert_eq!(saved.items[0].name, "A");
    assert!(saved.items[0].list.is_none());
}

#[test]
fn permissions_depend_on_the_depth() {
    let mut ui = gated();

    // depth 0: deleting is disabled, with or without a cursor
    ui.app.delete_selected_item();
    assert_eq!(ui.app.lists[0].items.len(), 2);
    ui.app.clear_selection();
    ui.app.delete_selected_item();
    assert_eq!(ui.app.lists[0].items.len(), 2);
    ui.app.move_selection(Direction::Down);
    assert_eq!(ui.app.lists[0].selected, Some(0));

    // depth 1: adding and deleting both work
    ui.app.open_selected_item_list();
    assert_eq!(ui.app.depth, 1);
    ui.app.add_list_item(String::from("added"), String::from("added"));
    assert_eq!(names(&ui.app.lists[2]), vec!["item 1 for third list", "added"]);

    // depth 2: adding is disabled
    ui.app.open_selected_item_list();
    assert_eq!(ui.app.depth, 2);
    ui.app.add_list_item(String::from("refused"), String::from("refused"));
    assert_eq!(ui.app.lists.len(), 3);
    assert_eq!(ui.app.lists[2].items[0].list_index, None);
    assert_eq!(ui.app.lists[2].items.len(), 2);

    // back at depth 1, deleting works
    ui.app.close_current_list();
    assert_eq!(ui.app.depth, 1);
    ui.app.delete_selected_item();
    assert!(ui.app.lists[1].items.is_empty());
    assert_eq!(ui.app.current, 0);
    assert_eq!(ui.app.depth, 0);
}

#[test]
fn set_page_options_replaces_the_configuration() {
    let mut ui = UI::new(sample());
    assert_eq!(ui.app.get_current_page_options().title, "0");
    ui.set_page_options(vec![PageOptions::new(String::from("top"))]);
    assert_eq!(ui.app.options.page_options.len(), 1);
    assert_eq!(ui.app.get_current_page_options().title, "top");
    ui.app.open_selected_item_list();
    assert_eq!(ui.app.get_current_page_options().title, "1");
    assert!(!ui.app.get_current_page_options().disable_add);
}

#[test]
fn stop_ends_the_session() {
    let mut ui = UI::new(sample());
    assert!(ui.app.start().is_ok());
    assert!(ui.app.is_running());
    ui.app.stop();
    assert!(!ui.app.is_running());
    assert!(!ui.app.running);
}
