use nltui::app::Direction;
use nltui::options::PageOptions;
use nltui::screen::cursor_for_width;
use nltui::session::Key;
use nltui::{Item, List, UI};

fn leaf(name: &str) -> Item {
    Item::new(name.to_string(), name.to_string(), None)
}

fn sample() -> UI {
    UI::new(List::new(
        String::from("first list"),
        vec![
            Item::new(
                String::from("one"),
                String::from("item one"),
                Some(List::new(String::from("second list"), vec![leaf("inner")])),
            ),
            leaf("item two"),
        ],
    ))
}

#[test]
fn title_joins_page_title_and_list_name() {
    let mut ui = sample();
    assert_eq!(ui.app.title(), "0: first list");
    ui.set_page_options(vec![PageOptions::new(String::from("Example1"))]);
    assert_eq!(ui.app.title(), "Example1: first list");
    ui.app.open_selected_item_list();
    assert_eq!(ui.app.title(), "1: second list");
}

#[test]
fn title_puts_the_notice_first() {
    let mut ui = sample();
    ui.set_page_options(vec![PageOptions::new(String::from("Example1"))]);
    ui.app.notify(Some(String::from("SAVED!")));
    assert_eq!(ui.app.title(), "SAVED! | Example1: first list");
    ui.app.notify(None);
    assert_eq!(ui.app.title(), "Example1: first list");
}

#[test]
fn add_menu_title_names_the_selected_item() {
    let mut ui = sample();
    assert_eq!(ui.app.add_menu_title(), "item one");
    ui.app.move_selection(Direction::Down);
    assert_eq!(ui.app.add_menu_title(), "item two");
    ui.app.clear_selection();
    assert_eq!(ui.app.add_menu_title(), "first list");
}

#[test]
fn usage_lists_every_enabled_operation() {
    let ui = sample();
    assert_eq!(
        ui.app.usage(),
        vec![
            "ctrl-c: exit",
            "W: save",
            "a: add items to selection",
            "e: edit selection",
            "d: delete selection",
        ]
    );
}

#[test]
fn usage_offers_the_way_back_below_the_root() {
    let mut ui = sample();
    ui.app.open_selected_item_list();
    assert_eq!(
        ui.app.usage(),
        vec![
            "ctrl-c: exit",
            "W: save",
            "b: back to previous page",
            "a: add items to selection",
            "e: edit selection",
            "d: delete selection",
        ]
    );
}

#[test]
fn usage_leaves_out_what_is_disabled() {
    let mut ui = sample();
    let mut options = PageOptions::new(String::from("t"));
    options.disable_save = true;
    options.disable_edit = true;
    ui.set_page_options(vec![options]);
    assert_eq!(
        ui.app.usage(),
        vec!["ctrl-c: exit", "a: add items to selection", "d: delete selection"]
    );

    let mut options = PageOptions::new(String::from("t"));
    options.disable_add = true;
    options.disable_delete = true;
    options.save_command_description = String::from("write to disk");
    ui.set_page_options(vec![options]);
    assert_eq!(ui.app.usage(), vec!["ctrl-c: exit", "W: write to disk", "e: edit selection"]);
}

#[test]
fn cursor_starts_in_column_four_of_row_four() {
    assert_eq!(cursor_for_width(0), (4, 4));
    assert_eq!(cursor_for_width(1), (5, 4));
    assert_eq!(cursor_for_width(10), (14, 4));
    assert_eq!(cursor_for_width(76), (80, 4));
}

#[test]
fn cursor_column_wraps_at_sixteen_bits() {
    assert_eq!(cursor_for_width(65531), (65535, 4));
    assert_eq!(cursor_for_width(65532), (0, 4));
    assert_eq!(cursor_for_width(65535), (3, 4));
    assert_eq!(cursor_for_width(65536), (4, 4));
    assert_eq!(cursor_for_width(65536 + 9), (13, 4));
}

#[test]
fn input_cursor_follows_the_displayed_width() {
    let mut ui = sample();
    assert_eq!(ui.app.start(), Ok(()));
    assert_eq!(ui.app.input_cursor(), (4, 4));
    ui.app.on_key(Key::Char('a'));
    ui.app.on_key(Key::Char('a'));
    ui.app.on_key(Key::Char('b'));
    assert_eq!(ui.app.input_cursor(), (6, 4));
    ui.app.on_key(Key::Char('日'));
    ui.app.on_key(Key::Char('本'));
    assert_eq!(ui.app.input, "ab日本");
    assert_eq!(ui.app.input_cursor(), (10, 4));
    ui.app.on_key(Key::Backspace);
    assert_eq!(ui.app.input_cursor(), (8, 4));
}
