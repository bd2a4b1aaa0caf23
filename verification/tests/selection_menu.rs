use roe_core::selection_menu::{holds_filter, MenuItem, SelectionMenu};

#[derive(Clone, Debug, PartialEq)]
struct TestItem {
    name: String,
}

impl MenuItem for TestItem {
    fn display(&self) -> vstd::seq::Seq<char> {
        unreachable!()
    }

    fn is_left(&self, _filter: vstd::seq::Seq<char>) -> bool {
        unreachable!()
    }

    fn display_text(&self) -> String {
        self.name.clone()
    }

    fn matches_filter(&self, filter: &str) -> bool {
        holds_filter(&self.name, filter)
    }
}

#[test]
fn test_selection_menu_basic() {
    let mut menu = SelectionMenu::new(3);
    let items = vec![
        TestItem {
            name: "apple".to_string(),
        },
        TestItem {
            name: "banana".to_string(),
        },
        TestItem {
            name: "cherry".to_string(),
        },
    ];

    menu.init_with_items(items);
    assert_eq!(menu.len(), 3);
    assert_eq!(menu.get_selected_item().unwrap().name, "apple");
}

#[test]
fn test_filtering() {
    let mut menu = SelectionMenu::new(3);
    let items = vec![
        TestItem {
            name: "apple".to_string(),
        },
        TestItem {
            name: "apricot".to_string(),
        },
        TestItem {
            name: "banana".to_string(),
        },
    ];

    menu.init_with_items(items);
    menu.add_filter_char('a');
    menu.add_filter_char('p');

    assert_eq!(menu.len(), 2); // apple and apricot
    assert_eq!(menu.get_selected_item().unwrap().name, "apple");
}

#[test]
fn selection_menu_test_navigation() {
    let mut menu = SelectionMenu::new(3);
    let items = vec![
        TestItem {
            name: "first".to_string(),
        },
        TestItem {
            name: "second".to_string(),
        },
        TestItem {
            name: "third".to_string(),
        },
    ];

    menu.init_with_items(items);

    // Move down
    assert!(menu.move_selection_down());
    assert_eq!(menu.get_selected_item().unwrap().name, "second");

    // Move up
    assert!(menu.move_selection_up());
    assert_eq!(menu.get_selected_item().unwrap().name, "first");

    // Can't move up from first
    assert!(!menu.move_selection_up());
    assert_eq!(menu.get_selected_item().unwrap().name, "first");
}

#[test]
fn cycling_through_all_items_leads_back() {
    let mut menu: SelectionMenu<TestItem> = SelectionMenu::default();
    assert_eq!((menu.selected_index, menu.scroll_offset), (0, 0));
    assert!(!menu.cycle_selection());
    let names = ["apple", "banana", "cherry"];
    menu.init_with_items(names.iter().map(|n| TestItem { name: n.to_string() }).collect());
    menu.move_selection_down();
    for expected in [2, 0, 1] {
        assert!(menu.cycle_selection());
        assert_eq!(menu.selected_index, expected);
        assert_eq!(menu.get_filtered_items().len(), 3);
    }
}

#[derive(Clone)]
struct Starting(&'static str);

impl MenuItem for Starting {
    fn display(&self) -> vstd::seq::Seq<char> {
        unreachable!()
    }

    fn is_left(&self, _filter: vstd::seq::Seq<char>) -> bool {
        unreachable!()
    }

    fn display_text(&self) -> String {
        self.0.to_string()
    }

    fn matches_filter(&self, filter: &str) -> bool {
        self.0.starts_with(filter)
    }
}

#[test]
fn items_can_have_a_filter_of_their_own() {
    let mut menu = SelectionMenu::new(3);
    menu.init_with_items(vec![Starting("one"), Starting("phone"), Starting("on")]);
    menu.add_filter_char('o');
    menu.add_filter_char('n');
    let left: Vec<&str> = menu.get_filtered_items().into_iter().map(|item| item.0).collect();
    assert_eq!(left, vec!["one", "on"]);
    assert!(holds_filter("Phone", "ON"));
}
