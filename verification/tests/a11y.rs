use sabitori::a11y::{
    ax_role, join_texts, region_node, request_for, requests_for, tree_update, A11yNode, A11yRegion, A11yTree, AxAction, AxRole,
    LooseText, Request, Role, ROOT, TEXT_ID_BASE,
};

fn region(element_index: usize, id: Option<&str>) -> A11yRegion {
    A11yRegion {
        element_index,
        id: id.map(|s| s.to_string()),
        role: None,
        label: None,
        heading_level: None,
        focusable: false,
        has_click_handler: false,
        clickable: false,
        disabled: false,
        texts: Vec::new(),
    }
}

fn button(element_index: usize, id: &str, text: &str) -> A11yRegion {
    let mut r = region(element_index, Some(id));
    r.role = Some(Role::Button);
    r.focusable = true;
    r.has_click_handler = true;
    r.clickable = true;
    r.texts = vec![text.to_string()];
    r
}

fn loose(element_index: usize, content: &str) -> LooseText {
    LooseText { element_index, content: content.to_string() }
}

fn node_of<'a>(t: &'a A11yTree, label: &str) -> Option<&'a A11yNode> {
    t.nodes.iter().find(|n| n.label.as_deref() == Some(label))
}

fn root_of(t: &A11yTree) -> &A11yNode {
    t.nodes.last().expect("no root")
}

fn labels_in_order(t: &A11yTree) -> Vec<String> {
    root_of(t)
        .children
        .iter()
        .filter_map(|id| t.nodes.iter().find(|n| n.id == *id).and_then(|n| n.label.clone()))
        .collect()
}

fn update_of(regions: Vec<A11yRegion>, texts: Vec<LooseText>, focused: Option<&str>) -> A11yTree {
    tree_update(&regions, &texts, "テスト", focused)
}

#[test]
fn a_button_announces_its_role_and_its_own_text() {
    let t = update_of(vec![button(1, "save", "保存")], vec![], None);
    let n = node_of(&t, "保存").expect("the button is missing");
    assert_eq!(n.role, AxRole::Button);
    assert!(n.click, "it does not offer click");
}

#[test]
fn an_explicit_label_wins_over_the_inner_text() {
    let mut close = region(1, Some("close"));
    close.role = Some(Role::Button);
    close.label = Some("閉じる".to_string());
    close.texts = vec!["×".to_string()];
    let t = update_of(vec![close], vec![], None);
    assert!(node_of(&t, "閉じる").is_some());
    assert!(node_of(&t, "×").is_none(), "the drawn text became the name");
}

#[test]
fn body_text_is_part_of_the_tree() {
    let t = update_of(vec![], vec![loose(1, "予約が 3 件あります"), loose(2, "本日分")], None);
    assert!(node_of(&t, "予約が 3 件あります").is_some());
    assert!(node_of(&t, "本日分").is_some());
}

#[test]
fn nodes_are_listed_in_document_order() {
    // hit regions come front to back, the reverse of the written order
    let regions = vec![button(5, "c", "3 番目"), button(3, "b", "2 番目"), button(1, "a", "1 番目")];
    let t = update_of(regions, vec![], None);
    assert_eq!(labels_in_order(&t), vec!["1 番目", "2 番目", "3 番目"]);
}

#[test]
fn the_focused_element_is_reported_as_focus() {
    let mut name = region(1, Some("name"));
    name.focusable = true;
    name.role = Some(Role::TextInput);
    let mut memo = region(2, Some("memo"));
    memo.focusable = true;
    memo.role = Some(Role::TextInput);
    let regions = vec![name, memo];
    let t = tree_update(&regions, &vec![], "テスト", Some("memo"));
    let focused_element_id = t.ids.iter().find(|(n, _)| *n == t.focus).map(|(_, s)| s.as_str());
    assert_eq!(focused_element_id, Some("memo"));

    let t = tree_update(&regions, &vec![], "テスト", None);
    assert_eq!(t.focus, ROOT);
}

#[test]
fn a_disabled_button_does_not_offer_click() {
    let mut save = button(1, "save", "保存");
    save.disabled = true;
    let t = update_of(vec![save], vec![], None);
    let n = node_of(&t, "保存").expect("the button vanished");
    assert!(n.disabled, "it does not say it is disabled");
    assert!(!n.click);
}

#[test]
fn plain_layout_boxes_are_left_out() {
    let t = update_of(vec![region(1, Some("wrapper")), region(2, Some("inner"))], vec![], None);
    assert_eq!(t.nodes.len(), 1, "plain boxes were listed");
}

#[test]
fn a_heading_carries_its_level() {
    let mut h = region(1, Some("h"));
    h.role = Some(Role::Heading);
    h.heading_level = Some(2);
    h.texts = vec!["車両一覧".to_string()];
    let t = update_of(vec![h], vec![], None);
    let n = node_of(&t, "車両一覧").expect("the heading is missing");
    assert_eq!(n.role, AxRole::Heading);
    assert_eq!(n.level, Some(1), "level two counts as one from zero");
}

#[test]
fn body_text_keeps_its_place_between_controls() {
    let mut h = region(1, Some("h"));
    h.role = Some(Role::Heading);
    h.heading_level = Some(2);
    h.texts = vec!["車両一覧".to_string()];
    let regions = vec![button(3, "add", "追加"), h];
    let texts = vec![loose(2, "3 件あります"), loose(5, "最終更新 10:30")];
    let t = update_of(regions, texts, None);
    assert_eq!(labels_in_order(&t), vec!["車両一覧", "3 件あります", "追加", "最終更新 10:30"]);
}

#[test]
fn two_regions_that_share_a_number_do_not_take_the_window_down() {
    let regions = vec![button(1, "save", "保存"), button(1, "save", "保存")];
    let t = update_of(regions, vec![], None);
    let kids: Vec<u64> = root_of(&t).children.clone();
    let mut uniq = kids.clone();
    uniq.sort();
    uniq.dedup();
    assert_eq!(kids.len(), uniq.len(), "the same child was listed twice");
}

#[test]
fn the_root_is_the_titled_window_and_comes_last() {
    let t = update_of(vec![button(1, "save", "保存")], vec![loose(3, "本文")], None);
    let root = root_of(&t);
    assert_eq!(root.id, ROOT);
    assert_eq!(root.role, AxRole::Window);
    assert_eq!(root.label.as_deref(), Some("テスト"));
    assert_eq!(root.children.len(), t.nodes.len() - 1);
    assert_eq!(t.child_order, vec![1, 3]);
    assert_eq!(root.children, vec![2, TEXT_ID_BASE]);
}

#[test]
fn region_ids_are_element_numbers_plus_one_and_texts_count_from_the_base() {
    let t = update_of(vec![button(7, "x", "押す")], vec![loose(2, "a"), loose(9, "b")], None);
    assert_eq!(node_of(&t, "押す").unwrap().id, 8);
    assert_eq!(node_of(&t, "a").unwrap().id, TEXT_ID_BASE);
    assert_eq!(node_of(&t, "b").unwrap().id, TEXT_ID_BASE + 1);
    assert_eq!(t.ids, vec![(8, "x".to_string())]);
    let text = node_of(&t, "a").unwrap();
    assert_eq!(text.role, AxRole::Label);
    assert!(!text.click && !text.focus && !text.disabled);
}

#[test]
fn the_name_falls_back_to_the_texts_joined_by_spaces() {
    let mut r = region(1, None);
    r.has_click_handler = true;
    r.clickable = true;
    r.texts = vec!["予約".to_string(), "3".to_string(), "件".to_string()];
    let n = region_node(&r).expect("a clickable region is meaningful");
    assert_eq!(n.label.as_deref(), Some("予約 3 件"));
    assert_eq!(n.role, AxRole::Group);
    assert_eq!(n.id, 2);
    assert!(n.click);
    assert!(!n.focus);
}

#[test]
fn an_empty_name_is_no_name() {
    let mut r = region(4, None);
    r.focusable = true;
    let n = region_node(&r).expect("a focusable region is meaningful");
    assert_eq!(n.label, None);
    assert!(n.focus);
    assert_eq!(n.level, None);
}

#[test]
fn a_level_below_one_counts_as_the_first() {
    let mut r = region(0, None);
    r.role = Some(Role::Heading);
    r.heading_level = Some(0);
    assert_eq!(region_node(&r).unwrap().level, Some(0));
    r.heading_level = Some(6);
    assert_eq!(region_node(&r).unwrap().level, Some(5));
}

#[test]
fn a_box_with_only_an_empty_text_means_nothing() {
    let mut r = region(1, Some("box"));
    r.texts = vec![String::new()];
    assert!(region_node(&r).is_none());
}

#[test]
fn joined_texts_and_announced_roles() {
    assert_eq!(join_texts(&vec![]), "");
    assert_eq!(join_texts(&vec!["a".to_string()]), "a");
    assert_eq!(join_texts(&vec!["a".to_string(), "b c".to_string()]), "a b c");
    assert_eq!(ax_role(Role::TextArea), AxRole::MultilineTextInput);
    assert_eq!(ax_role(Role::Password), AxRole::PasswordInput);
    assert_eq!(ax_role(Role::Text), AxRole::Label);
    assert_eq!(ax_role(Role::Separator), AxRole::Splitter);
    assert_eq!(ax_role(Role::ProgressBar), AxRole::ProgressIndicator);
}

#[test]
fn the_last_focused_duplicate_wins_but_one_child_remains() {
    let mut first = button(1, "a", "一");
    first.focusable = true;
    let second = button(1, "b", "二");
    let t = tree_update(&vec![first, second], &vec![], "テスト", Some("b"));
    assert_eq!(t.focus, 2);
    assert_eq!(t.ids, vec![(2, "b".to_string())]);
    assert_eq!(root_of(&t).children, vec![2]);
    assert_eq!(node_of(&t, "一").unwrap().id, 2);
    assert!(node_of(&t, "二").is_none());
}

#[test]
fn requests_come_back_as_element_ids() {
    let t = update_of(vec![button(1, "save", "保存"), button(4, "quit", "終了")], vec![], None);
    assert_eq!(request_for(&t.ids, 2, AxAction::Click), Some(Request::Click("save".to_string())));
    assert_eq!(request_for(&t.ids, 5, AxAction::Focus), Some(Request::Focus("quit".to_string())));
    assert_eq!(request_for(&t.ids, 5, AxAction::Other), None);
    assert_eq!(request_for(&t.ids, 3, AxAction::Click), None, "no element behind that node");
    assert_eq!(request_for(&t.ids, ROOT, AxAction::Click), None);
}

#[test]
fn queued_requests_keep_their_order_and_drop_strays() {
    let ids = vec![(2, "save".to_string()), (5, "quit".to_string())];
    let raw = vec![(5, AxAction::Focus), (9, AxAction::Click), (2, AxAction::Other), (2, AxAction::Click)];
    assert_eq!(
        requests_for(&ids, &raw),
        vec![Request::Focus("quit".to_string()), Request::Click("save".to_string())]
    );
    assert_eq!(requests_for(&ids, &vec![]), vec![]);
}
