use sabitori::declarative::{
    end_selection_drag, hover_changed, hover_with_link, input_delivery, invalidate_stale_selection, press_outcome,
    selected_piece, warn_unrouted_typing, BackdropBlur, FieldRegion, LaidOutText, PressRegion, TextSelection,
    UiCapture,
};
use sabitori::a11y::Role;
use sabitori::input::{Delivery, InputEventKind};
use sabitori::runtime_shared::{Cursor, HoverHit};
use sabitori::macos_blur::material_value;
use sabitori::scene_app;

fn sel(anchor: (usize, usize), head: (usize, usize)) -> TextSelection {
    TextSelection { anchor, head, anchor_content: String::new(), head_content: String::new() }
}

#[test]
fn selections_normalise_to_document_order() {
    assert_eq!(sel((1, 5), (0, 2)).range_normalized(), ((0, 2), (1, 5)));
    assert_eq!(sel((1, 2), (1, 5)).range_normalized(), ((1, 2), (1, 5)));
    assert_eq!(sel((1, 5), (1, 2)).range_normalized(), ((1, 2), (1, 5)));
    assert!(sel((3, 3), (3, 3)).is_empty());
    assert!(!sel((3, 3), (3, 4)).is_empty());
    let s = sel((0, 1), (0, 2));
    assert_eq!(s.clone().range_normalized(), s.range_normalized());
}

#[test]
fn a_selection_covers_the_texts_between_its_ends() {
    // first text from the start offset, middle texts whole, last text up to the end offset
    assert_eq!(selected_piece("hello", 0, false, (0, 1), (2, 3)), Some((1, 5)));
    assert_eq!(selected_piece("world", 1, false, (0, 1), (2, 3)), Some((0, 5)));
    assert_eq!(selected_piece("again", 2, false, (0, 1), (2, 3)), Some((0, 3)));
    assert_eq!(selected_piece("after", 3, false, (0, 1), (2, 3)), None);
    assert_eq!(selected_piece("hello", 1, true, (0, 1), (2, 3)), None, "no_select text is not copied");
    assert_eq!(selected_piece("hello", 0, false, (0, 2), (0, 2)), None);
    assert_eq!(selected_piece("hi", 0, false, (0, 1), (0, 40)), Some((1, 2)));
}

#[test]
fn offsets_inside_a_character_move_back_to_its_start() {
    // "予約" is two 3-byte characters
    assert_eq!(selected_piece("予約", 0, false, (0, 1), (0, 5)), Some((0, 3)));
    assert_eq!(selected_piece("予約", 0, false, (0, 1), (0, 2)), None);
    assert_eq!(selected_piece("予約", 0, false, (0, 1), (0, 6)), Some((0, 6)));
    assert_eq!(selected_piece("予約", 0, false, (0, 4), (0, 6)), Some((3, 6)));
}

#[test]
fn declared_delivery_matches_the_runtime() {
    for kind in [
        InputEventKind::PointerMoved,
        InputEventKind::PointerPressed,
        InputEventKind::PointerReleased,
        InputEventKind::PointerCancelled,
        InputEventKind::ImeEnabled,
        InputEventKind::ImePreedit,
        InputEventKind::ImeCommit,
        InputEventKind::KeyInput,
        InputEventKind::CharInput,
        InputEventKind::ModifiersChanged,
        InputEventKind::Paste,
    ] {
        assert_eq!(input_delivery(kind), Delivery::ToApp);
        assert_eq!(scene_app::input_delivery(kind), Delivery::ToApp);
    }
    assert!(matches!(input_delivery(InputEventKind::PointerLeft), Delivery::NotProduced(_)));
    assert!(matches!(scene_app::input_delivery(InputEventKind::PointerLeft), Delivery::NotProduced(_)));
}

#[test]
fn blur_materials_use_the_appkit_values() {
    assert_eq!(material_value(BackdropBlur::Titlebar), 3);
    assert_eq!(material_value(BackdropBlur::Menu), 5);
    assert_eq!(material_value(BackdropBlur::Popover), 6);
    assert_eq!(material_value(BackdropBlur::Sidebar), 7);
    assert_eq!(material_value(BackdropBlur::UnderWindow), 9);
    assert_eq!(material_value(BackdropBlur::HeaderView), 10);
    assert_eq!(material_value(BackdropBlur::Hud), 12);
    assert_eq!(UiCapture::default(), UiCapture { wants_pointer: false, wants_keyboard: false });
}

fn laid(text_idx: usize, content: &str) -> LaidOutText {
    LaidOutText { text_idx, content: content.to_string() }
}

fn sel_over(anchor: (usize, usize), a: &str, head: (usize, usize), h: &str) -> TextSelection {
    TextSelection { anchor, head, anchor_content: a.to_string(), head_content: h.to_string() }
}

#[test]
fn a_selection_survives_while_its_texts_stay() {
    let texts = vec![laid(0, "hello"), laid(1, "world")];
    let mut selection = Some(sel_over((0, 1), "hello", (1, 3), "world"));
    let mut selecting = true;
    invalidate_stale_selection(&mut selection, &mut selecting, &texts);
    assert!(selection.is_some());
    assert!(selecting);
}

#[test]
fn a_selection_over_changed_text_is_dropped() {
    let texts = vec![laid(0, "hello"), laid(1, "other")];
    let mut selection = Some(sel_over((0, 1), "hello", (1, 3), "world"));
    let mut selecting = true;
    invalidate_stale_selection(&mut selection, &mut selecting, &texts);
    assert!(selection.is_none());
    assert!(!selecting);

    let mut selection = Some(sel_over((0, 1), "hello", (7, 3), "hello"));
    let mut selecting = true;
    invalidate_stale_selection(&mut selection, &mut selecting, &texts);
    assert!(selection.is_none(), "an end on a text that is gone");
    assert!(!selecting);

    let mut none: Option<TextSelection> = None;
    let mut selecting = true;
    invalidate_stale_selection(&mut none, &mut selecting, &texts);
    assert!(none.is_none());
    assert!(selecting, "no selection, nothing to end");
}

#[test]
fn releasing_a_plain_click_drops_the_empty_selection() {
    let mut selection = Some(sel_over((2, 4), "x", (2, 4), "x"));
    let mut selecting = true;
    end_selection_drag(&mut selection, &mut selecting);
    assert!(selection.is_none());
    assert!(!selecting);

    let mut selection = Some(sel_over((2, 4), "x", (2, 6), "x"));
    let mut selecting = true;
    end_selection_drag(&mut selection, &mut selecting);
    assert_eq!(selection.map(|s| (s.anchor, s.head)), Some(((2, 4), (2, 6))));
    assert!(!selecting);
}

fn press_region(id: &str, interactive: bool, focusable: bool, clickable: bool) -> PressRegion {
    PressRegion { id: Some(id.to_string()), interactive, focusable, clickable, drag_data: None }
}

#[test]
fn a_press_focuses_and_clicks_the_frontmost_interactive_region() {
    let under = vec![press_region("cell", false, false, false), press_region("field", true, true, true)];
    let o = press_outcome(&under, false, true, None, &vec![]);
    assert_eq!(o.focused.as_deref(), Some("field"));
    assert_eq!(o.click.as_deref(), Some("field"));
    assert!(o.drag.is_none());
    assert!(o.selection.is_none() && !o.selecting);
}

#[test]
fn a_press_on_a_plain_button_drops_focus() {
    let under = vec![press_region("ok", true, false, true)];
    let o = press_outcome(&under, false, true, None, &vec![]);
    assert_eq!(o.focused, None);
    assert_eq!(o.click.as_deref(), Some("ok"));
    let o = press_outcome(&vec![], false, true, None, &vec![]);
    assert_eq!(o.focused, None);
    assert_eq!(o.click, None);
}

#[test]
fn a_press_on_text_starts_a_selection_unless_something_else_wins() {
    let texts = vec![laid(3, "本文")];
    let o = press_outcome(&vec![], false, true, Some((3, 3)), &texts);
    assert!(o.selecting);
    let sel = o.selection.expect("a selection starts on text");
    assert_eq!((sel.anchor, sel.head), ((3, 3), (3, 3)));
    assert_eq!(sel.anchor_content, "本文");
    assert_eq!(sel.head_content, "本文");

    let o = press_outcome(&vec![], true, true, Some((3, 3)), &texts);
    assert!(o.selection.is_none() && !o.selecting, "a link is followed instead");
    let o = press_outcome(&vec![], false, false, Some((3, 3)), &texts);
    assert!(o.selection.is_none() && !o.selecting, "selection is turned off");
    let mut dragged = press_region("card", true, false, true);
    dragged.drag_data = Some("card-7".to_string());
    let o = press_outcome(&vec![dragged], false, true, Some((3, 3)), &texts);
    assert_eq!(o.drag, Some(("card-7".to_string(), Some("card".to_string()))));
    assert!(o.selection.is_none() && !o.selecting, "a drag wins over selection");
    let o = press_outcome(&vec![], false, true, Some((9, 0)), &texts);
    assert_eq!(o.selection.map(|s| s.anchor_content), Some(String::new()), "unknown text, empty snapshot");
}

fn hover(id: Option<&str>, tip: Option<&str>, cursor: Option<Cursor>) -> HoverHit {
    HoverHit { hovered_id: id.map(|s| s.to_string()), tooltip: tip.map(|s| s.to_string()), cursor }
}

#[test]
fn a_link_in_body_text_takes_over_the_hover() {
    let h = hover_with_link(hover(Some("para"), Some("段落"), Some(Cursor::Text)), Some(("link-1".to_string(), Some("https://example.com".to_string()))));
    assert_eq!(h.hovered_id.as_deref(), Some("link-1"));
    assert_eq!(h.tooltip.as_deref(), Some("https://example.com"));
    assert_eq!(h.cursor, Some(Cursor::Pointer));

    let h = hover_with_link(hover(Some("para"), Some("段落"), None), Some(("link-1".to_string(), None)));
    assert_eq!(h.tooltip.as_deref(), Some("段落"), "without a preview the region's tooltip stays");

    let h = hover_with_link(hover(Some("para"), None, Some(Cursor::Text)), None);
    assert_eq!(h.hovered_id.as_deref(), Some("para"));
    assert_eq!(h.cursor, Some(Cursor::Text));
}

#[test]
fn the_app_hears_only_of_real_hover_changes() {
    assert!(!hover_changed(&Some("a".to_string()), &Some("a".to_string())));
    assert!(hover_changed(&Some("a".to_string()), &Some("b".to_string())));
    assert!(hover_changed(&None, &Some("b".to_string())));
    assert!(hover_changed(&Some("a".to_string()), &None));
    assert!(!hover_changed(&None, &None));
}

#[test]
fn typing_into_an_unwired_text_field_is_named_once() {
    let regions = vec![
        FieldRegion { id: Some("ok".to_string()), role: Some(Role::Button) },
        FieldRegion { id: Some("name".to_string()), role: Some(Role::TextInput) },
        FieldRegion { id: Some("memo".to_string()), role: Some(Role::TextArea) },
    ];
    let mut warned = Vec::new();
    assert!(warn_unrouted_typing(Some("name"), &regions, &mut warned));
    assert!(!warn_unrouted_typing(Some("name"), &regions, &mut warned), "once per field");
    assert!(!warn_unrouted_typing(Some("ok"), &regions, &mut warned), "a button may ignore keys");
    assert!(!warn_unrouted_typing(None, &regions, &mut warned));
    assert!(warn_unrouted_typing(Some("memo"), &regions, &mut warned));
    assert_eq!(warned, vec!["name".to_string(), "memo".to_string()]);
}
