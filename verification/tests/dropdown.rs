use kagari_widgets::dropdown::{
    chevron, combobox_key, dropdown_click, dropdown_key, trigger_text, filter_visible, first_visible, selected_index, selected_label, trigger_opens,
};
use kagari_widgets::control::ColorRole;
use kagari_widgets::keys::Key;

fn opts() -> Vec<(u32, String)> {
    vec![(1, "Apple".to_string()), (2, "Banana".to_string()), (3, "Cherry".to_string())]
}

#[test]
fn dropdown_should_select_option() {
    let opts = opts();
    let mut value = 1u32;
    // The panel opens with the highlight on the selected option; ArrowDown → Banana, Enter.
    let mut hl = selected_index(&opts, &value).unwrap_or(0);
    hl = dropdown_key(hl, opts.len(), Key::ArrowDown, false).highlight;
    let out = dropdown_key(hl, opts.len(), Key::Enter, false);
    if let Some(i) = out.choose {
        value = opts[i].0;
    }
    assert_eq!(value, 2, "ArrowDown+Enter selects Banana");
    assert!(out.close);
}

#[test]
fn dropdown_esc_should_dismiss() {
    let out = dropdown_key(0, 3, Key::Escape, false);
    assert!(out.close, "Esc dismisses the dropdown");
    assert!(out.choose.is_none());
}

#[test]
fn dropdown_trigger_key_should_open() {
    assert!(trigger_opens(Key::ArrowDown, false), "ArrowDown on the trigger opens the dropdown");
    assert!(trigger_opens(Key::Space, false));
    assert!(!trigger_opens(Key::Space, true));
    assert!(!trigger_opens(Key::Escape, false));
}

#[test]
fn combobox_filter_should_narrow_options() {
    assert_eq!(filter_visible(&opts(), "an"), vec![1], "typing 'an' narrows the list to Banana");
}

#[test]
fn combobox_should_select_filtered_option() {
    let opts = opts();
    let visible = filter_visible(&opts, "c");
    let hl = first_visible(&visible);
    let out = combobox_key(&visible, opts.len(), hl, true, Key::Enter, false);
    assert_eq!(out.choose.map(|i| opts[i].0), Some(3), "filtering to 'c' then Enter selects Cherry");
    assert!(!out.open);
}

#[test]
fn combobox_open_should_show_all_options() {
    assert_eq!(filter_visible(&opts(), ""), vec![0, 1, 2]);
}

#[test]
fn combobox_arrow_should_keep_filter_and_navigate() {
    let opts = opts();
    let visible = filter_visible(&opts, "a");
    assert_eq!(visible.len(), 2, "filter 'a' narrows to Apple + Banana");
    let hl = first_visible(&visible);
    let out = combobox_key(&visible, opts.len(), hl, true, Key::ArrowDown, false);
    assert!(out.open);
    let out = combobox_key(&visible, opts.len(), out.highlight, out.open, Key::Enter, false);
    assert_eq!(out.choose.map(|i| opts[i].0), Some(2), "Enter selects the highlighted second match (Banana)");
}

#[test]
fn selected_label_falls_back_to_empty() {
    assert_eq!(selected_label(&opts(), &3), "Cherry");
    assert_eq!(selected_label(&opts(), &9), "");
    assert_eq!(selected_index(&opts(), &9), None);
    // A filter is case-insensitive and matches anywhere in the label.
    assert_eq!(filter_visible(&opts(), "ERR"), vec![2]);
    assert_eq!(filter_visible(&opts(), "zz"), Vec::<usize>::new());
    // Enter on a highlight that the filter hides chooses nothing.
    let out = combobox_key(&vec![1], 3, 0, true, Key::Enter, false);
    assert!(out.choose.is_none() && out.open);
    assert_eq!(dropdown_key(5, 3, Key::ArrowDown, false).highlight, 0, "an out-of-range highlight jumps to the first");
}

#[test]
fn dropdown_click_should_select_option() {
    let opts = opts();
    let mut value = 1u32;
    let hl = selected_index(&opts, &value).unwrap_or(0);
    // The panel's rows are [Apple, Banana, Cherry]; Cherry is row 2.
    let out = dropdown_click(hl, opts.len(), 2);
    if let Some(i) = out.choose {
        value = opts[i].0;
    }
    assert_eq!(value, 3, "clicking the Cherry row selects it");
    assert!(out.close);
    assert!(!dropdown_click(hl, opts.len(), 3).close, "no row under the pointer");
}

#[test]
fn dropdown_trigger_shows_label_or_placeholder() {
    let ph = "Pick one".to_string();
    assert_eq!(trigger_text(&"Banana".to_string(), &ph, false), ("Banana".to_string(), ColorRole::Text));
    assert_eq!(trigger_text(&String::new(), &ph, false), ("Pick one".to_string(), ColorRole::TextMuted));
    assert_eq!(trigger_text(&"Banana".to_string(), &ph, true), ("Banana".to_string(), ColorRole::TextMuted));
    assert_eq!(chevron(true), '\u{25B4}');
    assert_eq!(chevron(false), '\u{25BE}');
}

#[test]
fn combobox_rows_narrow_as_you_type() {
    let opts = vec![
        (1u32, "Apple".to_string()),
        (2, "Apricot".to_string()),
        (3, "Banana".to_string()),
        (4, "Grape".to_string()),
    ];
    let a = filter_visible(&opts, "ap");
    let b = filter_visible(&opts, "apr");
    assert_eq!(a, vec![0, 1, 3]);
    assert_eq!(b, vec![1]);
    assert!(b.iter().all(|i| a.contains(i)), "typing more only removes rows");
    assert_eq!(filter_visible(&opts, ""), vec![0, 1, 2, 3]);
}
