use nn::{
    battery_symbol, charge_text, glyph_row, ids_on_monitor, sorted_ids, volume_symbol, volume_text,
    workspace_glyph, workspace_glyphs,
};

#[test]
fn volume_symbols() {
    assert_eq!(volume_symbol(true, 80), "\u{eb24}");
    assert_eq!(volume_symbol(false, 0), "\u{f026}");
    assert_eq!(volume_symbol(false, 1), "\u{f027}");
    assert_eq!(volume_symbol(false, 49), "\u{f027}");
    assert_eq!(volume_symbol(false, 50), "\u{f028}");
    assert_eq!(volume_symbol(false, 100), "\u{f028}");
}

#[test]
fn battery_symbols() {
    assert_eq!(battery_symbol(5, true), "\u{f089c}");
    assert_eq!(battery_symbol(95, true), "\u{f0085}");
    assert_eq!(battery_symbol(5, false), "\u{f007a}");
    assert_eq!(battery_symbol(55, false), "\u{f007f}");
    assert_eq!(battery_symbol(95, false), "\u{f0079}");
    // A full battery shows the full glyph even while charging.
    assert_eq!(battery_symbol(100, true), "\u{f0079}");
    // A reading above one hundred percent shows the alert glyph.
    assert_eq!(battery_symbol(101, false), "\u{f0083}");
}

#[test]
fn percentage_text() {
    assert_eq!(volume_text(0), "0");
    assert_eq!(volume_text(42), "42");
    assert_eq!(volume_text(100), "100");
    assert_eq!(charge_text(7), "7");
    assert_eq!(charge_text(255), "255");
}

#[test]
fn workspace_single_glyphs() {
    assert_eq!(workspace_glyph(1, false), Some("\u{f03a6}".to_string()));
    assert_eq!(workspace_glyph(1, true), Some("\u{f03a4}".to_string()));
    assert_eq!(workspace_glyph(10, false), Some("\u{f03a3}".to_string()));
    assert_eq!(workspace_glyph(10, true), Some("\u{f03a1}".to_string()));
    assert_eq!(workspace_glyph(11, true), None);
    assert_eq!(workspace_glyph(0, false), None);
}

#[test]
fn workspace_row_filters_sorts_and_maps() {
    let ws = vec![
        (3_i64, Some(1_i64)),
        (1, Some(1)),
        (2, Some(2)),
        (11, Some(1)),
        (4, None),
    ];
    let row = workspace_glyphs(&ws, 1, 3);
    assert_eq!(row, vec!["\u{f03a6}".to_string(), "\u{f03aa}".to_string()]);
}

#[test]
fn id_filter_and_sort() {
    let ws = vec![(9_i64, Some(7_i64)), (2, Some(7)), (2, Some(8)), (5, Some(7))];
    let ids = ids_on_monitor(&ws, 7);
    assert_eq!(ids, vec![9, 2, 5]);
    assert_eq!(sorted_ids(&ids), vec![2, 5, 9]);
    assert_eq!(sorted_ids(&vec![]), Vec::<i64>::new());
}

#[test]
fn glyph_row_keeps_order_and_drops_unknown_ids() {
    let ids = vec![1_i64, 2, 12, 10];
    let row = glyph_row(&ids, 2);
    assert_eq!(
        row,
        vec![
            "\u{f03a6}".to_string(),
            "\u{f03a7}".to_string(),
            "\u{f03a3}".to_string(),
        ]
    );
}
