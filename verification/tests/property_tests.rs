use termtab::{Column, ColumnLayout, Pos, Renderer, RowLayout, truncate_visible, visible_width};

#[test]
fn test_unbound_column_renders_batch_width() {
    let mut r = Renderer::new();
    let mut row = RowLayout::new();
    row.push_column_layout(ColumnLayout::align(Pos::Right, '0'));
    let h = r.register_layout(row);
    r.write_to_layout(h, &["1".to_string()]);
    r.write_to_layout(h, &["333".to_string()]);
    let out = r.flush();
    assert_eq!(out.as_str(), "001\n333");
}

#[test]
fn test_side_padding_count_exact() {
    let mut col = ColumnLayout::align(Pos::Right, '-');
    col.set_lower_bound(6);
    let mut buf = String::new();
    col.render(0, 2, "ab", &mut buf);
    assert_eq!(buf.as_str(), "----ab");

    let mut col = ColumnLayout::align(Pos::Left, '.');
    col.set_lower_bound(6);
    let mut buf = String::new();
    col.render(0, 2, "ab", &mut buf);
    assert_eq!(buf.as_str(), "ab....");
}

#[test]
fn test_middle_padding_parity_rule() {
    // six pads needed: three on each side, plus one extra because 6/2 is odd
    let column = ColumnLayout::align(Pos::Middle, ' ');
    let mut buf = String::new();
    column.render(0, 8, "ab", &mut buf);
    assert_eq!(buf.as_str(), "   ab    ");
}

#[test]
fn test_flush_empty_renderer() {
    let mut r = Renderer::new();
    assert_eq!(r.flush().as_str(), "");

    let mut row = RowLayout::new();
    row.push_column_layout(ColumnLayout::align(Pos::Left, ' '));
    let h = r.register_layout(row);
    assert_eq!(r.flush().as_str(), "");

    r.write_to_layout(h, &["x".to_string()]);
    assert_eq!(r.flush().as_str(), "x");
    assert_eq!(r.flush().as_str(), "");
}

#[test]
fn test_width_extrema_reset_after_flush() {
    let mut r = Renderer::new();
    let mut row = RowLayout::new();
    row.push_column_layout(ColumnLayout::align(Pos::Left, ' '));
    let h = r.register_layout(row);
    r.write_to_layout(h, &["wide5".to_string()]);
    r.write_to_layout(h, &["a".to_string()]);
    assert_eq!(r.flush().as_str(), "wide5\na    ");
    // no sticky width carry-over: the next batch is narrower
    r.write_to_layout(h, &["a".to_string()]);
    assert_eq!(r.flush().as_str(), "a");
}

#[test]
fn test_two_unbound_columns_scenario() {
    let mut r = Renderer::new();
    let mut row = RowLayout::new();
    row.set_separator(", ".to_string());
    row.set_start_token("[".to_string());
    row.set_end_token("]".to_string());
    row.push_column_layout(ColumnLayout::align(Pos::Left, ' '));
    row.push_column_layout(ColumnLayout::align(Pos::Left, ' '));
    let h = r.register_layout(row);

    r.write_to_layout(h, &["sheep".to_string(), "bmw".to_string()]);
    assert_eq!(r.flush().as_str(), "[sheep, bmw]");

    r.write_to_layout(h, &["sheep".to_string(), "bmw".to_string()]);
    r.write_to_layout(h, &["longword".to_string(), "x".to_string()]);
    assert_eq!(r.flush().as_str(), "[sheep   , bmw]\n[longword, x  ]");
}

#[test]
fn test_fixed_width_truncates_never_pads() {
    let mut r = Renderer::new();
    let mut row = RowLayout::new();
    row.push_column_layout(ColumnLayout::fixed_width(5, '-'));
    let h = r.register_layout(row);
    r.write_to_layout(h, &["1234567".to_string()]);
    let out = r.flush();
    assert_eq!(out.as_str(), "12345");
    assert!(!out.contains('-'));
}

#[test]
fn test_interleaved_write_order_is_kept() {
    let mut r = Renderer::new();
    let mut row_a = RowLayout::new();
    row_a.push_column_layout(ColumnLayout::align(Pos::Left, ' '));
    let mut row_b = RowLayout::new();
    row_b.set_start_token("<".to_string());
    row_b.set_end_token(">".to_string());
    row_b.push_column_layout(ColumnLayout::align(Pos::Left, ' '));
    let h1 = r.register_layout(row_a);
    let h2 = r.register_layout(row_b);
    r.write_to_layout(h1, &["A1".to_string()]);
    r.write_to_layout(h2, &["B1".to_string()]);
    r.write_to_layout(h1, &["A2".to_string()]);
    assert_eq!(r.flush().as_str(), "A1\n<B1>\nA2");
}

#[test]
fn test_shape_mismatch_write_is_dropped() {
    let mut r = Renderer::new();
    let mut row = RowLayout::new();
    row.push_column_layout(ColumnLayout::align(Pos::Left, ' '));
    row.push_column_layout(ColumnLayout::align(Pos::Left, ' '));
    let h = r.register_layout(row);
    // wrong arity: silently dropped
    r.write_to_layout(h, &["only-one".to_string()]);
    // unknown handle: silently dropped
    r.write_to_layout(7, &["a".to_string(), "b".to_string()]);
    assert_eq!(r.flush().as_str(), "");
    // a well-shaped write still goes through afterwards
    r.write_to_layout(h, &["a".to_string(), "b".to_string()]);
    assert_eq!(r.flush().as_str(), "ab");
}

#[test]
fn test_custom_newline_and_unused_frame() {
    let mut r = Renderer::new();
    r.set_newline("; ".to_string());
    r.set_begin("(".to_string());
    r.set_end(")".to_string());
    let mut row = RowLayout::new();
    row.push_column_layout(ColumnLayout::align(Pos::Left, ' '));
    let h = r.register_layout(row);
    r.write_to_layout(h, &["a".to_string()]);
    r.write_to_layout(h, &["b".to_string()]);
    // rows joined with the configured newline; begin/end do not enter the output
    assert_eq!(r.flush().as_str(), "a; b");
}

#[test]
fn test_truncation_keeps_escape_sequences() {
    let mut r = Renderer::new();
    let mut row = RowLayout::new();
    row.push_column_layout(ColumnLayout::fixed_width(5, ' '));
    let h = r.register_layout(row);
    r.write_to_layout(h, &["\x1b[93m1234567\x1b[0m".to_string()]);
    assert_eq!(r.flush().as_str(), "\x1b[93m12345\x1b[0m");
}

#[test]
fn test_with_cols_builds_independent_columns() {
    let mut r = Renderer::new();
    let row = RowLayout::with_cols::<3>(ColumnLayout::align(Pos::Left, ' '), ", ".to_string());
    let h = r.register_layout(row);
    r.write_to_layout(h, &["a".to_string(), "bb".to_string(), "ccc".to_string()]);
    r.write_to_layout(h, &["x".to_string(), "y".to_string(), "z".to_string()]);
    assert_eq!(r.flush().as_str(), "a, bb, ccc\nx, y , z  ");
}

#[test]
fn test_bound_setters() {
    let mut col = ColumnLayout::align(Pos::Left, ' ');
    col.set_upper_bound(3);
    col.set_pos(Pos::Right);
    col.set_pad_char('.');

    let mut buf = String::new();
    col.render(0, 6, "abcdef", &mut buf);
    assert_eq!(buf.as_str(), "abc");

    col.set_lower_bound(5);
    let mut buf = String::new();
    col.render(0, 6, "ab", &mut buf);
    assert_eq!(buf.as_str(), "...ab");

    col.eliminate_upper_bound();
    let mut buf = String::new();
    col.render(0, 6, "ab", &mut buf);
    assert_eq!(buf.as_str(), "....ab");
}

#[test]
fn test_visible_width_ignores_escapes() {
    assert_eq!(visible_width("hello"), 5);
    assert_eq!(visible_width(""), 0);
    assert_eq!(visible_width("\x1b[93m12345\x1b[0m"), 5);
    assert_eq!(visible_width("ab\x1b[3mcd"), 4);
    assert_eq!(visible_width("\x1b"), 0);
    assert_eq!(visible_width("\x1b[12"), 0);
}

#[test]
fn test_truncate_visible_counts_only_visible() {
    assert_eq!(truncate_visible("hello", 2), "he");
    assert_eq!(truncate_visible("abc", 10), "abc");
    assert_eq!(truncate_visible("", 0), "");
    assert_eq!(truncate_visible("\x1b[93m1234567\x1b[0m", 3), "\x1b[93m123\x1b[0m");
}

#[test]
fn test_column_cell_aggregation() {
    let mut col = Column::new(ColumnLayout::align(Pos::Right, '0'));
    // no observations yet: the batch maximum is zero, everything truncates away
    let mut buf = String::new();
    col.render("7", &mut buf);
    assert_eq!(buf.as_str(), "");
    col.observe(3);
    col.observe(1);
    let mut buf = String::new();
    col.render("7", &mut buf);
    assert_eq!(buf.as_str(), "007");
    col.reset();
    let mut buf = String::new();
    col.render("7", &mut buf);
    assert_eq!(buf.as_str(), "");
}
