use termtab::{ColumnLayout, Pos, Renderer, RowLayout};

#[test]
fn test_multi_layout() {
    let mut r = Renderer::new();
    let col0 = r.share_column(ColumnLayout::align(Pos::Right, '0'));
    let col1 = ColumnLayout::align(Pos::Right, '0');
    let col2 = ColumnLayout::fixed_width(5, '-');
    let col3 = ColumnLayout::fixed_width(5, ' ');

    let mut row1 = RowLayout::new();
    row1.push_column(col0);
    row1.set_separator("|".to_string());
    row1.push_column_layout(col1);
    row1.push_column_layout(col3);

    let mut row2 = RowLayout::new();
    row2.push_column(col0);
    row2.set_separator("|".to_string());
    row2.push_column_layout(col2);
    row2.push_column_layout(col3);

    let h1 = r.register_layout(row1);
    let h2 = r.register_layout(row2);

    r.write_to_layout(h1, &["123".to_string(), "hello".to_string(), "world".to_string()]);
    r.write_to_layout(h2, &["12345".to_string(), "does-it".to_string(), "work".to_string()]);
    r.write_to_layout(h1, &["1".to_string(), "longlong".to_string(), "a".to_string()]);

    let emit = r.flush();

    assert_eq!(emit.as_str(),
      "00123|000hello|world\n12345|does-| work\n00001|longlong|    a");
}

#[test]
fn test_multi_format() {
    let col1 = ColumnLayout::align(Pos::Right, '0');
    let col2 = ColumnLayout::fixed_width(5, '-');
    let col3 = ColumnLayout::fixed_width(5, ' ');
    let mut row1 = RowLayout::new();
    row1.set_separator("|".to_string());
    row1.push_column_layout(col1);
    row1.push_column_layout(col3);

    let mut row2 = RowLayout::new();
    row2.set_separator("|".to_string());
    row2.push_column_layout(col2);
    row2.push_column_layout(col3);

    let mut r = Renderer::new();
    let h1 = r.register_layout(row1);
    let h2 = r.register_layout(row2);

    r.write_to_layout(h1, &["hello".to_string(), "world".to_string()]);
    r.write_to_layout(h2, &["does-it".to_string(), "work".to_string()]);
    r.write_to_layout(h1, &["longlong".to_string(), "a".to_string()]);

    let emit = r.flush();

    assert_eq!(emit.as_str(),
      "000hello|world\ndoes-| work\nlonglong|    a");
}

#[test]
fn test_column_rendering() {
    let column = ColumnLayout::align(Pos::Left, ' ');

    {
        let mut buffer = String::new();
        column.render(0, 8, "meow", &mut buffer);
        assert_eq!(buffer.as_str(), "meow    ");
    }
}

#[test]
fn test_column_middle_pos() {
    let column = ColumnLayout::align(Pos::Middle, ' ');

    {
        let mut buffer = String::new();
        column.render(0, 8, "meow", &mut buffer);
        assert_eq!(buffer.as_str(), "  meow  ");
    }
}

#[test]
fn test_fixed_width_columns() {
    let col = ColumnLayout::fixed_width(5, ' ');
    let mut row = RowLayout::new();
    row.set_separator(" ".to_string());
    row.extend_column_layouts(&col.repeat(3));
    let mut renderer = Renderer::new();
    let handle = renderer.register_layout(row);
    renderer.write_to_layout(
        handle,
        &["123456".to_string(), "1".to_string(), "\x1b[93m12345\x1b[0m".to_string()]);
    renderer.write_to_layout(
        handle,
        &["1".to_string(), "123".to_string(), "".to_string()]);
    let output = renderer.flush();
    assert_eq!(output.as_str(),
        "12345     1 \x1b[93m12345\x1b[0m\n    1   123      ");
}

#[test]
fn test_rows_rendering() {
    let unbound_col = ColumnLayout::align(Pos::Left, ' ');
    let mut row = RowLayout::new();
    row.set_separator(", ".to_string());
    row.set_start_token("[".to_string());
    row.set_end_token("]".to_string());
    row.extend_column_layouts(&unbound_col.repeat(3));

    let mut renderer = Renderer::new();
    let handle = renderer.register_layout(row);

    renderer.write_to_layout(
        handle,
        &["sheep".to_string(), "bmw".to_string(), "malloc".to_string(),
    ]);

    let output = renderer.flush();

    assert_eq!(output.as_str(), "[sheep, bmw, malloc]");

    renderer.write_to_layout(
        handle,
        &["sheep".to_string(), "bmw".to_string(), "malloc".to_string()]);

    renderer.write_to_layout(
        handle,
        &["12345678".to_string(), "1".to_string(), "\x1b[93mmalloc\x1b[0m".to_string()]);

    let output = renderer.flush();

    assert_eq!(output.as_str(),
      "[sheep   , bmw, malloc]\n[12345678, 1  , \x1b[93mmalloc\x1b[0m]".to_string());
}
