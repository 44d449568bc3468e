use tabledash::config::{Design, StyleElement, TableConfig, TableSource};
use tabledash::layout::{color_from_design, display_cells, even_share, parse_hex_color, truncate_lines, wrap_and_truncate, DesignPart, Rgb};

#[test]
fn hex_colors() {
    assert_eq!(parse_hex_color("#ffffff"), Ok(Rgb { r: 255, g: 255, b: 255 }));
    assert_eq!(parse_hex_color("12aB9f"), Ok(Rgb { r: 0x12, g: 0xab, b: 0x9f }));
    assert_eq!(parse_hex_color("##ff8800"), Ok(Rgb { r: 0xff, g: 0x88, b: 0 }));
    assert_eq!(parse_hex_color("+fffff"), Ok(Rgb { r: 0x0f, g: 0xff, b: 0xff }));
    assert_eq!(parse_hex_color("#fff"), Err(()));
    assert_eq!(parse_hex_color("#gggggg"), Err(()));
    assert_eq!(parse_hex_color("#ffffff0"), Err(()));
    assert_eq!(parse_hex_color(""), Err(()));
}

fn styled(color: &str) -> TableConfig {
    TableConfig {
        id: "t".to_string(),
        table_header: None,
        column_headers: vec![],
        column_ratios: vec![],
        max_cell_height: 1,
        source: TableSource::Static { data: vec![] },
        design: Some(Design {
            border: Some(StyleElement { color: Some(color.to_string()) }),
            header: None,
            column: Some(StyleElement { color: None }),
            cell: Some(StyleElement { color: Some("nope".to_string()) }),
        }),
    }
}

#[test]
fn design_colors() {
    let t = styled("#010203");
    assert_eq!(color_from_design(&t, DesignPart::Border), Some(Rgb { r: 1, g: 2, b: 3 }));
    assert_eq!(color_from_design(&t, DesignPart::Header), None);
    assert_eq!(color_from_design(&t, DesignPart::Column), None);
    assert_eq!(color_from_design(&t, DesignPart::Cell), None);
    let mut plain = styled("#000000");
    plain.design = None;
    assert_eq!(color_from_design(&plain, DesignPart::Border), None);
}

#[test]
fn truncation() {
    let lines: Vec<String> = vec!["one".into(), "two..".into(), "three".into()];
    assert_eq!(truncate_lines(&lines, 3), "one\ntwo..\nthree");
    assert_eq!(truncate_lines(&lines, 5), "one\ntwo..\nthree");
    assert_eq!(truncate_lines(&lines, 2), "one\ntwo...");
    assert_eq!(truncate_lines(&lines, 1), "one...");
    assert_eq!(truncate_lines(&lines, 0), "");
    assert_eq!(truncate_lines(&vec![], 2), "");
}

#[test]
fn wrapping_cells() {
    assert_eq!(wrap_and_truncate("short", 3), "short");
    assert_eq!(wrap_and_truncate("a\nb\nc\nd", 2), "a\nb...");
    let long = "aaaa bbbb cccc dddd eeee ffff gggg hhhh iiii jjjj kkkk";
    assert_eq!(wrap_and_truncate(long, 3), "aaaa bbbb cccc dddd eeee ffff\ngggg hhhh iiii jjjj kkkk");
    assert_eq!(wrap_and_truncate(long, 1), "aaaa bbbb cccc dddd eeee ffff...");
    assert_eq!(wrap_and_truncate("", 2), "");
}

#[test]
fn cells_for_display() {
    let rows = vec![vec!["x\ny".to_string(), "z".to_string()]];
    assert_eq!(display_cells(&rows, 1), vec![vec!["x...".to_string(), "z".to_string()]]);
}

#[test]
fn shares() {
    assert_eq!(even_share(1), 100);
    assert_eq!(even_share(3), 33);
    assert_eq!(even_share(200), 0);
}

#[test]
fn line_endings() {
    assert_eq!(wrap_and_truncate("a\r\nb\n", 5), "a\nb");
    assert_eq!(wrap_and_truncate("one\ntwo\nthree\n", 2), "one\ntwo...");
    assert_eq!(wrap_and_truncate("\n", 3), "");
}
