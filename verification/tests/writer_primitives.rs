use query_render::literal::{int_to_text, quote};
use query_render::writer::{Formatter, Style};

#[test]
fn new_writer_is_empty_at_depth_zero() {
    let f = Formatter::new(&Style::default());
    assert_eq!(f.depth(), 0);
    assert_eq!(f.into_string(), "");
}

#[test]
fn write_appends_verbatim() {
    let mut f = Formatter::new(&Style::default());
    f.start_block();
    f.write("a b");
    f.write("");
    f.write("\tc\n d");
    assert_eq!(f.depth(), 1);
    assert_eq!(f.into_string(), "{\na b\tc\n d");
}

#[test]
fn endline_appends_a_line_feed() {
    let mut f = Formatter::new(&Style::default());
    f.endline();
    f.write("x");
    f.endline();
    assert_eq!(f.into_string(), "\nx\n");
}

#[test]
fn indent_is_width_times_depth() {
    for width in [0usize, 1, 2, 3, 8] {
        for depth in [0usize, 1, 2, 5] {
            let mut f = Formatter::new(&Style { indent_width: width });
            for _ in 0..depth {
                f.start_block();
            }
            f.indent();
            f.write("|");
            let text = f.into_string();
            let expected = format!("{}{}|", "{\n".repeat(depth), " ".repeat(width * depth));
            assert_eq!(text, expected);
        }
    }
}

#[test]
fn start_block_opens_and_goes_deeper() {
    let mut f = Formatter::new(&Style::default());
    f.write("head ");
    f.start_block();
    assert_eq!(f.depth(), 1);
    f.start_block();
    assert_eq!(f.depth(), 2);
    assert_eq!(f.into_string(), "head {\n{\n");
}

#[test]
fn end_block_closes_at_the_outer_depth() {
    let mut f = Formatter::new(&Style { indent_width: 3 });
    f.start_block();
    f.start_block();
    f.indent();
    f.write("x");
    f.endline();
    f.end_block();
    assert_eq!(f.depth(), 1);
    f.end_block();
    assert_eq!(f.depth(), 0);
    assert_eq!(f.into_string(), "{\n{\n      x\n   }\n}\n");
}

#[test]
fn blocks_nest_like_a_stack() {
    let mut f = Formatter::new(&Style::default());
    let mut trail = vec![];
    for round in 0..3 {
        f.start_block();
        trail.push(f.depth());
        f.start_block();
        trail.push(f.depth());
        f.end_block();
        trail.push(f.depth());
        if round == 1 {
            f.end_block();
            trail.push(f.depth());
            f.start_block();
            trail.push(f.depth());
        }
    }
    assert_eq!(trail, vec![1, 2, 1, 2, 3, 2, 1, 2, 3, 4, 3]);
    while f.depth() > 0 {
        f.end_block();
    }
    let text = f.into_string();
    assert_eq!(text.matches("{\n").count(), text.matches("}\n").count());
}

#[test]
fn decimal_text_of_integers() {
    assert_eq!(int_to_text(0), "0");
    assert_eq!(int_to_text(9), "9");
    assert_eq!(int_to_text(100), "100");
    assert_eq!(int_to_text(-100), "-100");
    assert_eq!(int_to_text(i64::MIN), "-9223372036854775808");
    assert_eq!(int_to_text(i64::MAX), "9223372036854775807");
    let mut n: i64 = 1;
    for _ in 0..18 {
        assert_eq!(int_to_text(n), n.to_string());
        assert_eq!(int_to_text(-n), (-n).to_string());
        assert_eq!(int_to_text(n - 1), (n - 1).to_string());
        n *= 10;
    }
}

#[test]
fn quoting_escapes_what_must_be_escaped() {
    assert_eq!(quote(""), "\"\"");
    assert_eq!(quote("a"), "\"a\"");
    assert_eq!(quote("\""), "\"\\\"\"");
    assert_eq!(quote("\\"), "\"\\\\\"");
    assert_eq!(quote("\n\r\t\u{8}\u{c}"), "\"\\n\\r\\t\\b\\f\"");
    assert_eq!(quote("\u{7f} \u{20}"), "\"\u{7f} \u{20}\"");
    for code in 0u32..0x20 {
        let c = char::from_u32(code).unwrap();
        let text = quote(&c.to_string());
        let expected = match c {
            '\n' => "\"\\n\"".to_string(),
            '\r' => "\"\\r\"".to_string(),
            '\t' => "\"\\t\"".to_string(),
            '\u{8}' => "\"\\b\"".to_string(),
            '\u{c}' => "\"\\f\"".to_string(),
            _ => format!("\"\\u{:04X}\"", code),
        };
        assert_eq!(text, expected);
    }
}
