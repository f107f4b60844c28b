use md2htm::MDS;

fn translate(text: &str) -> String {
    String::from_utf8(MDS::parse(text.as_bytes().to_vec())).unwrap()
}

#[test]
fn empty_input_gives_empty_output() {
    assert_eq!(MDS::parse(Vec::new()), Vec::<u8>::new());
}

#[test]
fn plain_text_is_one_paragraph() {
    assert_eq!(translate("hello"), "<p>hello</p>");
    assert_eq!(translate("x"), "<p>x</p>");
    assert_eq!(translate("a<b>c^d"), "<p>a<b>c^d</p>");
}

#[test]
fn plain_text_with_inner_spaces() {
    assert_eq!(translate("hello world"), "<p>hello world</p>");
}

#[test]
fn italic_text() {
    assert_eq!(translate("*a*"), "<p><i>a</i></p>");
}

#[test]
fn bold_text() {
    assert_eq!(translate("**a**"), "<p><b>a</b></p>");
}

#[test]
fn stray_star_in_bold_is_text() {
    assert_eq!(translate("**a*b**"), "<p><b>a*b</b></p>");
}

#[test]
fn underlined_text() {
    assert_eq!(translate("_a_"), "<p><u>a</u></p>");
}

#[test]
fn header_of_level_one() {
    assert_eq!(translate("# Title\n"), "<h1>Title</h1>\n");
}

#[test]
fn header_level_stops_at_six() {
    assert_eq!(translate("####### a\n"), "<h6>a</h6>\n");
    assert_eq!(translate("### a\n"), "<h3>a</h3>\n");
}

#[test]
fn link_in_paragraph() {
    assert_eq!(
        translate("[text](http://x)"),
        "<p><a href=\"http://x\">text</a></p>"
    );
}

#[test]
fn space_in_address_is_encoded() {
    assert_eq!(translate("[a](b c)"), "<p><a href=\"b%20c\">a</a></p>");
}

#[test]
fn broken_link_is_written_back() {
    assert_eq!(translate("[a]x"), "<p>[a]x</p>");
    assert_eq!(translate("[a]]"), "<p>[a]]</p>");
    assert_eq!(translate("a [b\nc"), "<p>a [b\nc</p>");
    assert_eq!(translate("[a](b\n"), "<p>[a](b\n</p>");
}

#[test]
fn image_in_paragraph() {
    assert_eq!(
        translate("![alt](http://x)"),
        "<p><img src=\"http://x\" alt=\"alt\"></p>"
    );
}

#[test]
fn lone_exclamation_is_text() {
    assert_eq!(translate("!a"), "<p>!a</p>");
    assert_eq!(translate("a!\n"), "<p>a!</p>\n");
}

#[test]
fn pending_exclamation_at_end_is_dropped() {
    assert_eq!(translate("a!"), "<p>a</p>");
}

#[test]
fn list_of_two_items() {
    assert_eq!(translate("- a\n- b\n"), "<ul><li>a</li>\n<li>b</li>\n</ul>");
}

#[test]
fn text_after_list_closes_it() {
    assert_eq!(translate("- a\nb"), "<ul><li>a</li>\n</ul><p>b</p>");
}

#[test]
fn dash_without_space_is_text() {
    assert_eq!(translate("-x"), "<p>-x</p>");
}

#[test]
fn horizontal_rule() {
    assert_eq!(translate("---\n"), "<hr>\n");
    assert_eq!(translate("--\n"), "<hr>\n");
}

#[test]
fn rule_after_list_closes_it() {
    assert_eq!(translate("- a\n--\n"), "<ul><li>a</li>\n</ul><hr>\n");
}

#[test]
fn unterminated_code_span_at_end() {
    assert_eq!(
        translate("`abc"),
        "<p><span class=\"code\"><code class=\"code\">abc</p>"
    );
    assert_eq!(translate("`"), "<p></p>");
}

#[test]
fn unterminated_link_at_end_is_dropped() {
    assert_eq!(translate("[abc"), "<p></p>");
}

#[test]
fn inline_code_span() {
    assert_eq!(
        translate("`x`"),
        "<p><span class=\"code\"><code class=\"code\">x</code></span></p>"
    );
}

#[test]
fn code_block() {
    assert_eq!(
        translate("```x```"),
        "<p><div class=\"code\"><code class=\"code\">x</code></div></p>"
    );
}

#[test]
fn line_break_in_code_span_closes_everything() {
    assert_eq!(
        translate("a `b\nc"),
        "<p>a <span class=\"code\"><code class=\"code\">b</code></span></p>\n<p>c</p>"
    );
}

#[test]
fn escaped_angle_brackets() {
    assert_eq!(translate("\\<"), "<p>&lt;</p>");
    assert_eq!(translate("a\\>"), "<p>a&gt;</p>");
    assert_eq!(translate("\\*a"), "<p>*a</p>");
}

#[test]
fn indented_block() {
    assert_eq!(
        translate("  a\n"),
        "<div class=\"intend\"><p>a</p></div>\n"
    );
}

#[test]
fn every_input_gives_output() {
    let mut seed: u64 = 0x2545_f491_4f6c_dd1d;
    let alphabet: &[u8] = b"ab !\\#[]()\n\r`*_-<>\0\xff\xc3";
    for round in 0..2000 {
        let len = round % 48;
        let mut bytes = Vec::with_capacity(len);
        for _ in 0..len {
            seed = seed.wrapping_mul(6364136223846793005).wrapping_add(1442695040888963407);
            let pick = (seed >> 33) as usize;
            if pick % 4 == 0 {
                bytes.push((pick >> 8) as u8);
            } else {
                bytes.push(alphabet[pick % alphabet.len()]);
            }
        }
        let out = MDS::parse(bytes.clone());
        if !bytes.is_empty() && bytes.iter().all(|b| b.is_ascii_alphanumeric()) {
            assert!(!out.is_empty());
        }
    }
}
