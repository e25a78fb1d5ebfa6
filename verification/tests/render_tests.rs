use arch_llm::render::{markdown_to_pango, parse_markdown, MarkdownBlock};

#[test]
fn plain_text_passes_through() {
    assert_eq!(markdown_to_pango("Hello!"), "Hello!");
    assert_eq!(markdown_to_pango("Hel"), "Hel");
}

#[test]
fn markup_characters_are_escaped() {
    assert_eq!(markdown_to_pango("a<b>&c"), "a&lt;b&gt;&amp;c");
    assert_eq!(
        markdown_to_pango("<script>alert('&')</script>"),
        "&lt;script&gt;alert(&#39;&amp;&#39;)&lt;/script&gt;"
    );
    assert_eq!(markdown_to_pango("say \"hi\""), "say &quot;hi&quot;");
}

#[test]
fn bold_italic_strike_pairs_match() {
    assert_eq!(markdown_to_pango("**bold** and *it*"), "<b>bold</b> and <i>it</i>");
    assert_eq!(markdown_to_pango("~~gone~~"), "<s>gone</s>");
}

#[test]
fn unterminated_styles_are_closed() {
    assert_eq!(markdown_to_pango("**abc"), "<b>abc</b>");
    assert_eq!(markdown_to_pango("*abc"), "<i>abc</i>");
    assert_eq!(markdown_to_pango("`abc"), "<tt>abc</tt>");
}

#[test]
fn inline_code_escapes_and_keeps_markers_literal() {
    assert_eq!(markdown_to_pango("`a<b`"), "<tt>a&lt;b</tt>");
    assert_eq!(markdown_to_pango("`**`"), "<tt>**</tt>");
}

#[test]
fn links_underline_text_and_drop_target() {
    assert_eq!(markdown_to_pango("[text](http://x)"), "<u>text</u>");
    assert_eq!(markdown_to_pango("see [here](a) now"), "see <u>here</u> now");
}

#[test]
fn headings_get_sized_spans() {
    assert_eq!(
        markdown_to_pango("# Title"),
        "<span font_size=\"xx-large\" weight=\"bold\">Title</span>"
    );
    assert_eq!(
        markdown_to_pango("## Title"),
        "<span font_size=\"x-large\" weight=\"bold\">Title</span>"
    );
    assert_eq!(
        markdown_to_pango("### Title"),
        "<span font_size=\"large\" weight=\"bold\">Title</span>"
    );
}

#[test]
fn quotes_and_list_items_are_styled() {
    assert_eq!(markdown_to_pango("> hi"), "<blockquote>hi</blockquote>");
    assert_eq!(markdown_to_pango("- item"), "  \u{2022} item");
    assert_eq!(markdown_to_pango("* item"), "  \u{2022} item");
}

#[test]
fn rule_becomes_fixed_separator() {
    let sep: String = std::iter::repeat('\u{2500}').take(19).collect();
    assert_eq!(markdown_to_pango("---"), sep);
}

#[test]
fn lines_join_with_newlines() {
    assert_eq!(markdown_to_pango("a\nb"), "a\nb");
    assert_eq!(
        markdown_to_pango("# Hi\ntext"),
        "<span font_size=\"xx-large\" weight=\"bold\">Hi</span>\ntext"
    );
}

#[test]
fn code_blocks_carry_language_and_raw_text() {
    let blocks = parse_markdown("```rust\nlet x = 1;\n```");
    assert_eq!(blocks.len(), 1);
    match &blocks[0] {
        MarkdownBlock::Code(lang, code) => {
            assert_eq!(lang, "rust");
            assert_eq!(code, "let x = 1;");
        }
        _ => panic!("expected a code block"),
    }
}

#[test]
fn code_block_text_is_not_escaped() {
    let blocks = parse_markdown("```\nif a < b && c > d {}\n```");
    match &blocks[0] {
        MarkdownBlock::Code(lang, code) => {
            assert_eq!(lang, "");
            assert_eq!(code, "if a < b && c > d {}");
        }
        _ => panic!("expected a code block"),
    }
}

#[test]
fn unterminated_fence_still_yields_a_block() {
    let blocks = parse_markdown("```py\nprint(1)");
    assert_eq!(blocks.len(), 1);
    match &blocks[0] {
        MarkdownBlock::Code(lang, code) => {
            assert_eq!(lang, "py");
            assert_eq!(code, "print(1)");
        }
        _ => panic!("expected a code block"),
    }
}

#[test]
fn text_and_code_blocks_alternate_in_order() {
    let blocks = parse_markdown("hi\n```py\nx\n```\nbye");
    assert_eq!(blocks.len(), 3);
    match &blocks[0] {
        MarkdownBlock::Text(t) => assert_eq!(t, "hi"),
        _ => panic!("expected text"),
    }
    match &blocks[1] {
        MarkdownBlock::Code(lang, code) => {
            assert_eq!(lang, "py");
            assert_eq!(code, "x");
        }
        _ => panic!("expected code"),
    }
    match &blocks[2] {
        MarkdownBlock::Text(t) => assert_eq!(t, "bye"),
        _ => panic!("expected text"),
    }
}

#[test]
fn pango_renders_code_as_escaped_monospace() {
    assert_eq!(markdown_to_pango("```\na<b\n```"), "\n<tt>a&lt;b</tt>\n");
}

#[test]
fn empty_input_renders_to_nothing() {
    assert_eq!(markdown_to_pango(""), "");
    assert!(parse_markdown("").is_empty());
}

/// Every prefix of a document — fences and style markers cut mid-way
/// included — renders without error, as re-running on the growing streamed
/// accumulator requires.
#[test]
fn growing_prefixes_always_render() {
    let doc = "# Title\nSome **bold** and `code`.\n```rust\nlet a = \"x<y\";\n```\n- item\n> quote\n[link](http://e)\n---\ndone";
    let mut boundaries: Vec<usize> = doc.char_indices().map(|(i, _)| i).collect();
    boundaries.push(doc.len());
    for &end in &boundaries {
        let prefix = &doc[..end];
        let blocks = parse_markdown(prefix);
        let pango = markdown_to_pango(prefix);
        for b in &blocks {
            if let MarkdownBlock::Text(t) = b {
                assert_no_stray_markup(t);
            }
        }
        assert_no_stray_markup(&pango);
    }
}

/// Checks the escaping guarantee on a rendered string: every `<` begins one
/// of the fixed style tags, every `>` ends one, and every `&` begins one of
/// the fixed entities.
fn assert_no_stray_markup(t: &str) {
    let tags = [
        "<b>", "</b>", "<i>", "</i>", "<s>", "</s>", "<u>", "</u>", "<tt>", "</tt>",
        "<blockquote>", "</blockquote>", "<span font_size=\"xx-large\" weight=\"bold\">",
        "<span font_size=\"x-large\" weight=\"bold\">",
        "<span font_size=\"large\" weight=\"bold\">", "</span>",
    ];
    let entities = ["&amp;", "&lt;", "&gt;", "&quot;", "&#39;"];
    for (i, c) in t.char_indices() {
        if c == '<' {
            assert!(
                tags.iter().any(|g| t[i..].starts_with(g)),
                "stray '<' in {:?} at {}",
                t,
                i
            );
        }
        if c == '>' {
            assert!(
                tags.iter().any(|g| i + 1 >= g.len() && t[..i + 1].ends_with(g)),
                "stray '>' in {:?} at {}",
                t,
                i
            );
        }
        if c == '&' {
            assert!(
                entities.iter().any(|e| t[i..].starts_with(e)),
                "stray '&' in {:?} at {}",
                t,
                i
            );
        }
    }
}

#[test]
fn hostile_text_renders_safely() {
    let nasty = "<span foreground=\"red\">x</span> & <b onload='y'>z</b>";
    assert_no_stray_markup(&markdown_to_pango(nasty));
    for b in parse_markdown(nasty) {
        if let MarkdownBlock::Text(t) = b {
            assert_no_stray_markup(&t);
        }
    }
}

#[test]
fn heading_needs_one_to_six_marks_and_a_space() {
    assert_eq!(markdown_to_pango("#x"), "#x");
    assert_eq!(markdown_to_pango("####### seven"), "####### seven");
    assert_eq!(
        markdown_to_pango("###### six"),
        "<span font_size=\"large\" weight=\"bold\">six</span>"
    );
}

#[test]
fn fence_language_is_trimmed() {
    let blocks = parse_markdown("```  rust  \ncode\n```");
    match &blocks[0] {
        MarkdownBlock::Code(lang, code) => {
            assert_eq!(lang, "rust");
            assert_eq!(code, "code");
        }
        _ => panic!("expected a code block"),
    }
}
