use pinpoint::{
    content, header, option, parse_deck, settings, slide, slides, whitespace_or_comment,
    ParseError, Slide, SlideDeck,
};

#[test]
fn test_whitespace_or_comment() {
    assert_eq!(whitespace_or_comment(""), Ok(("", "")));
    assert_eq!(whitespace_or_comment(" "), Ok(("", "")));
    assert_eq!(whitespace_or_comment("    "), Ok(("", "")));
    assert_eq!(whitespace_or_comment(" # hmm\n"), Ok(("", "")));
    assert_eq!(whitespace_or_comment("# hmm\n"), Ok(("", "")));
    assert_eq!(whitespace_or_comment("\n\n"), Ok(("", "")));
}

#[test]
fn test_settings() {
    assert_eq!(settings(""), Ok(("", vec![])));
}

#[test]
fn header_test() {
    assert_eq!(header("-\n"), Ok(("", vec![])));
    assert_eq!(header("--\n"), Ok(("", vec![])));
    assert_eq!(header("---------\n"), Ok(("", vec![])));
    assert_eq!(header("-- [a]\n"), Ok(("", vec!["a".to_string()])));
    assert_eq!(
        header("-- [a]  [c]\n"),
        Ok(("", vec!["a".to_string(), "c".to_string()]))
    );
    assert_eq!(
        header("-- [a]  [c] # Plus a comment\n"),
        Ok(("", vec!["a".to_string(), "c".to_string()]))
    );
}

#[test]
fn content_test() {
    assert_eq!(
        content("stuff\nand\nthings\n--"),
        Ok(("--", "stuff\nand\nthings"))
    );
}

#[test]
fn slide_test() {
    assert_eq!(
        slide("--\n"),
        Ok((
            "",
            Slide {
                options: vec![],
                content: "".to_string()
            }
        ))
    );
    assert_eq!(
        slide("-- [a]\nthings and stuff"),
        Ok((
            "",
            Slide {
                options: vec!["a".to_string()],
                content: "things and stuff".to_string()
            }
        ))
    );
}

#[test]
fn deck_test() {
    assert_eq!(
        parse_deck(""),
        Ok((
            "",
            SlideDeck {
                global_options: vec![],
                slides: vec![]
            }
        ))
    );
    assert_eq!(
        parse_deck("--\nhello world"),
        Ok((
            "",
            SlideDeck {
                global_options: vec![],
                slides: vec![Slide {
                    options: vec![],
                    content: "hello world".to_string()
                }]
            }
        ))
    );
    assert_eq!(
        parse_deck("[a]\n--\nhello world"),
        Ok((
            "",
            SlideDeck {
                global_options: vec!["a".to_string()],
                slides: vec![Slide {
                    options: vec![],
                    content: "hello world".to_string()
                }]
            }
        ))
    );
    assert_eq!(
        parse_deck("[a]\n-- [b]\nhello world"),
        Ok((
            "",
            SlideDeck {
                global_options: vec!["a".to_string()],
                slides: vec![Slide {
                    options: vec!["b".to_string()],
                    content: "hello world".to_string()
                }]
            }
        ))
    );
    assert_eq!(
        parse_deck("[a]\n-- [b] [c] # fishies\nhello world\n-- [d]\nThis is dog\n"),
        Ok((
            "",
            SlideDeck {
                global_options: vec!["a".to_string()],
                slides: vec![
                    Slide {
                        options: vec!["b".to_string(), "c".to_string()],
                        content: "hello world".to_string()
                    },
                    Slide {
                        options: vec!["d".to_string()],
                        content: "This is dog\n".to_string()
                    }
                ]
            }
        ))
    );

    let example_deck = "# the 0th \"slide\" provides default styling for the presentation
[bottom]           # position of text
[slide-bg.jpg]     # default slide background
--- [black] [center] # override background and text position

A presentation

--------- # lines starting with hyphens separate slides

The format is meant to be <u>simple</u>

--- [ammo.jpg]  # override background

\u{2022} Bullet point lists through unicode
\u{2022} Evil, but sometimes needed
";

    assert_eq!(
        parse_deck(example_deck),
        Ok((
            "",
            SlideDeck {
                global_options: vec!["bottom".to_string(), "slide-bg.jpg".to_string()],
                slides: vec![
                    Slide {
                        options: vec!["black".to_string(), "center".to_string()],
                        content: "A presentation\n".to_string()
                    },
                    Slide {
                        options: vec![],
                        content: "The format is meant to be <u>simple</u>\n".to_string()
                    },
                    Slide {
                        options: vec!["ammo.jpg".to_string()],
                        content: "\u{2022} Bullet point lists through unicode\n\u{2022} Evil, but sometimes needed\n"
                            .to_string()
                    }
                ]
            }
        ))
    );
}

#[test]
fn test_parse_empty_deck() {
    let result = parse_deck("");
    assert!(result.is_ok());

    let (remaining, deck) = result.unwrap();
    assert_eq!(remaining, "");
    assert_eq!(deck.global_options.len(), 0);
    assert_eq!(deck.slides.len(), 0);
}

#[test]
fn test_parse_deck_with_only_global_options() {
    let content = "[option1]\n[option2]\n";
    let result = parse_deck(content);
    assert!(result.is_ok());

    let (remaining, deck) = result.unwrap();
    assert_eq!(remaining, "");
    assert_eq!(deck.global_options.len(), 2);
    assert_eq!(deck.slides.len(), 0);
}

#[test]
fn test_parse_deck_with_single_slide() {
    let content = "--\nSingle slide content";
    let result = parse_deck(content);
    assert!(result.is_ok());

    let (remaining, deck) = result.unwrap();
    assert_eq!(remaining, "");
    assert_eq!(deck.slides.len(), 1);
    assert_eq!(deck.slides[0].content, "Single slide content");
}

#[test]
fn option_reads_text_between_brackets() {
    assert_eq!(option("  [bg.jpg] rest"), Ok((" rest", "bg.jpg")));
    assert_eq!(option("x"), Err(ParseError::ExpectedOpenBracket));
    assert_eq!(option(""), Err(ParseError::ExpectedOpenBracket));
    assert_eq!(option("[never closed"), Err(ParseError::UnclosedBracket));
}

#[test]
fn header_and_slide_need_a_hyphen() {
    assert_eq!(header("abc\n"), Err(ParseError::ExpectedHyphen));
    assert_eq!(slide("abc"), Err(ParseError::ExpectedHyphen));
    assert_eq!(slides("abc"), Ok(("abc", vec![])));
}

#[test]
fn header_without_line_end_at_end_of_input() {
    assert_eq!(header("---"), Ok(("", vec![])));
    assert_eq!(
        slide("-- [a]"),
        Ok((
            "",
            Slide {
                options: vec!["a".to_string()],
                content: "".to_string()
            }
        ))
    );
}

#[test]
fn unclosed_option_in_header_falls_into_content() {
    let (rest, deck) = parse_deck("-- [a\nfoo").unwrap();
    assert_eq!(rest, "");
    assert_eq!(deck.slides.len(), 1);
    assert!(deck.slides[0].options.is_empty());
    assert_eq!(deck.slides[0].content, "[a\nfoo");
}

#[test]
fn comments_need_a_line_ending() {
    assert_eq!(whitespace_or_comment("# a\r\nx"), Ok(("x", "")));
    assert_eq!(whitespace_or_comment("# no end"), Ok(("# no end", "")));
    assert_eq!(whitespace_or_comment("# lone\rx\n"), Ok(("# lone\rx\n", "")));
}

#[test]
fn hyphen_line_inside_content_starts_a_slide() {
    let (_, deck) = parse_deck("--\none\n- two\n").unwrap();
    assert_eq!(deck.slides.len(), 2);
    assert_eq!(deck.slides[0].content, "one");
    assert_eq!(deck.slides[1].content, "two\n");
}

#[test]
fn text_before_first_header_is_left_over() {
    let (rest, deck) = parse_deck("hello\n--\nworld").unwrap();
    assert_eq!(rest, "hello\n--\nworld");
    assert!(deck.global_options.is_empty());
    assert!(deck.slides.is_empty());
}

#[test]
fn content_without_next_header_runs_to_end() {
    assert_eq!(content("a\nb\n"), Ok(("", "a\nb\n")));
    assert_eq!(content(""), Ok(("", "")));
}

#[test]
fn parsing_twice_gives_equal_decks() {
    let text = "[center]\n-- [black]\nHello\n-- [white]\n<b>World</b>";
    assert_eq!(parse_deck(text), parse_deck(text));
}
