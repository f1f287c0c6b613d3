use pinpoint::{
    calculate_base_font_size, extract_quoted_value, get_background_color, get_background_image,
    get_background_scale, get_command, get_text_align, get_text_position, has_image_extension,
    has_no_markup, is_image_file, named_color, parse_color, parse_deck, parse_font_size,
    parse_pango_markup, resolve_deck, resolve_slide, BackgroundScale, BackgroundSpec, FontStyle,
    FontWeight, ParsedStyle, RenderColor, RenderDimensions, ResolveConfig, ResolvedSlide, Slide,
    TextAlign, TextDecoration, TextPosition, TextSpan,
};

fn opts(v: &[&str]) -> Vec<String> {
    v.iter().map(|s| s.to_string()).collect()
}

fn canvas() -> RenderDimensions {
    RenderDimensions {
        width: 1024,
        height: 768,
    }
}

#[test]
fn test_is_image_file() {
    assert!(is_image_file("background.png"));
    assert!(is_image_file("photo.jpg"));
    assert!(is_image_file("image.jpeg"));
    assert!(is_image_file("anim.gif"));
    assert!(is_image_file("PHOTO.PNG"));
    assert!(!is_image_file("center"));
    assert!(!is_image_file("bottom"));
}

#[test]
fn test_get_text_position() {
    assert_eq!(get_text_position(&["top".to_string()], &[]), TextPosition::Top);
    assert_eq!(get_text_position(&["center".to_string()], &[]), TextPosition::Center);
    assert_eq!(get_text_position(&["bottom".to_string()], &[]), TextPosition::Bottom);
    assert_eq!(get_text_position(&[], &["top".to_string()]), TextPosition::Top);
    assert_eq!(get_text_position(&[], &[]), TextPosition::Center);
}

#[test]
fn test_get_text_align() {
    assert_eq!(get_text_align(&["text-align=left".to_string()], &[]), TextAlign::Left);
    assert_eq!(get_text_align(&["text-align=center".to_string()], &[]), TextAlign::Center);
    assert_eq!(get_text_align(&["text-align=right".to_string()], &[]), TextAlign::Right);
    assert_eq!(get_text_align(&[], &[]), TextAlign::Left);
}

#[test]
fn test_get_background_scale() {
    assert_eq!(get_background_scale(&["fill".to_string()], &[]), BackgroundScale::Fill);
    assert_eq!(get_background_scale(&["fit".to_string()], &[]), BackgroundScale::Fit);
    assert_eq!(get_background_scale(&[], &[]), BackgroundScale::Fit);
}

#[test]
fn test_get_command() {
    assert_eq!(get_command(&["command=echo hello".to_string()], &[]), Some("echo hello".to_string()));
    assert_eq!(get_command(&[], &[]), None);
}

#[test]
fn test_has_no_markup() {
    assert!(has_no_markup(&["no-markup".to_string()], &[]));
    assert!(!has_no_markup(&["markup".to_string()], &[]));
    assert!(!has_no_markup(&[], &[]));
}

#[test]
fn test_parse_color() {
    assert!(parse_color("red").is_some());
    assert!(parse_color("blue").is_some());
    assert!(parse_color("unknown").is_none());
}

#[test]
fn test_parse_pango_markup_plain() {
    let segments = parse_pango_markup("Hello World");
    assert_eq!(segments.len(), 1);
    assert_eq!(segments[0].0, "Hello World");
}

#[test]
fn test_parse_pango_markup_bold() {
    let segments = parse_pango_markup("<b>bold</b>");
    assert_eq!(segments.len(), 1);
    assert_eq!(segments[0].0, "bold");
    assert!(segments[0].1.bold);
}

#[test]
fn test_parse_pango_markup_nested() {
    let segments = parse_pango_markup("normal <b>bold <i>both</i></b>");
    assert_eq!(segments.len(), 3);
    assert!(!segments[0].1.bold);
    assert!(segments[1].1.bold);
    assert!(!segments[1].1.italic);
    assert!(segments[2].1.bold);
    assert!(segments[2].1.italic);
}

#[test]
fn slide_option_outranks_global_option() {
    assert_eq!(
        get_text_position(&opts(&["bottom"]), &opts(&["top"])),
        TextPosition::Bottom
    );
    assert_eq!(
        get_text_position(&opts(&["note", "bottom-right"]), &opts(&["top", "left"])),
        TextPosition::BottomRight
    );
    assert_eq!(
        get_background_scale(&opts(&["stretch"]), &opts(&["fill"])),
        BackgroundScale::Stretch
    );
    assert_eq!(
        get_text_align(&opts(&["text-align=center"]), &opts(&["text-align=right"])),
        TextAlign::Center
    );
    assert_eq!(
        get_background_image(&opts(&["a.png"]), &opts(&["b.jpg"])),
        Some("a.png".to_string())
    );
    assert_eq!(
        get_background_color(&opts(&["Black"]), &opts(&["white"])),
        Some(RenderColor::rgb(0, 0, 0))
    );
    assert!(!has_no_markup(&opts(&["markup"]), &opts(&["no-markup"])));
    assert_eq!(
        get_command(&opts(&["command=a"]), &opts(&["command=b"])),
        Some("a".to_string())
    );
}

#[test]
fn global_options_apply_when_slide_names_none() {
    assert_eq!(get_text_position(&opts(&["x"]), &opts(&["top-left"])), TextPosition::TopLeft);
    assert_eq!(get_background_image(&opts(&[]), &opts(&["bg.GIF"])), Some("bg.GIF".to_string()));
    assert!(has_no_markup(&opts(&["other"]), &opts(&["no-markup"])));
    assert_eq!(get_background_color(&opts(&[]), &opts(&[])), None);
    assert_eq!(get_background_image(&opts(&["center"]), &opts(&[])), None);
}

#[test]
fn alignment_needs_a_known_value() {
    assert_eq!(
        get_text_align(&opts(&["text-align=justify"]), &opts(&["text-align=right"])),
        TextAlign::Right
    );
    assert_eq!(get_text_align(&opts(&["text-align=justify"]), &opts(&[])), TextAlign::Left);
}

#[test]
fn colors_are_named_in_any_case() {
    assert_eq!(parse_color("RED"), Some(RenderColor::rgb(1000, 0, 0)));
    assert_eq!(parse_color("Orange"), Some(RenderColor::rgb(1000, 500, 0)));
    assert_eq!(parse_color("purple"), Some(RenderColor::rgb(500, 0, 500)));
    assert_eq!(named_color("yellow"), Some(RenderColor::rgb(1000, 1000, 0)));
    assert_eq!(named_color("Green"), None);
    assert_eq!(named_color("green"), Some(RenderColor::rgb(0, 1000, 0)));
}

#[test]
fn image_extension_is_checked_on_lowercase_text() {
    assert!(has_image_extension("x.jpeg"));
    assert!(!has_image_extension("x.JPEG"));
    assert!(is_image_file("x.JPEG"));
    assert!(!is_image_file("png"));
}

#[test]
fn unmatched_close_tag_pops_anyway() {
    let segments = parse_pango_markup("<b>x</weird>y");
    assert_eq!(segments.len(), 2);
    assert_eq!(segments[0].0, "x");
    assert!(segments[0].1.bold);
    assert_eq!(segments[1].0, "y");
    assert!(!segments[1].1.bold);
}

#[test]
fn nested_runs_keep_their_text() {
    let segments = parse_pango_markup("normal <b>bold <i>both</i></b>");
    assert_eq!(segments[0].0, "normal ");
    assert_eq!(segments[1].0, "bold ");
    assert_eq!(segments[2].0, "both");
}

#[test]
fn markup_tags_set_styles() {
    let segments = parse_pango_markup("<u>a</u><s>b</s><sup>c<sub>d</sub></sup><x>e</x>");
    assert_eq!(segments.len(), 5);
    assert!(segments[0].1.underline);
    assert!(segments[1].1.strikethrough);
    assert_eq!(segments[2].1.scale_steps, 1);
    assert_eq!(segments[3].1.scale_steps, 2);
    assert_eq!(segments[4].1, ParsedStyle::default());
}

#[test]
fn extra_close_tags_keep_the_plain_style() {
    let segments = parse_pango_markup("</b></i>a<b");
    assert_eq!(segments.len(), 1);
    assert_eq!(segments[0].0, "a");
    assert_eq!(segments[0].1, ParsedStyle::default());
    assert!(parse_pango_markup("").is_empty());
}

#[test]
fn span_sets_size_and_color() {
    let segments = parse_pango_markup("<span font=\"24\" color='red'>big</span>");
    assert_eq!(segments[0].1.font_size, Some(24000));
    assert_eq!(segments[0].1.color, Some(RenderColor::rgb(1000, 0, 0)));
    let segments = parse_pango_markup("<span foreground=\"Blue\" font=\"12.5\">x</span>");
    assert_eq!(segments[0].1.font_size, Some(12500));
    assert_eq!(segments[0].1.color, Some(RenderColor::rgb(0, 0, 1000)));
    let segments = parse_pango_markup("<span font=\"big\" color=\"nope\">x</span>");
    assert_eq!(segments[0].1.font_size, None);
    assert_eq!(segments[0].1.color, None);
}

#[test]
fn unknown_span_color_keeps_the_enclosing_color() {
    let segments = parse_pango_markup("<span color=\"red\"><span color=\"nope\">x</span></span>");
    assert_eq!(segments[0].1.color, Some(RenderColor::rgb(1000, 0, 0)));
}

#[test]
fn quoted_values() {
    assert_eq!(extract_quoted_value("  'abc' rest"), Some("abc".to_string()));
    assert_eq!(extract_quoted_value("\"a b\""), Some("a b".to_string()));
    assert_eq!(extract_quoted_value("abc"), None);
    assert_eq!(extract_quoted_value("\"open"), None);
    assert_eq!(extract_quoted_value("   "), None);
}

#[test]
fn font_sizes() {
    assert_eq!(parse_font_size("24"), Some(24000));
    assert_eq!(parse_font_size("+7.25"), Some(7250));
    assert_eq!(parse_font_size(".5"), Some(500));
    assert_eq!(parse_font_size("3."), Some(3000));
    assert_eq!(parse_font_size("1.23456"), Some(1234));
    assert_eq!(parse_font_size("4294967.295"), Some(4294967295));
    assert_eq!(parse_font_size("4294967.296"), None);
    assert_eq!(parse_font_size("99999999999"), None);
    assert_eq!(parse_font_size("."), None);
    assert_eq!(parse_font_size(""), None);
    assert_eq!(parse_font_size("-3"), None);
    assert_eq!(parse_font_size("1e3"), None);
}

#[test]
fn font_fit_boundaries() {
    assert_eq!(calculate_base_font_size("x", &canvas()), 120000);
    let long = "x".repeat(2000);
    assert_eq!(calculate_base_font_size(&long, &canvas()), 30000);
    assert_eq!(calculate_base_font_size("", &canvas()), 60000);
}

#[test]
fn font_fit_formula() {
    let twenty = "x".repeat(20);
    assert_eq!(calculate_base_font_size(&twenty, &canvas()), 76800);
    let tall = "a\n".repeat(10);
    assert_eq!(calculate_base_font_size(&tall, &canvas()), 51200);
    let small = RenderDimensions {
        width: 100,
        height: 100,
    };
    assert_eq!(calculate_base_font_size("ab", &small), 66666);
}

#[test]
fn end_to_end_scenario() {
    let (rest, deck) = parse_deck("[center]\n-- [black]\nHello").unwrap();
    assert_eq!(rest, "");
    assert_eq!(deck.global_options, vec!["center".to_string()]);
    assert_eq!(deck.slides.len(), 1);
    assert_eq!(deck.slides[0].options, vec!["black".to_string()]);
    assert_eq!(deck.slides[0].content, "Hello");

    let resolved = resolve_deck(&deck, "talk", &ResolveConfig::default());
    assert_eq!(resolved.presentation_dir, "talk");
    assert_eq!(resolved.slides.len(), 1);
    let s = &resolved.slides[0];
    assert_eq!(s.background, BackgroundSpec::SolidColor(RenderColor::black()));
    assert_eq!(s.text_position, TextPosition::Center);
    assert_eq!(s.text_align, TextAlign::Left);
    assert_eq!(s.text_spans.len(), 1);
    let span = &s.text_spans[0];
    assert_eq!(span.text, "Hello");
    assert_eq!(span.font_size, 120000);
    assert_eq!(span.color, RenderColor::white());
    assert_eq!(span.weight, FontWeight::Normal);
    assert_eq!(span.style, FontStyle::Normal);
    assert_eq!(span.decoration, TextDecoration::default());
}

#[test]
fn resolving_twice_gives_equal_decks() {
    let text = "[bottom]\n-- [red]\n<b>Hi</b> there\n-- [x.png] [fill]\nsecond";
    let (_, d1) = parse_deck(text).unwrap();
    let (_, d2) = parse_deck(text).unwrap();
    let config = ResolveConfig::default();
    let r1 = resolve_deck(&d1, "dir", &config);
    let r2 = resolve_deck(&d2, "dir", &config);
    assert_eq!(r1.slides.len(), r2.slides.len());
    for i in 0..r1.slides.len() {
        assert_eq!(r1.slides[i].background, r2.slides[i].background);
        assert_eq!(r1.slides[i].text_spans, r2.slides[i].text_spans);
        assert_eq!(r1.slides[i].text_position, r2.slides[i].text_position);
        assert_eq!(r1.slides[i].text_align, r2.slides[i].text_align);
    }
}

#[test]
fn slides_and_runs_keep_their_order() {
    let text = "-- [top]\none <i>two</i> three\n-- [bottom]\nfour";
    let (_, deck) = parse_deck(text).unwrap();
    let r = resolve_deck(&deck, "", &ResolveConfig::default());
    assert_eq!(r.slides.len(), 2);
    assert_eq!(r.slides[0].text_position, TextPosition::Top);
    assert_eq!(r.slides[1].text_position, TextPosition::Bottom);
    let texts: Vec<&str> = r.slides[0].text_spans.iter().map(|s| s.text.as_str()).collect();
    assert_eq!(texts, vec!["one ", "two", " three"]);
    assert_eq!(r.slides[0].text_spans[1].style, FontStyle::Italic);
    assert_eq!(r.slides[1].text_spans[0].text, "four");
}

#[test]
fn backgrounds_resolve_image_then_color_then_gray() {
    let global = opts(&["blue"]);
    let config = ResolveConfig::default();
    let image = Slide {
        options: opts(&["pic.JPG", "stretch"]),
        content: "x".to_string(),
    };
    assert_eq!(
        resolve_slide(&image, &global, &config).background,
        BackgroundSpec::Image {
            path: "pic.JPG".to_string(),
            scale: BackgroundScale::Stretch
        }
    );
    let colored = Slide {
        options: opts(&[]),
        content: "x".to_string(),
    };
    assert_eq!(
        resolve_slide(&colored, &global, &config).background,
        BackgroundSpec::SolidColor(RenderColor::rgb(0, 0, 1000))
    );
    assert_eq!(
        resolve_slide(&colored, &[], &config).background,
        BackgroundSpec::SolidColor(RenderColor::dark_gray())
    );
}

#[test]
fn no_markup_keeps_raw_content_in_one_plain_span() {
    let slide = Slide {
        options: opts(&["no-markup"]),
        content: "<b>raw</b>".to_string(),
    };
    let r = resolve_slide(&slide, &[], &ResolveConfig::default());
    assert_eq!(r.text_spans, vec![TextSpan::new("<b>raw</b>")]);
    assert_eq!(r.text_spans[0].font_size, 60000);
}

#[test]
fn run_sizes_come_from_markup_and_base_size() {
    let slide = Slide {
        options: opts(&[]),
        content: "<sup>x</sup><span font=\"20\">y<sub>z</sub></span><b>w</b>".to_string(),
    };
    let r = resolve_slide(&slide, &[], &ResolveConfig::default());
    let sizes: Vec<u32> = r.text_spans.iter().map(|s| s.font_size).collect();
    assert_eq!(sizes, vec![84000, 20000, 14000, 120000]);
    assert_eq!(r.text_spans[3].weight, FontWeight::Bold);
}

#[test]
fn base_size_counts_text_without_tags() {
    let slide = Slide {
        options: opts(&[]),
        content: format!("<b>{}</b>", "x".repeat(20)),
    };
    let r = resolve_slide(&slide, &[], &ResolveConfig::default());
    assert_eq!(r.text_spans[0].font_size, 76800);
}

#[test]
fn defaults() {
    assert_eq!(RenderColor::default(), RenderColor::white());
    assert_eq!(RenderColor::dark_gray(), RenderColor::new(196, 196, 220, 1000));
    assert_eq!(TextPosition::default(), TextPosition::Center);
    assert_eq!(TextAlign::default(), TextAlign::Left);
    assert_eq!(BackgroundScale::default(), BackgroundScale::Fit);
    assert_eq!(FontWeight::default(), FontWeight::Normal);
    assert_eq!(FontStyle::default(), FontStyle::Normal);
    assert_eq!(RenderDimensions::default(), canvas());
    assert_eq!(ResolveConfig::default().dimensions, canvas());
    assert_eq!(
        BackgroundSpec::default(),
        BackgroundSpec::SolidColor(RenderColor::dark_gray())
    );
    let slide = ResolvedSlide::default();
    assert!(slide.text_spans.is_empty());
    assert_eq!(slide.text_position, TextPosition::Center);
    let style = ParsedStyle::default();
    assert_eq!(style.font_size, None);
    assert_eq!(style.scale_steps, 0);
    assert!(!style.bold);
}
