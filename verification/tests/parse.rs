use atto::buffer::highlight::highlight;
use atto::buffer::highlight::plain_spans;
use atto::buffer::Buffer;
use atto::notification::Color;
use atto::notification::Style;
use atto::parse::parse_from;
use atto::parse::perform_str_replacements;
use atto::parse::token_style;
use atto::parse::whitespace::TABSIZE;
use atto::parse::CachedParseState;
use atto::parse::Grammars;
use atto::parse::HighlightedLine;
use atto::parse::make_token;
use atto::parse::ParseCache;
use atto::parse::Rgba;
use atto::parse::TokenStyle;
use atto::parse::CACHE_FREQUENCY;
use syntect::highlighting::Highlighter;
use syntect::highlighting::ThemeSet;

fn text_of(line: &HighlightedLine) -> String {
    line.spans.iter().map(|span| span.content.clone()).collect()
}

fn look_of(lines: &Vec<HighlightedLine>) -> Vec<Vec<(String, Style, u8)>> {
    lines
        .iter()
        .map(|line| line.spans.iter().map(|s| (s.content.clone(), s.style, s.font_style)).collect())
        .collect()
}

fn document(lines: usize) -> String {
    let mut text = String::new();
    for i in 0..lines {
        if i % 7 == 3 {
            text.push_str("/* a comment that goes on\n");
        } else if i % 7 == 5 {
            text.push_str("and ends here */ let x = \"s\";\n");
        } else {
            text.push_str(&format!("fn f{}() {{ return {}; }}\n", i, i));
        }
    }
    text
}

#[test]
fn whitespace_is_replaced() {
    assert_eq!(TABSIZE, 4);
    assert_eq!(perform_str_replacements("a\tb", false), "a    b");
    assert_eq!(perform_str_replacements("a b\r\n", false), "a b\r\n");
    assert_eq!(perform_str_replacements("a\tb c\r\n", true), "a↦↦↦↦b·c⁋¶\n");
    assert_eq!(perform_str_replacements("", true), "");
    assert_eq!(perform_str_replacements("☃", true), "☃");
}

#[test]
fn invalidation_drops_the_later_snapshots() {
    let grammars = Grammars::packaged();
    let themes = ThemeSet::load_defaults();
    let highlighter = Highlighter::new(&themes.themes["base16-ocean.dark"]);
    let plain = grammars.by_name("Plain Text").unwrap();
    let mut cache = ParseCache::new();
    for line in [0usize, 10, 20, 30] {
        cache.insert(line, CachedParseState::new(&highlighter, &plain));
    }
    assert!(cache.closest_state(0).is_none());
    assert_eq!(cache.closest_state(1).map(|found| found.0), Some(0));
    assert_eq!(cache.closest_state(10).map(|found| found.0), Some(0));
    assert_eq!(cache.closest_state(25).map(|found| found.0), Some(20));
    cache.invalidate_from(20);
    let mut keys: Vec<usize> = cache.states.keys().copied().collect();
    keys.sort();
    assert_eq!(keys, vec![0, 10]);
    assert_eq!(cache.closest_state(25).map(|found| found.0), Some(10));
    cache.invalidate_from(0);
    assert!(cache.states.is_empty());
}

#[test]
fn an_insert_leaves_no_snapshot_from_the_top_on() {
    let grammars = Grammars::packaged();
    let themes = ThemeSet::load_defaults();
    let highlighter = Highlighter::new(&themes.themes["base16-ocean.dark"]);
    let plain = grammars.by_name("Plain Text").unwrap();
    let mut buffer = Buffer::from_string(document(40));
    parse_from(0, &buffer.content.clone(), 35, &mut buffer.parse_cache, &highlighter, &plain, false)
        .unwrap();
    assert_eq!(buffer.parse_cache.states.len(), 4);
    buffer.top = 15;
    buffer.insert('x');
    let mut keys: Vec<usize> = buffer.parse_cache.states.keys().copied().collect();
    keys.sort();
    assert_eq!(keys, vec![0, 10]);
    assert!(buffer.content.starts_with("xfn f0"));
    assert_eq!(buffer.position, 1);
}

#[test]
fn a_window_shows_its_lines() {
    let grammars = Grammars::packaged();
    let themes = ThemeSet::load_defaults();
    let highlighter = Highlighter::new(&themes.themes["base16-ocean.dark"]);
    let rust = grammars.by_extension("rs").unwrap();
    let text = "fn a() {}\n\tlet b = 1;\nlast";
    let mut cache = ParseCache::new();
    let shown = parse_from(1, text, 5, &mut cache, &highlighter, &rust, false).unwrap();
    assert_eq!(shown.len(), 2);
    assert_eq!(text_of(&shown[0]), "    let b = 1;\n");
    assert_eq!(text_of(&shown[1]), "last");
    for line in &shown {
        for span in &line.spans {
            assert_eq!(span.style.bg, Some(Color::Reset));
        }
    }
    let marked = parse_from(0, text, 0, &mut cache, &highlighter, &rust, true).unwrap();
    assert_eq!(marked.len(), 1);
    assert_eq!(text_of(&marked[0]), "fn·a()·{}¶\n");
    let none = parse_from(3, text, 5, &mut cache, &highlighter, &rust, false).unwrap();
    assert!(none.is_empty());
    let empty = parse_from(0, "", 5, &mut cache, &highlighter, &rust, false).unwrap();
    assert!(empty.is_empty());
}

#[test]
fn snapshots_are_kept_every_tenth_line() {
    let grammars = Grammars::packaged();
    let themes = ThemeSet::load_defaults();
    let highlighter = Highlighter::new(&themes.themes["base16-ocean.dark"]);
    let rust = grammars.by_extension("rs").unwrap();
    let text = document(45);
    let mut cache = ParseCache::new();
    let shown = parse_from(12, &text, 10, &mut cache, &highlighter, &rust, false).unwrap();
    assert_eq!(shown.len(), 11);
    assert_eq!(CACHE_FREQUENCY, 10);
    let mut keys: Vec<usize> = cache.states.keys().copied().collect();
    keys.sort();
    assert_eq!(keys, vec![0, 10, 20]);
}

#[test]
fn a_window_behind_the_text_parses_nothing() {
    let grammars = Grammars::packaged();
    let themes = ThemeSet::load_defaults();
    let highlighter = Highlighter::new(&themes.themes["base16-ocean.dark"]);
    let rust = grammars.by_extension("rs").unwrap();
    let mut cache = ParseCache::new();
    parse_from(0, &document(45), 44, &mut cache, &highlighter, &rust, false).unwrap();
    assert_eq!(cache.states.len(), 5);
    let shown = parse_from(50, "a\nb\n", 5, &mut cache, &highlighter, &rust, false).unwrap();
    assert!(shown.is_empty());
    assert_eq!(cache.states.len(), 5);
    let mut fresh = ParseCache::new();
    let shown = parse_from(25, &document(45), 3, &mut fresh, &highlighter, &rust, false).unwrap();
    assert_eq!(shown.len(), 4);
    let mut keys: Vec<usize> = fresh.states.keys().copied().collect();
    keys.sort();
    assert_eq!(keys, vec![0, 10, 20]);
    let shown = parse_from(41, &document(45), 9, &mut fresh, &highlighter, &rust, false).unwrap();
    assert_eq!(shown.len(), 4);
    let mut keys: Vec<usize> = fresh.states.keys().copied().collect();
    keys.sort();
    assert_eq!(keys, vec![0, 10, 20, 30, 40]);
}

#[test]
fn a_cached_parse_shows_what_one_pass_shows() {
    let grammars = Grammars::packaged();
    let themes = ThemeSet::load_defaults();
    let highlighter = Highlighter::new(&themes.themes["base16-ocean.dark"]);
    let rust = grammars.by_extension("rs").unwrap();
    let text = document(60);
    let mut fresh = ParseCache::new();
    let whole = look_of(
        &parse_from(0, &text, 100, &mut fresh, &highlighter, &rust, false).unwrap(),
    );
    assert_eq!(whole.len(), 60);
    let mut cache = ParseCache::new();
    let windows = [(33usize, 5usize, 25usize), (3, 8, 0), (41, 30, 40), (18, 3, 20), (0, 59, 7)];
    for (from, limit, invalid) in windows {
        let part = look_of(
            &parse_from(from, &text, limit, &mut cache, &highlighter, &rust, false)
                .unwrap(),
        );
        let upto = usize::min(from + limit + 1, 60);
        assert_eq!(part.len(), upto - from);
        assert_eq!(part[..], whole[from..upto]);
        cache.invalidate_from(invalid);
    }
}

#[test]
fn tokens_are_shown_on_the_background_of_the_terminal() {
    let opaque = Rgba { r: 1, g: 2, b: 3, a: 255 };
    let clear = Rgba { r: 9, g: 9, b: 9, a: 0 };
    let both = token_style(TokenStyle { foreground: opaque, background: opaque, font_style: 1 });
    assert_eq!(both, Style { fg: Some(Color::Rgb(1, 2, 3)), bg: Some(Color::Reset) });
    let no_background = token_style(TokenStyle { foreground: opaque, background: clear, font_style: 0 });
    assert_eq!(no_background, Style { fg: Some(Color::Reset), bg: Some(Color::Reset) });
    let no_foreground = token_style(TokenStyle { foreground: clear, background: opaque, font_style: 0 });
    assert_eq!(no_foreground, Style { fg: None, bg: Some(Color::Reset) });
}

#[test]
fn one_pass_shows_every_line() {
    let grammars = Grammars::packaged();
    let themes = ThemeSet::load_defaults();
    let theme = &themes.themes["base16-ocean.dark"];
    let highlighter = Highlighter::new(theme);
    let rust = grammars.by_extension("rs").unwrap();
    let text = document(25);
    let whole = highlight(&rust, theme, &text).unwrap();
    assert!(!whole.dirty);
    assert_eq!(whole.lines.len(), 25);
    let mut cache = ParseCache::new();
    let windowed =
        parse_from(7, &text, 9, &mut cache, &highlighter, &rust, false).unwrap();
    for (i, line) in windowed.iter().enumerate() {
        let one_pass = &whole.lines[7 + i];
        assert_eq!(text_of(line), text_of(one_pass));
        assert_eq!(line.spans.len(), one_pass.spans.len());
    }
    let tabs = highlight(&rust, theme, "\tlet a = 1;\nlast").unwrap();
    assert_eq!(text_of(&tabs.lines[0]), "\tlet a = 1;\n");
    assert_eq!(text_of(&tabs.lines[1]), "last");
    assert!(highlight(&rust, theme, "").unwrap().lines.is_empty());
}

#[test]
fn plain_spans_keep_the_foreground() {
    let opaque = Rgba { r: 1, g: 2, b: 3, a: 255 };
    let clear = Rgba { r: 9, g: 9, b: 9, a: 0 };
    let spans = plain_spans(vec![
        make_token(opaque, clear, 2, String::from("a\t")),
        make_token(clear, opaque, 0, String::from("b")),
    ]);
    assert_eq!(spans.len(), 2);
    assert_eq!(spans[0].content, "a\t");
    assert_eq!(spans[0].style, Style { fg: Some(Color::Rgb(1, 2, 3)), bg: Some(Color::Reset) });
    assert_eq!(spans[0].font_style, 2);
    assert_eq!(spans[1].style, Style { fg: None, bg: Some(Color::Reset) });
}
