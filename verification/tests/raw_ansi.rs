use iocraft::canvas::DrawOp;
use iocraft::raw_ansi::{parse_ansi, parse_ansi_line, parse_osc8_hyperlink, AnsiRun};
use iocraft::raw_ansi_line::{reorder_bidi_ansi_runs, RawAnsi, RawAnsiLineCache, RawAnsiProps};
use iocraft::style::{CanvasTextStyle, Color, Dimension, UnderlineStyle, Weight};

fn run_at(runs: &[AnsiRun], column: usize) -> &AnsiRun {
    let mut start = 0;
    for run in runs {
        let end = start + run.text.chars().count();
        if column < end {
            return run;
        }
        start = end;
    }
    panic!("no run at column {column}")
}

fn shown(runs: &[AnsiRun]) -> String {
    runs.iter().map(|run| run.text.as_str()).collect()
}

#[test]
fn test_raw_ansi_line_cache_reuses_and_caps_like_cc_output_char_cache() {
    let mut cache = RawAnsiLineCache::with_max_entries(2);
    let first: Vec<(String, Option<Color>)> = cache
        .parse_line("\x1b[31mred\x1b[0m")
        .iter()
        .map(|run| (run.text.clone(), run.style.color))
        .collect();
    assert_eq!(first.len(), 1);
    assert_eq!(first[0].0, "red");
    assert_eq!(first[0].1, Some(Color::DarkRed));
    assert_eq!(cache.len(), 1);

    let second: Vec<(String, Option<Color>)> = cache
        .parse_line("\x1b[31mred\x1b[0m")
        .iter()
        .map(|run| (run.text.clone(), run.style.color))
        .collect();
    assert_eq!(second, first);
    assert_eq!(cache.len(), 1, "an unchanged line is found again");

    cache.parse_line("plain");
    assert_eq!(cache.len(), 2);
    cache.parse_line("third");
    assert_eq!(cache.len(), 1, "a full cache is cleared");

    let mut no_retention = RawAnsiLineCache::with_max_entries(0);
    assert_eq!(no_retention.parse_line("a")[0].text, "a");
    assert_eq!(no_retention.len(), 0);
    assert_eq!(no_retention.parse_line("b")[0].text, "b");
    assert_eq!(no_retention.len(), 0);
}

#[test]
fn test_raw_ansi_parses_sgr_styles_and_fixed_layout() {
    let mut raw = RawAnsi::new(false);
    let layout = raw.update(&RawAnsiProps {
        lines: vec!["\x1b[31;1mred\x1b[0m plain".to_string()],
        width: 10,
    });
    assert_eq!(layout.width, Dimension::Length(10));
    assert_eq!(layout.height, Dimension::Length(1));
    let texts: Vec<(isize, String, Option<Color>, Weight)> = raw
        .draw(false)
        .into_iter()
        .map(|op| match op {
            DrawOp::SetText { x, text, style, .. } => (x, text, style.color, style.weight),
            _ => panic!("only text"),
        })
        .collect();
    assert_eq!(
        texts,
        vec![
            (0, "red".to_string(), Some(Color::DarkRed), Weight::Bold),
            (3, " plain".to_string(), None, Weight::Normal),
        ]
    );

    let runs = parse_ansi_line("\x1b[9mstrike\x1b[29m plain");
    assert!(run_at(&runs, 0).style.strikethrough);
    assert!(!run_at(&runs, 7).style.strikethrough);

    let runs = parse_ansi_line("\x1b[4:3mcurly\x1b[24m \x1b[21mdouble");
    assert!(run_at(&runs, 0).style.underline);
    assert_eq!(run_at(&runs, 0).style.underline_style, UnderlineStyle::Curly);
    assert!(run_at(&runs, 7).style.underline);
    assert_eq!(run_at(&runs, 7).style.underline_style, UnderlineStyle::Double);

    let runs = parse_ansi_line("\x1b[4;58:2::1:2:3mcolor\x1b[59m plain");
    assert_eq!(
        run_at(&runs, 0).style.underline_color,
        Some(Color::Rgb { r: 1, g: 2, b: 3 })
    );
    assert_eq!(run_at(&runs, 6).style.underline_color, None);

    let runs = parse_ansi_line("\x1b[5mblink\x1b[25m \x1b[8mhide\x1b[28m plain");
    assert!(run_at(&runs, 0).style.blink);
    assert!(!run_at(&runs, 6).style.blink);
    assert!(run_at(&runs, 7).style.hidden);
    assert!(!run_at(&runs, 12).style.hidden);

    let runs = parse_ansi_line("\x1b[53mover\x1b[55m plain");
    assert!(run_at(&runs, 0).style.overline);
    assert!(!run_at(&runs, 5).style.overline);
}

#[test]
fn test_raw_ansi_parses_background_and_osc8_links() {
    let runs = parse_ansi_line(
        "\x1b[48;5;4mblue\x1b[0m \x1b]8;;https://example.com\x07link\x1b]8;;\x07",
    );
    assert_eq!(shown(&runs), "blue link");
    assert_eq!(run_at(&runs, 0).background_color, Some(Color::AnsiValue(4)));
    assert_eq!(
        run_at(&runs, 6).hyperlink.as_deref(),
        Some("https://example.com")
    );
}

#[test]
fn test_raw_ansi_sgr_reset_preserves_active_osc8_link() {
    let runs = parse_ansi_line(
        "\x1b]8;;https://example.com\x07\x1b[31mred\x1b[0m plain\x1b]8;;\x07",
    );
    assert_eq!(shown(&runs), "red plain");
    assert_eq!(run_at(&runs, 0).style.color, Some(Color::DarkRed));
    assert_eq!(run_at(&runs, 4).style.color, None);
    assert_eq!(
        run_at(&runs, 0).hyperlink.as_deref(),
        Some("https://example.com")
    );
    assert_eq!(
        run_at(&runs, 4).hyperlink.as_deref(),
        Some("https://example.com")
    );
}

#[test]
fn test_raw_ansi_colon_sgr_extended_color_and_subparams() {
    let runs = parse_ansi_line(
        "\x1b[38:2::1:2:3mfg \x1b[48:2:0:4:5:6mbg \x1b[31mred \x1b[4:0mstill-red \x1b[58;2;1;2;3mplain",
    );
    assert_eq!(
        run_at(&runs, 0).style.color,
        Some(Color::Rgb { r: 1, g: 2, b: 3 })
    );
    assert_eq!(
        run_at(&runs, 3).background_color,
        Some(Color::Rgb { r: 4, g: 5, b: 6 })
    );
    assert_eq!(run_at(&runs, 7).style.color, Some(Color::DarkRed));
    assert!(!run_at(&runs, 11).style.underline);
    assert_eq!(run_at(&runs, 11).style.color, Some(Color::DarkRed));
    assert_eq!(run_at(&runs, 21).style.weight, Weight::Normal);
}

#[test]
fn test_raw_ansi_bidi_reorder_preserves_run_styles() {
    let mut runs = parse_ansi_line("\x1b[31m\u{5d0}\u{5d1}\u{5d2}\x1b[0mabc");
    runs = reorder_bidi_ansi_runs(runs, true);

    assert_eq!(shown(&runs), "abc\u{5d2}\u{5d1}\u{5d0}");
    assert_eq!(runs[0].style.color, None);
    assert_eq!(runs[1].style.color, Some(Color::DarkRed));
}

#[test]
fn plain_text_is_one_run() {
    let runs = parse_ansi("just text\nwith lines");
    assert_eq!(runs.len(), 1);
    assert_eq!(runs[0].text, "just text\nwith lines");
    assert_eq!(parse_ansi("").len(), 0);
    assert_eq!(shown(&parse_ansi_line("one\ntwo")), "one");
}

#[test]
fn link_targets_are_found_and_ended() {
    assert_eq!(
        parse_osc8_hyperlink("8;id=1;https://example.com"),
        Some(Some("https://example.com".to_string()))
    );
    assert_eq!(parse_osc8_hyperlink("8;;"), Some(None));
    assert_eq!(parse_osc8_hyperlink("0;title"), None);
}

#[test]
fn a_cache_is_bounded_and_can_be_cleared() {
    let mut cache = RawAnsiLineCache::new();
    assert!(cache.is_empty());
    for number in 0..50 {
        cache.parse_line(format!("line {number}").as_str());
    }
    assert_eq!(cache.len(), 50);
    assert!(cache.len() <= cache.max_entries());
    cache.clear();
    assert!(cache.is_empty());
}

#[test]
fn a_line_that_shares_its_row_draws_nothing() {
    let mut raw = RawAnsi::new(false);
    raw.update(&RawAnsiProps {
        lines: vec!["text".to_string()],
        width: 10,
    });
    assert!(raw.draw(true).is_empty());
}

#[test]
fn a_plain_line_is_one_run_up_to_its_end() {
    for (input, shown) in [("plain", "plain"), ("plain\nmore", "plain"), ("plain\r\n", "plain")] {
        let runs = parse_ansi_line(input);
        assert_eq!(runs.len(), 1);
        assert_eq!(runs[0].text, shown);
        assert_eq!(runs[0].style, CanvasTextStyle::default());
    }
    assert!(parse_ansi_line("\nmore").is_empty());
}
