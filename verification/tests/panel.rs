use moat::support::panel::{
    accent_bold, blank, border, bottom, bump_progress_total, dark_palette, divider, finish_progress,
    gradient, header_panel, header_row, info_underline, init_theme, light_palette, muted, progress,
    row, text_bold, top_section, top_section_styled, top_titled, width_from_columns, wrap, Line,
    ProgressState, ThemeChoice,
};

#[test]
fn wrap_breaks_on_word_boundaries() {
    let lines = wrap("the quick brown fox jumps", 10);
    assert!(lines.iter().all(|l| l.chars().count() <= 10));
    assert_eq!(lines.join(" "), "the quick brown fox jumps");
}

#[test]
fn line_tracks_visible_separately_from_rendered() {
    let l = Line::new()
        .plain("hi")
        .styled("X", |s| format!("\x1b[31m{s}\x1b[0m"));
    assert_eq!(l.visible, 3);
    assert!(l.rendered.contains("hi"));
    assert!(l.rendered.contains("\x1b[31m"));
}

#[test]
fn wrap_fills_lines_greedily() {
    assert_eq!(
        wrap("the quick brown fox jumps", 10),
        vec!["the quick", "brown fox", "jumps"]
    );
}

#[test]
fn wrap_collapses_runs_of_whitespace() {
    assert_eq!(wrap("  a \t b\n\nc  ", 80), vec!["a b c"]);
}

#[test]
fn wrap_gives_a_long_word_its_own_line() {
    assert_eq!(
        wrap("a supercalifragilistic b", 5),
        vec!["a", "supercalifragilistic", "b"]
    );
}

#[test]
fn wrap_of_blank_text_is_empty() {
    assert!(wrap("   ", 10).is_empty());
    assert!(wrap("", 10).is_empty());
}

#[test]
fn wrap_splits_on_unicode_whitespace() {
    assert_eq!(wrap("a\u{3000}b\u{a0}c", 80), vec!["a b c"]);
}

#[test]
fn line_space_and_raw() {
    let l = Line::new().space(3).raw("ab", "\x1b[1mab\x1b[0m");
    assert_eq!(l.visible, 5);
    assert_eq!(l.rendered, "   \x1b[1mab\x1b[0m");
}

#[test]
fn line_counts_characters_not_bytes() {
    let l = Line::new().plain("✓ ok");
    assert_eq!(l.visible, 4);
}

#[test]
fn default_line_is_empty() {
    let l = Line::default();
    assert_eq!(l.visible, 0);
    assert_eq!(l.rendered, "");
}

#[test]
fn border_paints_in_truecolor() {
    let p = dark_palette();
    assert_eq!(border(&p, "│"), "\x1b[38;2;38;50;68m│\x1b[39m");
}

#[test]
fn bold_wraps_the_painted_text() {
    let p = dark_palette();
    assert_eq!(
        text_bold(&p, "hi"),
        "\x1b[1m\x1b[38;2;229;231;235mhi\x1b[39m\x1b[0m"
    );
    let l = light_palette();
    assert_eq!(
        accent_bold(&l, "x"),
        "\x1b[1m\x1b[38;2;126;34;206mx\x1b[39m\x1b[0m"
    );
}

#[test]
fn underline_wraps_the_painted_text() {
    let p = dark_palette();
    assert_eq!(
        info_underline(&p, "u"),
        "\x1b[4m\x1b[38;2;138;180;255mu\x1b[39m\x1b[0m"
    );
}

#[test]
fn theme_choice_picks_palette() {
    assert_eq!(init_theme(ThemeChoice::Dark, true).text, (229, 231, 235));
    assert_eq!(init_theme(ThemeChoice::Light, false).text, (15, 23, 42));
    assert_eq!(init_theme(ThemeChoice::Auto, true).text, (15, 23, 42));
    assert_eq!(init_theme(ThemeChoice::Auto, false).text, (229, 231, 235));
    assert_eq!(ThemeChoice::default(), ThemeChoice::Auto);
}

#[test]
fn gradient_spreads_positions_over_stops() {
    let p = dark_palette();
    assert_eq!(gradient(&p, "a", 0, 4), "\x1b[38;2;239;83;80ma\x1b[39m");
    // 3 * 20 / 4 = 15
    assert_eq!(gradient(&p, "a", 3, 4), "\x1b[38;2;164;222;122ma\x1b[39m");
    // past the end falls on the last stop; a zero total counts as one
    assert_eq!(gradient(&p, "a", 9, 4), "\x1b[38;2;126;231;135ma\x1b[39m");
    assert_eq!(gradient(&p, "a", 1, 0), "\x1b[38;2;126;231;135ma\x1b[39m");
}

#[test]
fn width_is_clamped() {
    assert_eq!(width_from_columns(None), 80);
    assert_eq!(width_from_columns(Some(20)), 60);
    assert_eq!(width_from_columns(Some(200)), 120);
    assert_eq!(width_from_columns(Some(100)), 100);
}

fn b(p: &moat::support::panel::Palette, s: &str) -> String {
    border(p, s)
}

#[test]
fn frame_lines() {
    let p = dark_palette();
    assert_eq!(bottom(&p, 6), b(&p, "╰────╯"));
    assert_eq!(blank(&p, 6), format!("{}    {}", b(&p, "│"), b(&p, "│")));
    assert_eq!(
        divider(&p, 8),
        format!("{}{}{}", b(&p, "│"), b(&p, " ──── "), b(&p, "│"))
    );
    let l = Line::new().plain("ab");
    assert_eq!(row(&p, 6, l), format!("{}ab  {}", b(&p, "│"), b(&p, "│")));
}

#[test]
fn section_tops() {
    let p = dark_palette();
    // "╭─ " + "Checks" + " " takes 10 columns, one more for the corner
    assert_eq!(
        top_section(&p, 14, "Checks"),
        format!("{}{}{}", b(&p, "╭─ "), text_bold(&p, "Checks"), b(&p, " ───╮"))
    );
    assert_eq!(
        top_section_styled(&p, 14, "Checks", |s| format!("<{s}>")),
        format!("{}<Checks>{}", b(&p, "╭─ "), b(&p, " ───╮"))
    );
    assert_eq!(
        top_titled(&p, 16, "T", "B"),
        format!(
            "{}{} {} {}",
            b(&p, "╭─ "),
            accent_bold(&p, "B"),
            text_bold(&p, "T"),
            b(&p, "─────────╮")
        )
    );
}

#[test]
fn header_row_pads_to_the_right_edge() {
    let p = dark_palette();
    // used = 2 + 1 + 1 + 1 + 3 + 1 + 1 + 2 = 12; inner = 18; pad = 6
    let r = header_row(&p, 20, "B", "m", None, "L", "R");
    let expected = format!(
        "  {} {} {} {}      {}  ",
        accent_bold(&p, "B"),
        text_bold(&p, "m"),
        muted(&p, "·"),
        text_bold(&p, "L"),
        muted(&p, "R")
    );
    assert_eq!(r, expected);
}

#[test]
fn progress_counts_and_redraws() {
    let p = dark_palette();
    let (lines, state) = header_panel(&p, 40, "B", "moat", Some("dev"), "acme", "", true);
    assert_eq!(lines.len(), 5);
    assert_eq!(lines[0], "");
    assert_eq!(lines[3], bottom(&p, 40));
    let mut st = Some(state);
    let out = progress(&mut st, "x", &p, 40).unwrap();
    assert_eq!(st.as_ref().unwrap().done, 1);
    assert!(out.contains(&muted(&p, "1 check")));
    bump_progress_total(&mut st, 3, &p, 40);
    let out = progress(&mut st, "y", &p, 40).unwrap();
    assert!(out.contains(&muted(&p, "2/3 checks")));
    assert!(out.starts_with("\x1b[3A\r\x1b[2K"));
    assert!(out.ends_with("\x1b[3B\r"));
    let fin = finish_progress(&mut st, "Done", &p, 40).unwrap();
    assert!(fin.contains(&muted(&p, "Done")));
    assert!(st.is_none());
    assert!(progress(&mut st, "z", &p, 40).is_none());
}

#[test]
fn progress_off_a_terminal_prints_nothing() {
    let p = dark_palette();
    let mut st = Some(ProgressState::new("B", "moat", None, "acme", false));
    assert!(progress(&mut st, "x", &p, 80).is_none());
    assert!(bump_progress_total(&mut st, 2, &p, 80).is_none());
    assert_eq!(st.as_ref().unwrap().done, 1);
    assert_eq!(st.as_ref().unwrap().total, 2);
    assert!(finish_progress(&mut st, "Done", &p, 80).is_none());
    assert!(st.is_none());
}

#[test]
fn bump_shows_ratio_capped_at_total() {
    let p = dark_palette();
    let mut st = Some(ProgressState::new("B", "m", None, "L", true));
    progress(&mut st, "a", &p, 80);
    progress(&mut st, "b", &p, 80);
    let out = bump_progress_total(&mut st, 1, &p, 80).unwrap();
    assert!(out.contains(&muted(&p, "1/1 check")));
}

#[test]
fn wrap_is_greedy_on_a_sample() {
    let lines = wrap("aa bb cc dd ee ff gg", 8);
    assert_eq!(lines, vec!["aa bb cc", "dd ee ff", "gg"]);
    for pair in lines.windows(2) {
        let first = pair[1].split(' ').next().unwrap();
        assert!(pair[0].chars().count() + 1 + first.chars().count() > 8);
    }
}

#[test]
fn progress_count_wraps_around() {
    let p = dark_palette();
    let mut s = ProgressState::new("B", "m", None, "L", false);
    s.done = usize::MAX;
    s.total = usize::MAX;
    let mut st = Some(s);
    progress(&mut st, "x", &p, 80);
    assert_eq!(st.as_ref().unwrap().done, 0);
    bump_progress_total(&mut st, 2, &p, 80);
    assert_eq!(st.as_ref().unwrap().total, 1);
}
