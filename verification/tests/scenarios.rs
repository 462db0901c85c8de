use greetcard::info::build_info;
use greetcard::layout::compose;
use owo_colors::OwoColorize;

fn s(v: &str) -> String {
    v.to_string()
}

fn lines(v: &[&str]) -> Vec<String> {
    v.iter().map(|l| l.to_string()).collect()
}

#[test]
fn no_player_no_quote_minimal_env() {
    let info = build_info(
        Some(s("flora")),
        Some(s("2026-10-11 09:00:00 UTC\n")),
        None,
        None,
        Some(s("xterm-256color")),
        Some(s("/bin/zsh")),
    );
    assert_eq!(info.len(), 4);
    assert_eq!(info[0], "Hello, flora");
    assert_eq!(info[1], "It is 2026-10-11 09:00:00 UTC\n");
    assert_eq!(info[2], "");
    assert_eq!(
        info[3],
        format!(
            "{} | {}",
            "xterm-256color".dimmed(),
            "zsh".dimmed()
        )
    );
}

#[test]
fn active_player_usable_album() {
    let info = build_info(
        Some(s("flora")),
        None,
        Some((s("Clair de Lune"), s("Suite Bergamasque"))),
        Some(s("never shown")),
        None,
        None,
    );
    assert_eq!(info.len(), 2);
    assert_eq!(
        info[1],
        format!("{} - {}", "Clair de Lune".bold(), "Suite Bergamasque".dimmed())
    );
    assert!(!info.iter().any(|l| l.contains("never shown")));
}

#[test]
fn quote_shown_only_without_song() {
    let quoted = format!("\"{}\"", "wit beats length");
    let expected = quoted.italic().dimmed().to_string();
    let info = build_info(
        None,
        None,
        None,
        Some(s("wit\nbeats   length\n")),
        None,
        None,
    );
    assert_eq!(info, vec![expected]);
}

#[test]
fn neither_song_nor_quote() {
    let info = build_info(None, None, None, None, None, None);
    assert!(info.is_empty());
}

#[test]
fn only_shell_set() {
    let info = build_info(None, None, None, None, None, Some(s("/usr/bin/fish")));
    assert_eq!(info.len(), 2);
    assert_eq!(info[0], "");
    assert_eq!(info[1], "fish".dimmed().to_string());
    assert!(!info[1].contains('|'));
}

#[test]
fn only_term_set() {
    let info = build_info(None, None, None, None, Some(s("xterm")), None);
    assert_eq!(info.len(), 2);
    assert_eq!(info[0], "");
    assert_eq!(info[1], "xterm".dimmed().to_string());
}

#[test]
fn odd_padding() {
    let image = lines(&["i0", "i1", "i2", "i3", "i4", "i5", "i6", "i7", "i8", "i9"]);
    let info = lines(&["a", "b", "c", "d", "e"]);
    let out = compose(&image, &info);
    assert_eq!(out.len(), 9);
    assert_eq!(out[0], "i0\t");
    assert_eq!(out[1], "i1\t");
    assert_eq!(out[2], "i2\ta");
    assert_eq!(out[6], "i6\te");
    assert_eq!(out[7], "i7\t");
    assert_eq!(out[8], "i8\t");
}

#[test]
fn padding_of_one_leaves_info_alone() {
    let image = lines(&["i0", "i1", "i2"]);
    let info = lines(&["a", "b"]);
    let out = compose(&image, &info);
    assert_eq!(out, lines(&["i0\ta", "i1\tb"]));
}

#[test]
fn surplus_info_is_dropped() {
    let image = lines(&["i0", "i1"]);
    let info = lines(&["a", "b", "c", "d"]);
    let out = compose(&image, &info);
    assert_eq!(out, lines(&["i0\ta", "i1\tb"]));
}

#[test]
fn info_rows_are_trimmed_image_rows_are_not() {
    let image = lines(&["img \u{1b}[0m"]);
    let info = lines(&["  spaced out  "]);
    let out = compose(&image, &info);
    assert_eq!(out, lines(&["img \u{1b}[0m\tspaced out"]));
}

#[test]
fn equal_heights_pair_up() {
    let image = lines(&["x", "y"]);
    let info = lines(&["1", "2"]);
    assert_eq!(compose(&image, &info), lines(&["x\t1", "y\t2"]));
}
