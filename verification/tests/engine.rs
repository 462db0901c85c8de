use greetcard::art::{
    art_after_download, art_path, art_request, art_source, image_path, sanitize, ArtSource,
};
use greetcard::style::{bold, dim, italic};
use greetcard::text::{basename, from_chars, one_line, split_lines, to_chars, trim};
use greetcard::track::{album_usable, current_song, TrackMetadata};
use owo_colors::OwoColorize;

fn meta(title: Option<&str>, album: Option<&str>, art_url: Option<&str>) -> TrackMetadata {
    TrackMetadata {
        title: title.map(|s| s.to_string()),
        album: album.map(|s| s.to_string()),
        art_url: art_url.map(|s| s.to_string()),
    }
}

#[test]
fn chars_round_trip() {
    let v = to_chars("héllo wörld");
    assert_eq!(v.len(), 11);
    assert_eq!(from_chars(&v), "héllo wörld");
}

#[test]
fn trim_matches_std() {
    for s in ["  x  ", "\tx\ny\u{a0}", "\u{3000}core\u{3000}", "", "   ", "plain"] {
        assert_eq!(trim(s), s.trim());
    }
}

#[test]
fn one_line_normalizes() {
    assert_eq!(one_line("a\nb   c  "), "a b c");
    assert_eq!(one_line("\n\n"), "");
    assert_eq!(one_line("  one  two "), "one two");
    let n = one_line("x\n\ny   z");
    assert!(!n.contains('\n'));
    assert!(!n.contains("  "));
}

#[test]
fn split_lines_matches_bufread() {
    for s in ["a\nb\n", "a\nb", "", "\n", "a\r\nb\n", "a\r", "x\n\ny\n"] {
        let expect: Vec<String> = std::io::BufRead::lines(s.as_bytes())
            .map(|l| l.unwrap())
            .collect();
        assert_eq!(split_lines(s), expect, "splitting {s:?}");
    }
}

#[test]
fn basename_of_paths() {
    assert_eq!(basename("/usr/bin/fish"), "fish");
    assert_eq!(basename("zsh"), "zsh");
    assert_eq!(basename("a/"), "");
    assert_eq!(basename(""), "");
    assert_eq!(basename("/bin/zsh"), "/bin/zsh".split('/').last().unwrap());
}

#[test]
fn styles_match_ansi_wrappers() {
    assert_eq!(bold("Clair"), format!("{}", "Clair".bold()));
    assert_eq!(dim("zsh"), format!("{}", "zsh".dimmed()));
    assert_eq!(italic("\"q\""), format!("{}", "\"q\"".italic()));
    assert_eq!(
        dim(&italic("\"q\"")),
        format!("{}", "\"q\"".italic().dimmed())
    );
}

#[test]
fn sanitize_unicode_alphanumeric() {
    assert_eq!(sanitize("Suite Bergamasque"), "Suite_Bergamasque");
    assert_eq!(sanitize("Café Noir!"), "Café_Noir_");
    assert_eq!(sanitize("AB-12"), "AB_12");
    assert_eq!(sanitize(""), "");
}

#[test]
fn art_path_is_deterministic() {
    assert_eq!(art_path("Suite Bergamasque"), "/tmp/album-Suite_Bergamasque");
    assert_eq!(art_path("Suite Bergamasque"), art_path("Suite Bergamasque"));
}

#[test]
fn album_usable_needs_nonempty_name() {
    assert!(album_usable(&meta(Some("t"), Some("a"), None)));
    assert!(!album_usable(&meta(Some("t"), Some(""), None)));
    assert!(!album_usable(&meta(Some("t"), None, None)));
}

#[test]
fn current_song_needs_title_and_usable_album() {
    let song = current_song(&Some(meta(Some("Clair de Lune"), Some("Suite Bergamasque"), None)));
    assert_eq!(
        song,
        Some(("Clair de Lune".to_string(), "Suite Bergamasque".to_string()))
    );
    assert_eq!(current_song(&Some(meta(None, Some("Suite"), None))), None);
    assert_eq!(current_song(&Some(meta(Some("t"), Some(""), None))), None);
    assert_eq!(current_song(&None), None);
}

#[test]
fn art_request_follows_album() {
    let r = art_request(&meta(Some("t"), Some("Suite Bergamasque"), None));
    assert_eq!(r, Some("/tmp/album-Suite_Bergamasque".to_string()));
    assert_eq!(art_request(&meta(Some("t"), Some(""), None)), None);
    assert_eq!(art_request(&meta(Some("t"), None, None)), None);
}

#[test]
fn art_source_prefers_cache() {
    let url = Some("http://example.org/a.jpg".to_string());
    assert!(matches!(art_source(true, &url), ArtSource::Cached));
    assert!(matches!(art_source(true, &None), ArtSource::Cached));
    match art_source(false, &url) {
        ArtSource::Download(u) => assert_eq!(u, "http://example.org/a.jpg"),
        _ => panic!("expected a download"),
    }
    assert!(matches!(art_source(false, &None), ArtSource::Unavailable));
}

#[test]
fn failed_download_falls_back_to_default() {
    let p = "/tmp/album-X".to_string();
    assert_eq!(art_after_download(p.clone(), true), Some(p.clone()));
    assert_eq!(art_after_download(p, false), None);
    assert_eq!(image_path(None), "/home/flora/Downloads/moon.jpg");
    assert_eq!(image_path(Some("/tmp/album-X".to_string())), "/tmp/album-X");
}
