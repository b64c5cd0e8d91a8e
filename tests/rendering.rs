use pathseg::render::{finish_styled, join_elements, write_multi_segment};
use pathseg::segment::{DateTime, Path};
use pathseg::style::{Color, MutliSegmentJoiner, MutliSegmentStyle};

fn path(p: &str, show_home: bool, home: Option<&str>) -> Path {
    Path::new(p.to_string(), show_home, home.map(|h| h.to_string()))
}

fn render(seg: &Path, separator: &str, max_elems: usize) -> String {
    let mut out = String::new();
    write_multi_segment(&mut out, seg, &MutliSegmentJoiner { separator, max_elems, elipsis: "..." });
    out
}

#[test]
fn scenario_inside_home_prompt() {
    let seg = path("/home/alice/proj/src", true, Some("/home/alice"));
    let joiner = MutliSegmentJoiner::prompt_default();
    let mut out = String::new();
    write_multi_segment(&mut out, &seg, &joiner);
    assert_eq!(out, "~ / proj / src");
}

#[test]
fn scenario_outside_home_prompt() {
    let seg = path("/etc/nginx", true, Some("/home/alice"));
    assert_eq!(render(&seg, " / ", 5), "/ / etc / nginx");
}

#[test]
fn scenario_relative_path_unknown_home() {
    let seg = path("this/dir/is/long", true, None);
    assert_eq!(join_elements(&seg, " > "), "this > dir > is > long");
    assert_eq!(render(&seg, " > ", usize::MAX), "this > dir > is > long");
}

#[test]
fn scenario_silent_truncation() {
    let seg = path("this/dir/is/long", false, None);
    assert_eq!(render(&seg, " / ", 2), "this / dir");
}

#[test]
fn elements_inside_home() {
    let seg = path("/home/alice/proj/src", true, Some("/home/alice"));
    assert_eq!(seg.elements(), vec!["~", "proj", "src"]);
}

#[test]
fn elements_home_with_trailing_slash() {
    let seg = path("/home/alice/proj", true, Some("/home/alice/"));
    assert_eq!(seg.elements(), vec!["~", "proj"]);
}

#[test]
fn elements_at_home() {
    let seg = path("/home/alice", true, Some("/home/alice"));
    assert_eq!(seg.elements(), vec!["~"]);
    assert_eq!(render(&seg, " / ", 5), "~");
}

#[test]
fn elements_home_hidden() {
    let seg = path("/home/alice/proj", false, Some("/home/alice"));
    assert_eq!(seg.elements(), vec!["/", "home", "alice", "proj"]);
}

#[test]
fn elements_partial_component_is_not_inside() {
    let seg = path("/home/alice2/proj", true, Some("/home/alice"));
    assert_eq!(seg.elements(), vec!["/", "home", "alice2", "proj"]);
}

#[test]
fn elements_outside_home_ignore_flag() {
    let shown = path("/etc/nginx", true, Some("/home/alice"));
    let hidden = path("/etc/nginx", false, Some("/home/alice"));
    assert_eq!(shown.elements(), vec!["/", "etc", "nginx"]);
    assert_eq!(shown.elements(), hidden.elements());
}

#[test]
fn elements_unknown_home_ignore_flag() {
    let shown = path("/etc/nginx", true, None);
    let hidden = path("/etc/nginx", false, None);
    assert_eq!(shown.elements(), hidden.elements());
    assert_eq!(hidden.elements(), vec!["/", "etc", "nginx"]);
}

#[test]
fn elements_are_recomputed_each_call() {
    let seg = path("/usr/local/bin", true, None);
    assert_eq!(seg.elements(), seg.elements());
}

#[test]
fn elements_of_empty_path() {
    let seg = path("", true, Some("/home/alice"));
    assert!(seg.elements().is_empty());
    assert_eq!(render(&seg, " / ", 5), "");
}

#[test]
fn elements_normalise_separators() {
    let seg = path("a//b/./c/", false, None);
    assert_eq!(seg.elements(), vec!["a", "b", "c"]);
}

#[test]
fn join_with_zero_bound_is_empty() {
    let seg = path("/etc/nginx", true, None);
    assert_eq!(render(&seg, " / ", 0), "");
}

#[test]
fn join_bound_above_length_shows_all() {
    let seg = path("a/b/c", false, None);
    assert_eq!(render(&seg, "-", 3), "a-b-c");
    assert_eq!(render(&seg, "-", 4), "a-b-c");
    assert_eq!(render(&seg, "-", 1), "a");
}

#[test]
fn join_appends_to_existing_text() {
    let seg = path("a/b", false, None);
    let mut out = String::from("> ");
    write_multi_segment(&mut out, &seg, &MutliSegmentJoiner { separator: ":", max_elems: 5, elipsis: "..." });
    assert_eq!(out, "> a:b");
}

#[test]
fn join_with_empty_separator() {
    let seg = path("a/b/c", false, None);
    assert_eq!(join_elements(&seg, ""), "abc");
}

#[test]
fn rendering_twice_is_identical() {
    let a = path("/home/alice/proj/src", true, Some("/home/alice"));
    let b = path("/home/alice/proj/src", true, Some("/home/alice"));
    assert_eq!(render(&a, " / ", 5), render(&b, " / ", 5));
    assert_eq!(render(&a, " / ", 5), render(&a, " / ", 5));
}

#[test]
fn prompt_default_joiner() {
    let j = MutliSegmentJoiner::prompt_default();
    assert_eq!(j.separator, " / ");
    assert_eq!(j.max_elems, 5);
    assert_eq!(j.elipsis, "...");
}

#[test]
fn style_from_colors() {
    let s = MutliSegmentStyle::from_colors(Color::Blue, Color::Ansi256(19));
    assert_eq!(s.fg, Color::Blue);
    assert_eq!(s.bg, Color::Ansi256(19));
}

#[test]
fn styled_render_error_takes_priority() {
    let r: Result<(), &str> = finish_styled(Err("write"), Err("reset"));
    assert_eq!(r, Err("write"));
    let r: Result<(), &str> = finish_styled(Err("write"), Ok(()));
    assert_eq!(r, Err("write"));
}

#[test]
fn styled_reset_error_surfaces() {
    let r: Result<(), &str> = finish_styled(Ok(()), Err("reset"));
    assert_eq!(r, Err("reset"));
    let r: Result<(), &str> = finish_styled(Ok(()), Ok(()));
    assert_eq!(r, Ok(()));
}

#[test]
fn date_time_now() {
    let _d = DateTime::new("%H:%M".to_string());
}
