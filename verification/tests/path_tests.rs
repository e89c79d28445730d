use promptline::path::{
    get_relative_path, PathSegment, PathType, MIN_PATH_SIZE, PATH_SEPARATOR,
};
use promptline::segments::PromptSegment;

#[test]
fn format_relative_to_home() {
    let home = "/home/me";
    let cwd = "/home/me/foo/bar";
    let (path_type, path) = get_relative_path(cwd, home);
    assert_eq!(path_type, PathType::RelativeToHome);
    assert_eq!(path, "foo/bar")
}

#[test]
fn format_is_home() {
    let home = "/home/me";
    let cwd = "/home/me";
    let (path_type, path) = get_relative_path(cwd, home);
    assert_eq!(path_type, PathType::RelativeToHome);
    assert_eq!(path, "")
}

#[test]
fn format_relative_to_root() {
    let home = "/home/me";
    let cwd = "/foo/bar/baz";
    let (path_type, path) = get_relative_path(cwd, home);
    assert_eq!(path_type, PathType::RelativeToRoot);
    assert_eq!(path, "foo/bar/baz")
}

#[test]
fn format_is_root() {
    let home = "/home/me";
    let cwd = "/";
    let (path_type, path) = get_relative_path(cwd, home);
    assert_eq!(path_type, PathType::RelativeToRoot);
    assert_eq!(path, "")
}

#[test]
fn preferred_width_path() {
    let home = "/home/me";
    let cwd = "/home/me/abc/de";
    let (path_type, path) = get_relative_path(cwd, home);
    let segment = PathSegment::new_from_path(path_type, path.as_str()).unwrap();
    assert_eq!(segment.preferred_width, " ~ > abc > de ".len());
}

#[test]
fn preferred_width_home() {
    let home = "/home/me";
    let cwd = "/home/me/";
    let (path_type, path) = get_relative_path(cwd, home);
    let segment = PathSegment::new_from_path(path_type, path.as_str()).unwrap();
    assert_eq!(segment.preferred_width, " ~ ".len());
}

#[test]
fn render_home() {
    let segment = PathSegment::new_from_path(PathType::RelativeToHome, "").unwrap();
    let rendered = segment.render_at_size(segment.preferred_width);
    assert_eq!(rendered.text, " ~ ");
}

#[test]
fn render_single() {
    let segment = PathSegment::new_from_path(PathType::RelativeToHome, "1234567890").unwrap();
    let full_size = segment.render_at_size(segment.preferred_width);
    assert_eq!(full_size.text, format!(" ~ {} 1234567890 ", PATH_SEPARATOR));
    let constrained = segment.render_at_size(10);
    assert_eq!(constrained.text, " ...67890 ");
}

#[test]
fn render_multiple() {
    let segment = PathSegment::new_from_path(PathType::RelativeToHome, "1234567890/1234").unwrap();
    let full_size = segment.render_at_size(segment.preferred_width);
    assert_eq!(full_size.text, format!(" ~ {0} 1234567890 {0} 1234 ", PATH_SEPARATOR));
    let constrained = segment.render_at_size(16);
    assert_eq!(constrained.text, format!(" ...7890 {} 1234 ", PATH_SEPARATOR));
}

#[test]
fn render_absolute() {
    let segment = PathSegment::new_from_path(PathType::RelativeToRoot, "1234567890/1234").unwrap();
    let full_size = segment.render_at_size(segment.preferred_width);
    assert_eq!(full_size.text, format!(" / {0} 1234567890 {0} 1234 ", PATH_SEPARATOR));
}

#[test]
fn render_smallest() {
    let segment = PathSegment::new_from_path(PathType::RelativeToRoot, "1234567890/1234").unwrap();
    let allowed = segment.render_at_size(MIN_PATH_SIZE);
    assert_eq!(allowed.text, " ...4 ");
    let smallest = segment.render_at_size(MIN_PATH_SIZE - 1);
    assert_eq!(smallest.text, " ");
}

#[test]
fn repeated_slashes_collapse() {
    let segment = PathSegment::new_from_path(PathType::RelativeToRoot, "a//b/").unwrap();
    let full_size = segment.render_at_size(segment.preferred_width);
    assert_eq!(full_size.text, format!(" / {0} a {0} b ", PATH_SEPARATOR));
}

#[test]
fn home_with_trailing_slash_names_home() {
    let (path_type, path) = get_relative_path("/home/me/foo", "/home/me/");
    assert_eq!(path_type, PathType::RelativeToHome);
    assert_eq!(path, "foo");
    let (path_type, path) = get_relative_path("/home/me", "/home/me/");
    assert_eq!(path_type, PathType::RelativeToHome);
    assert_eq!(path, "");
}

#[test]
fn unrelated_home_is_not_stripped() {
    let (path_type, path) = get_relative_path("/home/mexico/foo", "/home/me");
    assert_eq!(path_type, PathType::RelativeToRoot);
    assert_eq!(path, "home/mexico/foo");
}
