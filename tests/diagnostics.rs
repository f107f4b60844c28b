use md2htm::{Diagnostic, Warning, MDS};

fn warnings(text: &str) -> Vec<Diagnostic> {
    MDS::parse_with_diagnostics(text.as_bytes().to_vec()).1
}

fn at(line: usize, column: usize, warning: Warning) -> Diagnostic {
    Diagnostic { line, column, warning }
}

#[test]
fn plain_text_has_no_warning() {
    assert_eq!(warnings("hello world"), vec![]);
    assert_eq!(warnings("# Title\n*a* **b** [c](d)\n"), vec![]);
}

#[test]
fn header_past_level_six() {
    assert_eq!(warnings("####### a\n"), vec![at(1, 7, Warning::HeaderTooDeep)]);
}

#[test]
fn empty_header() {
    assert_eq!(warnings("#\n"), vec![at(1, 2, Warning::EmptyHeader)]);
}

#[test]
fn stray_star_in_bold() {
    assert_eq!(warnings("**a*b**"), vec![at(1, 5, Warning::StrayStar)]);
}

#[test]
fn two_backticks() {
    assert_eq!(warnings("``a"), vec![at(1, 3, Warning::UnexpectedCodeMarkers)]);
}

#[test]
fn line_break_in_code_span() {
    assert_eq!(warnings("`b\nc"), vec![at(1, 3, Warning::LineBreakInCode)]);
}

#[test]
fn line_break_in_link() {
    assert_eq!(warnings("[a\n"), vec![at(1, 3, Warning::LineBreakInLink)]);
}

#[test]
fn dash_without_space() {
    assert_eq!(warnings("-x"), vec![at(1, 2, Warning::DashWithoutSpace)]);
}

#[test]
fn positions_count_lines_and_columns() {
    assert_eq!(warnings("a\n-x"), vec![at(2, 2, Warning::DashWithoutSpace)]);
    assert_eq!(warnings("ab\r\ncd\n  -x"), vec![at(3, 4, Warning::DashWithoutSpace)]);
    assert_eq!(
        warnings("-x\n-y"),
        vec![at(1, 2, Warning::DashWithoutSpace), at(2, 2, Warning::DashWithoutSpace)]
    );
}

#[test]
fn diagnostics_leave_the_output_alone() {
    let text = b"# a\n- b\n-x ``y [z\n".to_vec();
    let (out, _) = MDS::parse_with_diagnostics(text.clone());
    assert_eq!(out, MDS::parse(text));
}
