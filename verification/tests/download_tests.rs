use contacts_bridge::download::candidate_file_name;
use contacts_bridge::download::resolve_file_name;
use contacts_bridge::download::split_base_name;

#[test]
fn first_probe_keeps_the_plain_name() {
    let r = resolve_file_name("report.csv", &vec![]);
    assert_eq!(r.unwrap(), "report.csv");
}

#[test]
fn collision_appends_counter_before_extension() {
    let existing = vec!["report.csv".to_string(), "other.csv".to_string()];
    let r = resolve_file_name("report.csv", &existing);
    assert_eq!(r.unwrap(), "report-1.csv");
}

#[test]
fn repeated_collisions_count_up() {
    let existing = vec![
        "report.csv".to_string(),
        "report-1.csv".to_string(),
        "report-2.csv".to_string(),
    ];
    let r = resolve_file_name("report.csv", &existing);
    assert_eq!(r.unwrap(), "report-3.csv");
}

#[test]
fn directory_segments_are_rejected() {
    let e = resolve_file_name("../evil", &vec![]).unwrap_err();
    assert_eq!(
        e.message(),
        "Output filename must not include directory segments."
    );
    let e = resolve_file_name("/etc/passwd", &vec![]).unwrap_err();
    assert_eq!(
        e.message(),
        "Output filename must not include directory segments."
    );
}

#[test]
fn empty_names_are_rejected() {
    let e = resolve_file_name("   ", &vec![]).unwrap_err();
    assert_eq!(e.message(), "Output filename cannot be empty.");
}

#[test]
fn dot_segments_have_no_stem() {
    let e = resolve_file_name("..", &vec![]).unwrap_err();
    assert_eq!(e.message(), "Output filename is invalid.");
    let e = split_base_name(".").unwrap_err();
    assert_eq!(e.message(), "Output filename is invalid.");
}

#[test]
fn whitespace_stem_is_rejected() {
    let e = split_base_name(" .csv").unwrap_err();
    assert_eq!(e.message(), "Output filename is invalid.");
}

#[test]
fn missing_extension_defaults_to_csv() {
    let (stem, ext) = split_base_name("report").unwrap();
    assert_eq!(stem, "report");
    assert_eq!(ext, "csv");
    let r = resolve_file_name("report", &vec![]);
    assert_eq!(r.unwrap(), "report.csv");
}

#[test]
fn only_the_final_extension_splits_off() {
    let (stem, ext) = split_base_name("archive.tar.gz").unwrap();
    assert_eq!(stem, "archive.tar");
    assert_eq!(ext, "gz");
}

#[test]
fn leading_dot_names_keep_their_dot() {
    let (stem, ext) = split_base_name(".hidden").unwrap();
    assert_eq!(stem, ".hidden");
    assert_eq!(ext, "csv");
}

#[test]
fn trailing_dot_gets_default_extension() {
    let (stem, ext) = split_base_name("name.").unwrap();
    assert_eq!(stem, "name");
    assert_eq!(ext, "csv");
}

#[test]
fn candidate_names_are_exact() {
    assert_eq!(candidate_file_name("report", "csv", 0), "report.csv");
    assert_eq!(candidate_file_name("report", "csv", 1), "report-1.csv");
    assert_eq!(candidate_file_name("report", "csv", 12), "report-12.csv");
    assert_eq!(candidate_file_name("report", "csv", 305), "report-305.csv");
}
