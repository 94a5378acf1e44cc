use vpk_pack::error::PackError;
use vpk_pack::token::{check_add, find_first_eq, split_add};
use vpk_pack::worklist::{
    build_list, check_file, expand_directory, make_add_list, parse_add, AddRequest, WorklistEntry,
};

fn request(token: &str, source_exists: bool) -> AddRequest {
    AddRequest { token: token.to_string(), source_exists }
}

fn entry(source: &str, destination: &str) -> WorklistEntry {
    WorklistEntry { source: source.to_string(), destination: destination.to_string() }
}

#[test]
fn first_eq_is_found() {
    assert_eq!(find_first_eq("a=b=c"), 1);
    assert_eq!(find_first_eq("=x"), 0);
    assert_eq!(find_first_eq("abc"), 3);
    assert_eq!(find_first_eq(""), 0);
    assert_eq!(find_first_eq("é=ü"), 1);
}

#[test]
fn split_takes_the_first_eq() {
    let (source, destination) = split_add("a=b=c");
    assert_eq!(source, "a");
    assert_eq!(destination, "b=c");
}

#[test]
fn split_keeps_paths_verbatim() {
    let (source, destination) = split_add("assets/data.bin=assets/data.bin");
    assert_eq!(source, "assets/data.bin");
    assert_eq!(destination, "assets/data.bin");
    let (source, destination) = split_add("../x y=/lead\\back/../z");
    assert_eq!(source, "../x y");
    assert_eq!(destination, "/lead\\back/../z");
}

#[test]
fn split_allows_empty_parts() {
    assert_eq!(split_add("="), (String::new(), String::new()));
    assert_eq!(split_add("=dst"), (String::new(), "dst".to_string()));
    assert_eq!(split_add("src="), ("src".to_string(), String::new()));
}

#[test]
fn split_counts_characters_not_bytes() {
    let (source, destination) = split_add("données/é=ü/ß=1");
    assert_eq!(source, "données/é");
    assert_eq!(destination, "ü/ß=1");
}

#[test]
fn check_add_accepts_a_pair() {
    assert_eq!(check_add("a=b"), Ok(()));
    assert_eq!(check_add("src/file.bin=dst/file.bin"), Ok(()));
    assert_eq!(check_add("a=b=c"), Ok(()));
    assert_eq!(check_add("=ab"), Ok(()));
    assert_eq!(check_add("é="), Ok(()));
}

#[test]
fn check_add_refuses_short_or_plain_text() {
    let usage = "Need <src=dst>. With src the source folder or path and dst where it should be in the vpk archive.";
    assert_eq!(check_add("a="), Err(usage.to_string()));
    assert_eq!(check_add("="), Err(usage.to_string()));
    assert_eq!(check_add(""), Err(usage.to_string()));
    assert_eq!(check_add("abc"), Err(usage.to_string()));
    assert_eq!(check_add("a long path without the sign"), Err(usage.to_string()));
}

#[test]
fn check_file_wants_an_existing_regular_file() {
    assert_eq!(check_file(true, true), Ok(()));
    assert_eq!(check_file(false, false), Err("File doesn't exist!".to_string()));
    assert_eq!(check_file(false, true), Err("File doesn't exist!".to_string()));
    assert_eq!(check_file(true, false), Err("Given path is not a valid file!".to_string()));
}

#[test]
fn make_add_list_binds_an_existing_source() {
    assert_eq!(
        make_add_list("game.bin", "eboot.bin".to_string(), true),
        Ok(entry("game.bin", "eboot.bin"))
    );
}

#[test]
fn make_add_list_reports_a_missing_source() {
    assert_eq!(
        make_add_list("nowhere", "eboot.bin".to_string(), false),
        Err(PackError::MissingInput { path: "nowhere".to_string() })
    );
}

#[test]
fn parse_add_first_eq_wins() {
    assert_eq!(parse_add("a=b=c", true), Ok(entry("a", "b=c")));
}

#[test]
fn parse_add_reports_the_source() {
    assert_eq!(
        parse_add("gone/file=b=c", false),
        Err(PackError::MissingInput { path: "gone/file".to_string() })
    );
}

#[test]
fn list_without_requests_has_the_two_mandatory_entries() {
    let list = build_list("meta.sfo", true, "game.bin", true, &vec![]).unwrap();
    assert_eq!(
        list,
        vec![entry("meta.sfo", "sce_sys/param.sfo"), entry("game.bin", "eboot.bin")]
    );
}

#[test]
fn list_keeps_requests_in_order_after_the_mandatory_entries() {
    let adds = vec![
        request("z=first", true),
        request("a=second", true),
        request("m=third=3", true),
        request("a=second", true),
    ];
    let list = build_list("meta.sfo", true, "game.bin", true, &adds).unwrap();
    assert_eq!(list.len(), adds.len() + 2);
    assert_eq!(list[0], entry("meta.sfo", "sce_sys/param.sfo"));
    assert_eq!(list[1], entry("game.bin", "eboot.bin"));
    assert_eq!(list[2], entry("z", "first"));
    assert_eq!(list[3], entry("a", "second"));
    assert_eq!(list[4], entry("m", "third=3"));
    assert_eq!(list[5], entry("a", "second"));
}

#[test]
fn list_mandatory_entries_do_not_depend_on_requests() {
    let forward = vec![request("a=1", true), request("b=2", true)];
    let backward = vec![request("b=2", true), request("a=1", true)];
    let one = build_list("meta.sfo", true, "game.bin", true, &forward).unwrap();
    let two = build_list("meta.sfo", true, "game.bin", true, &backward).unwrap();
    assert_eq!(one[..2], two[..2]);
    assert_eq!(one[0].destination, "sce_sys/param.sfo");
    assert_eq!(one[1].destination, "eboot.bin");
    assert_eq!(one[2], two[3]);
    assert_eq!(one[3], two[2]);
}

#[test]
fn list_fails_on_missing_metadata() {
    let adds = vec![request("a=1", true)];
    assert_eq!(
        build_list("meta.sfo", false, "game.bin", true, &adds),
        Err(PackError::MissingInput { path: "meta.sfo".to_string() })
    );
}

#[test]
fn list_fails_on_missing_executable() {
    assert_eq!(
        build_list("meta.sfo", true, "game.bin", false, &vec![]),
        Err(PackError::MissingInput { path: "game.bin".to_string() })
    );
}

#[test]
fn list_fails_on_the_first_missing_source() {
    let adds = vec![
        request("a=1", true),
        request("gone=2", false),
        request("also/gone=3", false),
    ];
    assert_eq!(
        build_list("meta.sfo", true, "game.bin", true, &adds),
        Err(PackError::MissingInput { path: "gone".to_string() })
    );
    assert_eq!(
        build_list("meta.sfo", false, "game.bin", false, &adds),
        Err(PackError::MissingInput { path: "meta.sfo".to_string() })
    );
}

#[test]
fn exit_codes_tell_the_errors_apart() {
    let missing = PackError::MissingInput { path: "x".to_string() };
    let create = PackError::OutputCreateFailure {
        path: "out/x.vpk".to_string(),
        reason: "denied".to_string(),
    };
    assert_eq!(missing.exit_code(), 66);
    assert_eq!(create.exit_code(), 73);
    assert_ne!(missing.exit_code(), 0);
    assert_ne!(create.exit_code(), 0);
    assert_ne!(missing.exit_code(), create.exit_code());
}

#[test]
fn messages_name_the_path() {
    let missing = PackError::MissingInput { path: "dir/meta.sfo".to_string() };
    assert_eq!(missing.message(), "[ERR] Given file or folder doesn't exists: dir/meta.sfo");
    let create = PackError::OutputCreateFailure {
        path: "out/x.vpk".to_string(),
        reason: "denied".to_string(),
    };
    assert_eq!(create.message(), "error: Unable to make the out/x.vpk file : denied");
}

#[test]
fn directory_expands_to_its_files() {
    let dir = entry("assets", "data/assets");
    let children = vec!["a.bin".to_string(), "sub/b.bin".to_string(), "sub/deep/c".to_string()];
    assert_eq!(
        expand_directory(&dir, &children),
        vec![
            entry("assets/a.bin", "data/assets/a.bin"),
            entry("assets/sub/b.bin", "data/assets/sub/b.bin"),
            entry("assets/sub/deep/c", "data/assets/sub/deep/c"),
        ]
    );
}

#[test]
fn empty_directory_expands_to_nothing() {
    assert_eq!(expand_directory(&entry("assets", "data"), &vec![]), vec![]);
}
