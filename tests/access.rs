use filecore::storage::{decode_allow_list, encode_allow_list};
use filecore::access::{
    add_user_to_file, authorize_owner, authorize_read, check_user_can_access, check_user_is_owner, contains_id, find_duplicate,
    find_unknown, grant, list_user_files, remove_user_from_file, revoke, AccessError, File,
    FileUploadRequest, ShareError,
};

fn ids(v: &[&str]) -> Vec<String> {
    v.iter().map(|s| s.to_string()).collect()
}

fn file(id: &str, owner: &str, shared: &[&str]) -> File {
    let mut f = File::new(id.to_string(), format!("{}.txt", id), owner.to_string(), 1);
    f.accessible_user_ids = ids(shared);
    f
}

#[test]
fn details_denied_until_shared() {
    // u1 creates f1; u2 is refused; u1 shares with u2; u2 may now access
    let mut f1 = file("f1", "u1", &[]);
    assert_eq!(authorize_read(Some(&f1), "u2"), Err(AccessError::AccessDenied));
    assert_eq!(check_user_can_access(Some(&f1), "u2"), Ok(false));
    assert_eq!(authorize_owner(Some(&f1), "u1"), Ok(()));
    assert_eq!(f1.replace_allow_list("u1", ids(&["u2"]), &vec![true]), Ok(()));
    assert_eq!(authorize_read(Some(&f1), "u2"), Ok(()));
    assert_eq!(check_user_can_access(Some(&f1), "u2"), Ok(true));
    assert_eq!(f1.accessible_user_ids, ids(&["u2"]));
}

#[test]
fn duplicate_entry_leaves_list_unchanged() {
    let mut f1 = file("f1", "u1", &["u3"]);
    let r = f1.replace_allow_list("u1", ids(&["u2", "u2"]), &vec![true, true]);
    assert_eq!(r, Err(ShareError::DuplicateEntry("u2".to_string())));
    assert_eq!(f1.accessible_user_ids, ids(&["u3"]));
}

#[test]
fn unknown_user_and_non_owner_are_refused() {
    let mut f1 = file("f1", "u1", &["u3"]);
    let r = f1.replace_allow_list("u1", ids(&["u2", "u9", "u8"]), &vec![true, false, false]);
    assert_eq!(r, Err(ShareError::UnknownUser("u9".to_string())));
    assert_eq!(f1.accessible_user_ids, ids(&["u3"]));
    let r = f1.replace_allow_list("u2", ids(&["u2"]), &vec![true]);
    assert_eq!(r, Err(ShareError::NotOwner));
    assert_eq!(f1.accessible_user_ids, ids(&["u3"]));
}

#[test]
fn duplicates_and_unknowns_are_found_first_first() {
    assert_eq!(find_duplicate(&ids(&["a", "b", "c", "b", "a"])), Some("b".to_string()));
    assert_eq!(find_duplicate(&ids(&["a", "b", "c"])), None);
    assert_eq!(find_duplicate(&ids(&[])), None);
    assert_eq!(find_unknown(&ids(&["a", "b", "c"]), &vec![true, false, false]), Some("b".to_string()));
    assert_eq!(find_unknown(&ids(&["a"]), &vec![true]), None);
}

#[test]
fn grant_twice_keeps_one_entry() {
    let mut v = ids(&["a"]);
    grant(&mut v, "b");
    grant(&mut v, "b");
    assert_eq!(v, ids(&["a", "b"]));
    grant(&mut v, "a");
    assert_eq!(v, ids(&["a", "b"]));
    assert!(contains_id(&v, "b"));
    assert!(!contains_id(&v, "c"));
}

#[test]
fn revoke_removes_every_occurrence_and_ignores_absent() {
    let mut v = ids(&["a", "b", "a", "c"]);
    revoke(&mut v, "a");
    assert_eq!(v, ids(&["b", "c"]));
    revoke(&mut v, "zz");
    assert_eq!(v, ids(&["b", "c"]));
}

#[test]
fn owner_needs_no_allow_list_entry() {
    let f = file("f1", "u1", &["u2"]);
    assert_eq!(check_user_can_access(Some(&f), "u1"), Ok(true));
    assert_eq!(check_user_is_owner(Some(&f), "u1"), Ok(true));
    assert_eq!(check_user_is_owner(Some(&f), "u2"), Ok(false));
    assert!(f.can_access("u1") && f.is_owner("u1"));
}

#[test]
fn missing_file_is_not_found() {
    assert_eq!(check_user_can_access(None, "u1"), Err(AccessError::NotFound));
    assert_eq!(check_user_is_owner(None, "u1"), Err(AccessError::NotFound));
    assert!(matches!(add_user_to_file(None, "u1"), Err(AccessError::NotFound)));
    assert!(matches!(remove_user_from_file(None, "u1"), Err(AccessError::NotFound)));
}

#[test]
fn add_and_remove_user_on_a_file() {
    let f = add_user_to_file(Some(file("f1", "u1", &["u2"])), "u3").ok().unwrap();
    assert_eq!(f.accessible_user_ids, ids(&["u2", "u3"]));
    let f = add_user_to_file(Some(f), "u3").ok().unwrap();
    assert_eq!(f.accessible_user_ids, ids(&["u2", "u3"]));
    let f = remove_user_from_file(Some(f), "u2").ok().unwrap();
    assert_eq!(f.accessible_user_ids, ids(&["u3"]));
    assert_eq!(f.owner_id, "u1");
}

#[test]
fn listing_keeps_owned_and_shared_files_in_order() {
    let files = vec![
        file("f1", "u1", &[]),
        file("f2", "u2", &["u1"]),
        file("f3", "u2", &["u3"]),
        file("f4", "u1", &["u2"]),
    ];
    let listed: Vec<String> = list_user_files(files, "u1").into_iter().map(|f| f.id).collect();
    assert_eq!(listed, ids(&["f1", "f2", "f4"]));
    assert!(list_user_files(Vec::new(), "u1").is_empty());
}

#[test]
fn upload_name_defaults_to_file_id() {
    let named = FileUploadRequest { filename: Some("report.pdf".to_string()) };
    assert_eq!(named.resolved_filename("42"), "report.pdf");
    let unnamed = FileUploadRequest { filename: None };
    assert_eq!(unnamed.resolved_filename("42"), "42");
}

#[test]
fn owner_checks_distinguish_missing_and_denied() {
    let f = file("f1", "u1", &["u2"]);
    assert_eq!(authorize_owner(Some(&f), "u2"), Err(AccessError::AccessDenied));
    assert_eq!(authorize_owner(None, "u1"), Err(AccessError::NotFound));
    assert_eq!(authorize_read(None, "u1"), Err(AccessError::NotFound));
    assert_eq!(authorize_read(Some(&f), "u3"), Err(AccessError::AccessDenied));
}

#[test]
fn allow_list_stored_as_json_array() {
    assert_eq!(encode_allow_list(&ids(&["u1", "u2"])), "[\"u1\",\"u2\"]");
    assert_eq!(encode_allow_list(&ids(&[])), "[]");
    assert_eq!(decode_allow_list("[\"u1\", \"u2\"]"), ids(&["u1", "u2"]));
}

#[test]
fn damaged_allow_list_reads_as_empty() {
    assert!(decode_allow_list("not json").is_empty());
    assert!(decode_allow_list("{\"a\": 1}").is_empty());
    assert!(decode_allow_list("[1, 2]").is_empty());
}

#[test]
fn owner_cannot_be_put_on_allow_list() {
    let mut f1 = file("f1", "u1", &["u3"]);
    let r = f1.replace_allow_list("u1", ids(&["u2", "u1"]), &vec![true, true]);
    assert_eq!(r, Err(ShareError::OwnerListed));
    assert_eq!(f1.accessible_user_ids, ids(&["u3"]));
}

#[test]
fn granting_the_owner_changes_nothing() {
    let f = add_user_to_file(Some(file("f1", "u1", &["u2"])), "u1").ok().unwrap();
    assert_eq!(f.accessible_user_ids, ids(&["u2"]));
    assert_eq!(check_user_can_access(Some(&f), "u1"), Ok(true));
}
