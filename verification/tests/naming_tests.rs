use syncy::naming::get_destination_branch_name;
use syncy::naming::get_pull_request_body;
use syncy::naming::get_pull_request_name;

#[test]
fn branch_name_embeds_owner_repo_and_timestamp() {
    assert_eq!(
        get_destination_branch_name("my_name", "test1", 1234567890),
        "syncy/my_name/test1/1234567890".to_string()
    );
}

#[test]
fn branch_name_renders_timestamp_zero() {
    assert_eq!(
        get_destination_branch_name("o", "r", 0),
        "syncy/o/r/0".to_string()
    );
}

#[test]
fn pull_request_name_is_exact() {
    assert_eq!(
        get_pull_request_name("my_name", "test1", "main"),
        "Update from my_name/test1 branch: main".to_string()
    );
}

#[test]
fn pull_request_body_is_exact() {
    assert_eq!(
        get_pull_request_body("my_name", "test1", "main"),
        "Update from my_name/test1 branch: main\n\nlink to the original repo: \
         https://github.com/my_name/test1/main"
            .to_string()
    );
}
