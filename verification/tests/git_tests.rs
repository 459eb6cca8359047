use mobdtimer::git::normalize_remote;

#[test]
fn returns_server_slash_path_for_ssh_ref() {
    assert_eq!(
        normalize_remote("git@github.com:/openpubmobus/mobdtimer.git"),
        "github-com_openpubmobus_mobdtimer-git"
    )
}

#[test]
fn returns_server_slash_path_for_ssh_ref_without_slash() {
    assert_eq!(
        normalize_remote("git@github.com:openpubmobus/mobdtimer.git"),
        "github-com_openpubmobus_mobdtimer-git"
    )
}

#[test]
fn returns_server_slash_path_for_https_ref_without_colon() {
    assert_eq!(
        normalize_remote("https://github.com/openpubmobus/mobdtimer.git"),
        "github-com_openpubmobus_mobdtimer-git"
    )
}

#[test]
fn returns_server_slash_path_for_https_ref_with_colon() {
    assert_eq!(
        normalize_remote("https://github.com:/openpubmobus/mobdtimer.git"),
        "github-com_openpubmobus_mobdtimer-git"
    )
}

#[test]
fn ssh_and_https_forms_of_one_repository_share_the_key() {
    let ssh = normalize_remote("git@gitlab.example.org:team/tool.git");
    let https = normalize_remote("https://gitlab.example.org/team/tool.git");
    assert_eq!(ssh, https);
    assert_eq!(ssh, "gitlab-example-org_team_tool-git");
}

#[test]
fn normalize_is_deterministic_across_calls() {
    let first = normalize_remote("git@github.com:openpubmobus/mobdtimer.git");
    let second = normalize_remote("git@github.com:openpubmobus/mobdtimer.git");
    assert_eq!(first, second);
}

#[test]
fn input_without_any_separator_degenerates_to_a_slash_key() {
    assert_eq!(normalize_remote("nonsense"), "_");
}

#[test]
fn ssh_input_without_colon_degenerates_to_empty_path() {
    assert_eq!(normalize_remote("git@github.com"), "github-com_");
}
