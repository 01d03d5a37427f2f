use lon::forge::{
    compare_url, forge_repo_api_url, labels_url, pulls_url, split_labels, GitHubRepoApiBuilder,
    GitLab, PullRequestResponse,
};
use lon::text::{join, split};

#[test]
fn labels_are_the_pieces_between_commas() {
    assert_eq!(vec!["a", "b"], split_labels("a,b"));
    assert_eq!(vec![""], split_labels(""));
    assert_eq!(vec!["a", "", "b", ""], split_labels("a,,b,"));
    for s in ["", ",", "a", "a,b", ",a,", "dependencies,bot", "é,ü"] {
        let expected: Vec<String> = s.split(',').map(|p| p.to_string()).collect();
        assert_eq!(expected, split(s, ','), "split of {:?}", s);
        assert_eq!(s, join(&split(s, ','), ","), "join of {:?}", s);
    }
    let parts = vec!["x".to_string(), "y".to_string(), "z".to_string()];
    assert_eq!("x, y, z", join(&parts, ", "));
    assert_eq!("", join(&Vec::new(), ", "));
}

#[test]
fn gitlab_merge_request() {
    let gitlab = GitLab::new(
        "https://gitlab.example/api/v4",
        "42",
        "main",
        "dependencies,bot",
        "SECRET-REDACTED",
    );
    assert_eq!(
        "https://gitlab.example/api/v4/projects/42",
        gitlab.project_api_url()
    );
    assert_eq!(
        "https://gitlab.example/api/v4/projects/42/merge_requests",
        gitlab.merge_requests_url()
    );
    assert_eq!("SECRET-REDACTED", gitlab.token());
    let request = gitlab.merge_request("lon/nixpkgs", "nixpkgs");
    assert_eq!("lon/nixpkgs", request.source_branch);
    assert_eq!("main", request.target_branch);
    assert_eq!("lon: update nixpkgs", request.title);
    assert!(request.remove_source_branch);
    assert!(request.allow_collaboration);
    assert_eq!("dependencies,bot", request.labels);
}

#[test]
fn github_addresses() {
    let builder = GitHubRepoApiBuilder::new("nixos/nixpkgs");
    assert_eq!(None, builder.authorization());
    assert_eq!(
        "https://api.github.com/repos/nixos/nixpkgs",
        builder.api_url()
    );
    let builder = builder.token("abc");
    assert_eq!(Some("Bearer abc".to_string()), builder.authorization());
    let api = GitHubRepoApiBuilder::repo_api_url("o/r");
    assert_eq!("https://api.github.com/repos/o/r", api);
    assert_eq!(
        "https://api.github.com/repos/o/r/compare/old...new",
        compare_url(&api, "old", "new")
    );
    assert_eq!("https://api.github.com/repos/o/r/pulls", pulls_url(&api));
    assert_eq!(
        "https://api.github.com/repos/o/r/issues/17/labels",
        labels_url(&api, 17)
    );
    assert_eq!(
        "https://forge.example/api/v1/repos/o/r",
        forge_repo_api_url("https://forge.example/api/v1", "o/r")
    );
    let response = PullRequestResponse {
        html_url: "https://github.com/o/r/pull/17".to_string(),
        number: 17,
    };
    assert_eq!(17, response.number);
    assert_eq!("https://github.com/o/r/pull/17", response.html_url);
}
