use repowatch::config::{
    CommitInterest, ContainerConfig, Interest, ReleaseInterest, RepositoryConfig,
};
use repowatch::event::{Event, EventKind};
use repowatch::matcher::{match_event, Match};

fn template(image: &str, event_path: Option<&str>, timeout: Option<u32>) -> ContainerConfig {
    ContainerConfig {
        image: String::from(image),
        event_path: event_path.map(String::from),
        timeout,
    }
}

fn commit_event(owner: &str, name: &str, branch: &str) -> Event {
    Event {
        owner: String::from(owner),
        name: String::from(name),
        kind: EventKind::Commit { branch: String::from(branch) },
        payload: vec![123, 125],
    }
}

fn release_event(owner: &str, name: &str) -> Event {
    Event {
        owner: String::from(owner),
        name: String::from(name),
        kind: EventKind::Release,
        payload: vec![123, 125],
    }
}

fn widgets_commit_config(branch: Option<&str>) -> Vec<RepositoryConfig> {
    vec![RepositoryConfig {
        owner: String::from("acme"),
        name: String::from("widgets"),
        interests: vec![Interest::Commit(CommitInterest {
            branch: branch.map(String::from),
            containers: vec![template("acme/build", None, Some(30))],
        })],
    }]
}

#[test]
fn named_branch_matches_equal_branch_only() {
    let config = widgets_commit_config(Some("main"));
    let on_main = match_event(&commit_event("acme", "widgets", "main"), &config);
    assert_eq!(on_main, vec![Match { repo: 0, interest: 0, container: 0 }]);
    let on_dev = match_event(&commit_event("acme", "widgets", "dev"), &config);
    assert!(on_dev.is_empty());
}

#[test]
fn unset_branch_matches_any_branch() {
    let config = widgets_commit_config(None);
    for branch in ["main", "dev", "release/1.0", ""] {
        let matches = match_event(&commit_event("acme", "widgets", branch), &config);
        assert_eq!(matches, vec![Match { repo: 0, interest: 0, container: 0 }]);
    }
}

#[test]
fn release_interest_matches_every_release() {
    let config = vec![RepositoryConfig {
        owner: String::from("acme"),
        name: String::from("widgets"),
        interests: vec![Interest::Release(ReleaseInterest {
            containers: vec![template("acme/publish", None, None)],
        })],
    }];
    let matches = match_event(&release_event("acme", "widgets"), &config);
    assert_eq!(matches, vec![Match { repo: 0, interest: 0, container: 0 }]);
}

#[test]
fn cross_kind_pairs_never_match() {
    let config = vec![RepositoryConfig {
        owner: String::from("acme"),
        name: String::from("widgets"),
        interests: vec![
            Interest::Commit(CommitInterest {
                branch: None,
                containers: vec![template("acme/build", None, None)],
            }),
            Interest::Release(ReleaseInterest {
                containers: vec![template("acme/publish", None, None)],
            }),
        ],
    }];
    let on_release = match_event(&release_event("acme", "widgets"), &config);
    assert_eq!(on_release, vec![Match { repo: 0, interest: 1, container: 0 }]);
    let on_commit = match_event(&commit_event("acme", "widgets", "main"), &config);
    assert_eq!(on_commit, vec![Match { repo: 0, interest: 0, container: 0 }]);
}

#[test]
fn matching_is_deterministic_and_order_preserving() {
    let config = vec![
        RepositoryConfig {
            owner: String::from("acme"),
            name: String::from("widgets"),
            interests: vec![
                Interest::Commit(CommitInterest {
                    branch: None,
                    containers: vec![
                        template("acme/build", None, None),
                        template("acme/lint", None, None),
                    ],
                }),
                Interest::Commit(CommitInterest {
                    branch: Some(String::from("main")),
                    containers: vec![template("acme/deploy", None, Some(60))],
                }),
            ],
        },
    ];
    let event = commit_event("acme", "widgets", "main");
    let first = match_event(&event, &config);
    let second = match_event(&event, &config);
    assert_eq!(first, second);
    assert_eq!(
        first,
        vec![
            Match { repo: 0, interest: 0, container: 0 },
            Match { repo: 0, interest: 0, container: 1 },
            Match { repo: 0, interest: 1, container: 0 },
        ]
    );
}

#[test]
fn unknown_repository_yields_no_matches() {
    let config = widgets_commit_config(None);
    let matches = match_event(&commit_event("acme", "gadgets", "main"), &config);
    assert!(matches.is_empty());
    let matches = match_event(&commit_event("evil", "widgets", "main"), &config);
    assert!(matches.is_empty());
}

#[test]
fn first_matching_repository_is_selected() {
    let mut config = widgets_commit_config(Some("main"));
    config.push(RepositoryConfig {
        owner: String::from("acme"),
        name: String::from("widgets"),
        interests: vec![Interest::Release(ReleaseInterest {
            containers: vec![template("acme/publish", None, None)],
        })],
    });
    let matches = match_event(&release_event("acme", "widgets"), &config);
    assert!(matches.is_empty());
}

#[test]
fn interest_with_no_containers_is_inert() {
    let config = vec![RepositoryConfig {
        owner: String::from("acme"),
        name: String::from("widgets"),
        interests: vec![Interest::Release(ReleaseInterest { containers: vec![] })],
    }];
    let matches = match_event(&release_event("acme", "widgets"), &config);
    assert!(matches.is_empty());
}

#[test]
fn containers_returns_each_variants_templates() {
    let commit = Interest::Commit(CommitInterest {
        branch: Some(String::from("main")),
        containers: vec![template("acme/build", Some("/event.json"), Some(30))],
    });
    assert_eq!(commit.containers().len(), 1);
    assert_eq!(commit.containers()[0].image, "acme/build");
    let release = Interest::Release(ReleaseInterest {
        containers: vec![
            template("acme/publish", None, None),
            template("acme/announce", None, None),
        ],
    });
    assert_eq!(release.containers().len(), 2);
    assert_eq!(release.containers()[1].image, "acme/announce");
}

#[test]
fn commit_scenario_one_match_on_main_none_on_dev() {
    let config = vec![RepositoryConfig {
        owner: String::from("acme"),
        name: String::from("widgets"),
        interests: vec![Interest::Commit(CommitInterest {
            branch: Some(String::from("main")),
            containers: vec![template("acme/build", None, Some(30))],
        })],
    }];
    let on_main = match_event(&commit_event("acme", "widgets", "main"), &config);
    assert_eq!(on_main.len(), 1);
    assert_eq!(on_main[0], Match { repo: 0, interest: 0, container: 0 });
    let on_dev = match_event(&commit_event("acme", "widgets", "dev"), &config);
    assert_eq!(on_dev.len(), 0);
}
