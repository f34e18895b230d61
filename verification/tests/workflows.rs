use moat::support::fetch::Fetch;
use moat::support::workflows::{
    collect_parsed_workflows, collect_workflows, workflow_candidates, ContentEntry,
    collect_uses, has_pull_request_target, has_untrusted_checkout, is_pinned, is_workflow_file,
    job_action_uses, job_level_permissions, job_uses_action, top_level_permissions,
    BranchedWorkflows, PermissionsBlock, Workflow,
};
use moat::support::yaml::Yaml;

fn convert(v: &serde_yaml::Value) -> Yaml {
    match v {
        serde_yaml::Value::Null => Yaml::Null,
        serde_yaml::Value::String(s) => Yaml::String(s.clone()),
        serde_yaml::Value::Sequence(items) => Yaml::Sequence(items.iter().map(convert).collect()),
        serde_yaml::Value::Mapping(m) => {
            Yaml::Mapping(m.iter().map(|(k, v)| (convert(k), convert(v))).collect())
        }
        _ => Yaml::Other,
    }
}

fn parse(yaml: &str) -> Yaml {
    let v: serde_yaml::Value = serde_yaml::from_str(yaml).expect("valid yaml");
    convert(&v)
}

#[test]
fn untrusted_checkout_classic_pull_request_head() {
    let doc = parse(
        "jobs:\n  a:\n    steps:\n      - uses: actions/checkout@v4\n        with:\n          ref: ${{ github.event.pull_request.head.sha }}\n",
    );
    assert!(has_untrusted_checkout(&doc));
}

#[test]
fn untrusted_checkout_head_ref_expression() {
    let doc = parse(
        "jobs:\n  a:\n    steps:\n      - uses: actions/checkout@v4\n        with:\n          ref: ${{ github.head_ref }}\n",
    );
    assert!(has_untrusted_checkout(&doc));
}

#[test]
fn untrusted_checkout_case_insensitive_uses() {
    let doc = parse(
        "jobs:\n  a:\n    steps:\n      - uses: Actions/Checkout@v4\n        with:\n          ref: ${{ github.head_ref }}\n",
    );
    assert!(has_untrusted_checkout(&doc));
}

#[test]
fn untrusted_checkout_third_party_action() {
    let doc = parse(
        "jobs:\n  a:\n    steps:\n      - uses: some-org/checkout/v2@v2\n        with:\n          ref: ${{ github.event.pull_request.head.ref }}\n",
    );
    assert!(has_untrusted_checkout(&doc));
}

#[test]
fn untrusted_checkout_shell_git_checkout() {
    let doc = parse(
        "jobs:\n  a:\n    steps:\n      - run: git checkout ${{ github.event.pull_request.head.sha }}\n",
    );
    assert!(has_untrusted_checkout(&doc));
}

#[test]
fn untrusted_checkout_shell_git_fetch_head_ref() {
    let doc = parse(
        "jobs:\n  a:\n    steps:\n      - run: |\n          git fetch origin ${{ github.head_ref }}\n          git checkout FETCH_HEAD\n",
    );
    assert!(has_untrusted_checkout(&doc));
}

#[test]
fn untrusted_checkout_gh_pr_checkout_with_head_ref() {
    let doc =
        parse("jobs:\n  a:\n    steps:\n      - run: gh pr checkout ${{ github.head_ref }}\n");
    assert!(has_untrusted_checkout(&doc));
}

#[test]
fn safe_checkout_default_ref_not_flagged() {
    let doc = parse("jobs:\n  a:\n    steps:\n      - uses: actions/checkout@v4\n");
    assert!(!has_untrusted_checkout(&doc));
}

#[test]
fn safe_checkout_explicit_main_ref_not_flagged() {
    let doc = parse(
        "jobs:\n  a:\n    steps:\n      - uses: actions/checkout@v4\n        with:\n          ref: main\n",
    );
    assert!(!has_untrusted_checkout(&doc));
}

#[test]
fn safe_checkout_base_ref_not_flagged() {
    let doc = parse(
        "jobs:\n  a:\n    steps:\n      - uses: actions/checkout@v4\n        with:\n          ref: ${{ github.event.pull_request.base.sha }}\n",
    );
    assert!(!has_untrusted_checkout(&doc));
}

#[test]
fn safe_run_step_without_checkout_not_flagged() {
    let doc = parse("jobs:\n  a:\n    steps:\n      - run: echo ${{ github.head_ref }}\n");
    assert!(!has_untrusted_checkout(&doc));
}

#[test]
fn safe_unrelated_action_with_ref_param_not_flagged() {
    let doc = parse(
        "jobs:\n  a:\n    steps:\n      - uses: some-org/deploy@v1\n        with:\n          ref: ${{ github.head_ref }}\n",
    );
    assert!(!has_untrusted_checkout(&doc));
}

#[test]
fn pull_request_target_string_form_detected() {
    let doc = parse("on: pull_request_target\njobs: {}\n");
    assert!(has_pull_request_target(&doc));
}

#[test]
fn pull_request_target_sequence_form_detected() {
    let doc = parse("on: [push, pull_request_target]\njobs: {}\n");
    assert!(has_pull_request_target(&doc));
}

#[test]
fn pull_request_target_mapping_form_detected() {
    let doc = parse("on:\n  pull_request_target:\n    types: [opened]\njobs: {}\n");
    assert!(has_pull_request_target(&doc));
}

#[test]
fn pull_request_target_absent_when_only_pull_request() {
    let doc = parse("on: pull_request\njobs: {}\n");
    assert!(!has_pull_request_target(&doc));
}

#[test]
fn collects_uses_in_document_order() {
    let doc = parse(
        "jobs:\n  a:\n    steps:\n      - uses: actions/checkout@v4\n      - run: echo\n      - uses: ./local\n  b:\n    uses: org/repo/.github/workflows/x.yml@main\n",
    );
    assert_eq!(
        collect_uses(&doc),
        vec![
            "actions/checkout@v4",
            "./local",
            "org/repo/.github/workflows/x.yml@main"
        ]
    );
}

#[test]
fn pinning_needs_a_full_sha() {
    assert!(is_pinned("actions/checkout@1234567890123456789012345678901234567890"));
    assert!(is_pinned("actions/checkout@ABCDEFabcdef1234567890123456789012345678"));
    assert!(!is_pinned("actions/checkout@v4"));
    assert!(!is_pinned("actions/checkout@123456789012345678901234567890123456789"));
    assert!(!is_pinned("actions/checkout@123456789012345678901234567890123456789g"));
    assert!(!is_pinned("actions/checkout"));
    assert!(is_pinned("./.github/actions/local"));
    assert!(is_pinned("docker://alpine:3"));
}

#[test]
fn top_level_permission_blocks() {
    assert!(matches!(
        top_level_permissions(&parse("on: push\njobs: {}\n")),
        PermissionsBlock::Missing
    ));
    assert!(matches!(
        top_level_permissions(&parse("permissions: write-all\n")),
        PermissionsBlock::WriteAll
    ));
    assert!(matches!(
        top_level_permissions(&parse("permissions: read-all\n")),
        PermissionsBlock::ReadAll
    ));
    match top_level_permissions(&parse("permissions: {}\n")) {
        PermissionsBlock::Scoped(w) => assert!(w.is_empty()),
        _ => panic!("expected an empty scoped block"),
    }
    assert!(matches!(
        top_level_permissions(&parse("permissions: none\n")),
        PermissionsBlock::Empty
    ));
    match top_level_permissions(&parse("permissions:\n  contents: write\n  issues: read\n  pages: write\n")) {
        PermissionsBlock::Scoped(w) => assert_eq!(w, vec!["contents", "pages"]),
        _ => panic!("expected scoped writes"),
    }
}

#[test]
fn job_level_permission_blocks() {
    let doc = parse(
        "jobs:\n  a:\n    permissions: write-all\n  b:\n    steps: []\n  c:\n    permissions:\n      contents: read\n",
    );
    let jobs = job_level_permissions(&doc);
    assert_eq!(jobs.len(), 2);
    assert_eq!(jobs[0].0, "a");
    assert!(matches!(jobs[0].1, PermissionsBlock::WriteAll));
    assert_eq!(jobs[1].0, "c");
    match &jobs[1].1 {
        PermissionsBlock::Scoped(w) => assert!(w.is_empty()),
        _ => panic!("expected scoped read-only"),
    }
}

#[test]
fn job_action_lookup() {
    let doc = parse(
        "jobs:\n  deploy:\n    steps:\n      - uses: actions/deploy-pages@v4\n      - run: echo\n",
    );
    assert_eq!(job_action_uses(&doc, "deploy"), vec!["actions/deploy-pages@v4"]);
    assert!(job_uses_action(&doc, "deploy", "actions/deploy-pages"));
    assert!(!job_uses_action(&doc, "deploy", "actions/checkout"));
    assert!(!job_uses_action(&doc, "other", "actions/deploy-pages"));
}

#[test]
fn workflow_files_by_extension() {
    assert!(is_workflow_file("file", "ci.yml"));
    assert!(is_workflow_file("file", "CI.YAML"));
    assert!(!is_workflow_file("dir", "ci.yml"));
    assert!(!is_workflow_file("file", "README.md"));
}

#[test]
fn branched_workflow_emptiness() {
    let none = BranchedWorkflows::empty();
    assert!(none.is_empty());
    assert!(!none.has_any_workflows());
    assert!(!none.all_branches_empty());
    let empty_branch = BranchedWorkflows {
        per_branch: vec![("main".to_string(), Vec::new())],
    };
    assert!(empty_branch.all_branches_empty());
    let with_one = BranchedWorkflows {
        per_branch: vec![(
            "main".to_string(),
            vec![Workflow {
                path: "ci.yml".to_string(),
                doc: parse("on: push\n"),
            }],
        )],
    };
    assert!(with_one.has_any_workflows());
    assert_eq!(with_one.len(), 1);
}

fn entry(name: &str, kind: &str) -> ContentEntry {
    ContentEntry {
        name: name.to_string(),
        path: format!(".github/workflows/{name}"),
        kind: kind.to_string(),
    }
}

#[test]
fn workflow_listing_keeps_yaml_files() {
    let got = workflow_candidates(
        Fetch::Found(vec![
            entry("ci.yml", "file"),
            entry("README.md", "file"),
            entry("nested.yml", "dir"),
            entry("Release.YAML", "file"),
        ]),
        "acme",
        "demo",
        "main",
    )
    .ok()
    .unwrap();
    let names: Vec<&str> = got.iter().map(|e| e.name.as_str()).collect();
    assert_eq!(names, vec!["ci.yml", "Release.YAML"]);
    assert!(workflow_candidates(Fetch::NotFound, "acme", "demo", "main")
        .ok()
        .unwrap()
        .is_empty());
    assert!(workflow_candidates(Fetch::Forbidden, "acme", "demo", "main")
        .err()
        .unwrap()
        .contains("read .github/workflows on `main` for `acme/demo`"));
}

#[test]
fn workflow_files_are_read_in_order() {
    let cands = vec![entry("a.yml", "file"), entry("b.yml", "file"), entry("c.yml", "file")];
    let raws = vec![
        Fetch::Found("on: push\n".to_string()),
        Fetch::Found("jobs: [unclosed\n".to_string()),
        Fetch::NotFound,
    ];
    let got = collect_workflows(cands, raws, "acme", "demo").ok().unwrap();
    assert_eq!(got.len(), 1);
    assert_eq!(got[0].path, ".github/workflows/a.yml");
    assert!(matches!(got[0].doc, Yaml::Mapping(_)));
    let cands = vec![entry("a.yml", "file"), entry("b.yml", "file")];
    let raws = vec![Fetch::Found("on: push\n".to_string()), Fetch::Forbidden];
    let err = collect_workflows(cands, raws, "acme", "demo").err().unwrap();
    assert!(err.contains("workflow file `.github/workflows/b.yml`"));
}

#[test]
fn parsed_workflow_files_are_kept_in_order() {
    let cands = vec![entry("a.yml", "file"), entry("b.yml", "file")];
    let docs = vec![Fetch::Found(None), Fetch::Found(Some(parse("on: push\n")))];
    let got = collect_parsed_workflows(cands, docs, "acme", "demo").ok().unwrap();
    assert_eq!(got.len(), 1);
    assert_eq!(got[0].path, ".github/workflows/b.yml");
}
