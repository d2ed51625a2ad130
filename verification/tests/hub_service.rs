use std::cell::RefCell;

use infy::hub::logic::GgufSelector;
use infy::hub::remote::{hub_failure, remote_files};
use infy::hub::service::{DiskFile, Downloader, Hub, LocalModel, PullStep, RemoteFile};
use infy::kernel::error::{Error, Result};
use infy::kernel::model_ref::ModelRef;

/// A repository held in memory.
struct FakeRepo {
    repo: String,
    files: Vec<(String, u64)>,
    listed: RefCell<Vec<String>>,
}

impl FakeRepo {
    fn new() -> Self {
        FakeRepo {
            repo: "o/r".to_string(),
            files: vec![
                ("README.md".to_string(), 2),
                ("m-Q8_0.gguf".to_string(), 800),
                ("m-Q4_K_M.gguf".to_string(), 400),
                ("sub/extra.gguf".to_string(), 10),
            ],
            listed: RefCell::new(Vec::new()),
        }
    }
}

impl Downloader for FakeRepo {
    fn list_files(&self, repo: &str, _revision: Option<&str>) -> Result<Vec<RemoteFile>> {
        self.listed.borrow_mut().push(repo.to_string());
        if repo != self.repo {
            return Err(Error::not_found(&format!("repository {repo}")));
        }
        Ok(self
            .files
            .iter()
            .map(|(n, s)| RemoteFile {
                name: n.clone(),
                size: Some(*s),
            })
            .collect())
    }

    fn download<F: FnMut(u64, u64)>(
        &self,
        _repo: &str,
        _revision: Option<&str>,
        file: &str,
        dest_dir: &str,
        progress: &mut F,
    ) -> Result<String> {
        progress(0, 0);
        Ok(format!("{dest_dir}/{file}"))
    }
}

const DIR: &str = "/data/models";

fn r(s: &str) -> ModelRef {
    ModelRef::new(s).unwrap()
}

fn hub() -> Hub<FakeRepo> {
    Hub::new(FakeRepo::new(), DIR)
}

fn file(path: &str, size: u64) -> DiskFile {
    DiskFile {
        path: path.to_string(),
        size,
    }
}

fn model(name: &str, size: u64) -> LocalModel {
    LocalModel {
        name: name.to_string(),
        path: format!("{DIR}/{name}"),
        size_bytes: size,
    }
}

#[test]
fn pull_picks_the_default_quant_under_the_repo_dir() {
    let hub = hub();
    match hub.pull(&r("hf:o/r"), &[], None).unwrap() {
        PullStep::Fetch {
            repo,
            revision,
            file,
            dir,
        } => {
            assert_eq!(repo, "o/r");
            assert_eq!(revision, None);
            assert_eq!(file, "m-Q4_K_M.gguf");
            assert_eq!(dir, "/data/models/o--r");
        }
        _ => panic!("expected a download"),
    }
    assert_eq!(hub.downloader().listed.borrow().clone(), vec!["o/r"]);
}

#[test]
fn pull_skips_a_file_already_here_at_its_listed_size_and_selectors_work() {
    let hub = hub();
    let disk = vec![file("/data/models/o--r/m-Q4_K_M.gguf", 400)];
    match hub.pull(&r("hf:o/r"), &disk, None).unwrap() {
        PullStep::Present { model: m, file, size } => {
            assert_eq!(m, model("o--r/m-Q4_K_M.gguf", 400));
            assert_eq!(file, "m-Q4_K_M.gguf");
            assert_eq!(size, 400);
        }
        _ => panic!("a complete file is not fetched again"),
    }
    match hub.pull(&r("hf:o/r:Q8_0"), &disk, None).unwrap() {
        PullStep::Fetch { file, .. } => assert_eq!(file, "m-Q8_0.gguf"),
        _ => panic!("expected a download"),
    }
    match hub.pull(&r("hf:o/r/sub/extra.gguf"), &disk, None).unwrap() {
        PullStep::Fetch { file, dir, .. } => {
            assert_eq!(file, "sub/extra.gguf");
            assert_eq!(dir, "/data/models/o--r");
        }
        _ => panic!("expected a download"),
    }
    // A truncated file is fetched again.
    let truncated = vec![file("/data/models/o--r/m-Q8_0.gguf", 7)];
    assert!(matches!(
        hub.pull(&r("hf:o/r:Q8_0"), &truncated, None).unwrap(),
        PullStep::Fetch { .. }
    ));
}

#[test]
fn the_catalogue_lists_finds_and_resolves() {
    let hub = hub();
    assert!(hub.list(&[]).is_empty(), "no directory yet is an empty catalogue");
    assert_eq!(hub.find(&r("hf:o/r"), &[], None).unwrap(), None);
    assert_eq!(
        hub.resolve(&r("hf:o/r"), &[], None).unwrap(),
        None,
        "a hub ref that is not here needs a pull"
    );

    let disk = vec![
        file("/data/models/o--r/m-Q8_0.gguf", 800),
        file("/data/models/loose.gguf", 2),
        file("/data/models/o--r/m-Q4_K_M.gguf", 400),
        file("/data/models/o--r/README.md", 2),
    ];
    assert_eq!(
        hub.resolve(&r("hf:o/r"), &disk, None).unwrap(),
        Some(model("o--r/m-Q4_K_M.gguf", 400)),
        "resolve finds before it pulls"
    );
    let names: Vec<String> = hub.list(&disk).into_iter().map(|m| m.name).collect();
    assert_eq!(names, vec!["loose.gguf", "o--r/m-Q4_K_M.gguf", "o--r/m-Q8_0.gguf"]);

    let name = |s: &str| hub.find(&r(s), &disk, None).unwrap().unwrap().name;
    assert_eq!(name("hf:o/r"), "o--r/m-Q4_K_M.gguf");
    assert_eq!(name("hf:o/r:Q8_0"), "o--r/m-Q8_0.gguf");
    assert_eq!(name("o--r/m-Q8_0.gguf"), "o--r/m-Q8_0.gguf");
    assert_eq!(name("loose"), "loose.gguf");
    assert_eq!(name("m-Q8_0"), "o--r/m-Q8_0.gguf", "a unique bare file name");
    assert_eq!(hub.find(&r("nothing"), &disk, None).unwrap(), None);
    // A bare `x.gguf` is a path (relative to where infy runs), not a
    // catalogue name.
    assert_eq!(hub.find(&r("loose.gguf"), &disk, None).unwrap(), None);

    let found = hub
        .find(&r("/data/models/o--r/m-Q8_0.gguf"), &disk, None)
        .unwrap()
        .unwrap();
    assert_eq!(found.path, "/data/models/o--r/m-Q8_0.gguf");
    assert_eq!(
        found.name, "o--r/m-Q8_0.gguf",
        "inside the models dir the name is relative"
    );
}

#[test]
fn hub_failures_are_specific() {
    let hub = hub();
    assert!(
        matches!(hub.pull(&r("hf:o/missing"), &[], None), Err(Error::NotFound(m)) if m.contains("o/missing"))
    );
    assert!(
        matches!(hub.pull(&r("ollama:x"), &[], None), Err(Error::Invalid(m)) if m.contains("ollama"))
    );
    assert!(matches!(hub.find(&r("ollama:x"), &[], None), Err(Error::Invalid(_))));
    assert!(
        matches!(hub.pull(&r("./nothere.gguf"), &[], None), Err(Error::NotFound(m)) if m.contains("nothere"))
    );
    assert!(
        matches!(hub.resolve(&r("nothere"), &[], None), Err(Error::NotFound(m)) if m.contains("infy pull"))
    );
    assert!(
        matches!(hub.resolve(&r("/x/y.gguf"), &[], None), Err(Error::NotFound(m)) if m.contains("/x/y.gguf"))
    );
    assert!(
        matches!(hub.pull(&r("hf:o/r:Q2_K"), &[], None), Err(Error::NotFound(m)) if m.contains("available"))
    );
    assert_eq!(hub.models_dir(), DIR);
    assert!(Hub::<FakeRepo>::selector_is_file(&GgufSelector::File("x".into())));
}

#[test]
fn a_path_ref_expands_the_home_directory() {
    let hub = hub();
    let disk = vec![file("/home/me/m.gguf", 5)];
    let m = hub
        .resolve(&r("~/m.gguf"), &disk, Some("/home/me"))
        .unwrap()
        .unwrap();
    assert_eq!(m.path, "/home/me/m.gguf");
    assert_eq!(m.name, "/home/me/m.gguf", "outside the models dir the name is the whole path");
    assert_eq!(m.size_bytes, 5);
    match hub.pull(&r("~/m.gguf"), &disk, Some("/home/me")).unwrap() {
        PullStep::Here(h) => assert_eq!(h, m),
        _ => panic!("a local ref is never downloaded"),
    }
}

#[test]
fn a_repository_tree_lists_its_files_with_their_sizes() {
    let body = r#"[
        {"type":"file","path":"README.md","size":12},
        {"type":"directory","path":"sub","size":0},
        {"type":"file","path":"m-Q4_K_M.gguf","size":131,"lfs":{"size":400,"oid":"x"}},
        {"type":"file","path":"sub/extra.gguf"}
    ]"#;
    let fs = remote_files("listing o/r", body).unwrap();
    assert_eq!(
        fs,
        vec![
            RemoteFile { name: "README.md".into(), size: Some(12) },
            RemoteFile { name: "m-Q4_K_M.gguf".into(), size: Some(400) },
            RemoteFile { name: "sub/extra.gguf".into(), size: None },
        ]
    );
    match remote_files("listing o/r", r#"{"error":"nope"}"#) {
        Err(Error::Internal { context, source }) => {
            assert_eq!(context, "listing o/r");
            assert_eq!(source.as_deref(), Some("the answer is not a file tree"));
        }
        other => panic!("{other:?}"),
    }
    assert!(matches!(remote_files("listing o/r", "not json"), Err(Error::Internal { .. })));
}

#[test]
fn a_refused_hub_request_says_what_to_do() {
    match hub_failure("listing o/r", 404, " Repository not found\n") {
        Error::NotFound(m) => assert_eq!(m, "listing o/r: HTTP 404 Repository not found"),
        other => panic!("{other:?}"),
    }
    match hub_failure("downloading m.gguf from o/r", 401, "") {
        Error::Unavailable(m) => assert_eq!(
            m,
            "downloading m.gguf from o/r: HTTP 401 . If the repository is gated, accept its terms on huggingface.co and set HF_TOKEN"
        ),
        other => panic!("{other:?}"),
    }
    assert!(matches!(hub_failure("x", 500, "boom"), Error::Unavailable(m) if m == "x: HTTP 500 boom"));
}
