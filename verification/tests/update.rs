use lon::error::Error;
use lon::git::Revision;
use lon::sources::{Answer, GitHubSource, GitSource, Query, Source, Sources, SriHash};
use lon::update::{RunPhase, RunStep, UpdateRun};

const OLD: &str = "043344a1c19619435e2b79cd42de6592308af0aa";
const NEW: &str = "21386f9d14831b594048e1e4340ac7a300e312d6";
const HASH: &str = "sha256-5wJChh/6lrQodEtR+tPll4Xb6ZzbSF7bGaKwH00toO0=";

fn registry() -> Sources {
    let mut sources = Sources::new();
    sources.add(
        "fake_1",
        Source::GitHub(GitHubSource::new(
            "owner",
            "fake_1",
            "main",
            Revision::new(OLD),
            SriHash::new(HASH),
            false,
        )),
    );
    sources.add(
        "fake_2",
        Source::Git(GitSource::new(
            "https://example.com/fake_2.git",
            "main",
            Revision::new(OLD),
            SriHash::new(HASH),
            None,
            false,
            true,
        )),
    );
    sources.add(
        "fake_3",
        Source::Git(GitSource::new(
            "https://example.com/fake_3.git",
            "main",
            Revision::new(OLD),
            SriHash::new(HASH),
            None,
            true,
            false,
        )),
    );
    sources
}

/// Answers every question as a repository would whose branches are all at `newest`.
fn answer(query: &Query, newest: &str) -> Answer {
    match query {
        Query::NewestRevision { branch, .. } => {
            Answer::Text(format!("{newest}\trefs/heads/{branch}\n"))
        }
        Query::GitHash { revision, .. } => Answer::Hash(SriHash::new(&format!("sha256-{revision}"))),
        Query::TarballHash { url } => Answer::Hash(SriHash::new(&format!("sha256-{url}"))),
        Query::LastModified { .. } => Answer::Text("1745400000\n".to_string()),
        other => panic!("unexpected: {:?}", other),
    }
}

fn drive(run: &mut UpdateRun, newest: &str) -> (RunStep, Vec<Query>) {
    let mut asked = Vec::new();
    let mut step = run.advance(None);
    loop {
        match step {
            RunStep::Ask(query) => {
                let a = answer(&query, newest);
                asked.push(query);
                step = run.advance(Some(a));
            }
            other => return (other, asked),
        }
    }
}

#[test]
fn all_sources_are_updated_and_the_frozen_one_is_left() {
    let mut run = UpdateRun::new(registry(), None).unwrap();
    assert_eq!(Some(&"fake_1".to_string()), run.current_name());
    let (step, asked) = drive(&mut run, NEW);
    assert!(matches!(step, RunStep::Finished));
    assert_eq!(RunPhase::Finished, run.phase());
    // two for the GitHub source, three for the git source, none for the frozen one
    assert_eq!(5, asked.len());
    for query in &asked {
        match query {
            Query::NewestRevision { url, .. }
            | Query::GitHash { url, .. }
            | Query::LastModified { url, .. }
            | Query::TarballHash { url } => assert!(!url.contains("fake_2")),
            other => panic!("unexpected: {:?}", other),
        }
    }
    let (sources, message) = run.into_parts().unwrap();
    assert_eq!(
        format!(
            "lon: update\n\n• fake_1:\n    {OLD}\n  → {NEW}\n\n• fake_3:\n    {OLD}\n  → {NEW}\n"
        ),
        message.to_string()
    );
    assert_eq!(NEW, sources.get("fake_1").unwrap().revision().as_str());
    assert_eq!(OLD, sources.get("fake_2").unwrap().revision().as_str());
    assert_eq!(NEW, sources.get("fake_3").unwrap().revision().as_str());
    match sources.get("fake_3").unwrap() {
        Source::Git(s) => {
            assert_eq!(Some(1745400000), s.last_modified());
            assert_eq!(format!("sha256-{NEW}"), s.hash().as_str());
        }
        other => panic!("unexpected: {:?}", other),
    }
}

#[test]
fn one_source_is_updated_by_name() {
    let name = "fake_3".to_string();
    let mut run = UpdateRun::new(registry(), Some(&name)).unwrap();
    let (step, asked) = drive(&mut run, NEW);
    assert!(matches!(step, RunStep::Finished));
    assert_eq!(3, asked.len());
    let (sources, message) = run.into_parts().unwrap();
    assert_eq!(
        format!("lon: update fake_3\n\n  {OLD}\n→ {NEW}\n"),
        message.to_string()
    );
    assert_eq!(OLD, sources.get("fake_1").unwrap().revision().as_str());
}

#[test]
fn nothing_to_do_is_an_error_and_nothing_is_handed_out() {
    let mut run = UpdateRun::new(registry(), None).unwrap();
    let (step, asked) = drive(&mut run, OLD);
    assert!(matches!(step, RunStep::Failed(Error::NothingToDo)));
    assert_eq!(2, asked.len());
    assert_eq!(RunPhase::Failed, run.phase());
    assert!(run.into_parts().is_none());

    let name = "fake_2".to_string();
    let mut run = UpdateRun::new(registry(), Some(&name)).unwrap();
    let (step, asked) = drive(&mut run, NEW);
    assert!(matches!(step, RunStep::Failed(Error::NothingToDo)));
    assert!(asked.is_empty());
}

#[test]
fn unknown_name_and_empty_registry_are_errors() {
    let name = "nope".to_string();
    let mut run = UpdateRun::new(registry(), Some(&name)).unwrap();
    match run.advance(None) {
        RunStep::Failed(error) => {
            assert_eq!("Source nope doesn't exist", error.message());
            assert!(matches!(error, Error::NotFound { .. }));
        }
        other => panic!("unexpected: {:?}", other),
    }
    assert!(run.into_parts().is_none());

    match UpdateRun::new(Sources::new(), None) {
        Err(error) => {
            assert_eq!("Lock file doesn't contain any sources", error.message());
            assert!(matches!(error, Error::NoSources));
        }
        Ok(_) => panic!("a run on nothing"),
    }
    assert_eq!("No updates available", Error::NothingToDo.message());
}

#[test]
fn a_failure_gives_the_whole_run_up() {
    let mut run = UpdateRun::new(registry(), None).unwrap();
    let RunStep::Ask(query) = run.advance(None) else {
        panic!("no question")
    };
    let RunStep::Ask(query) = run.advance(Some(answer(&query, NEW))) else {
        panic!("no question")
    };
    let RunStep::Ask(_) = run.advance(Some(answer(&query, NEW))) else {
        panic!("no question")
    };
    // fake_1 is updated by now; fake_3 fails
    let failure = Answer::Failed(Error::Transport {
        message: "Failed to reach https://example.com/fake_3.git".to_string(),
    });
    assert!(matches!(
        run.advance(Some(failure)),
        RunStep::Failed(Error::Transport { .. })
    ));
    assert_eq!(RunPhase::Failed, run.phase());
    assert!(matches!(
        run.advance(None),
        RunStep::Failed(Error::Decode { .. })
    ));
    assert!(run.into_parts().is_none());
}

#[test]
fn an_answer_to_no_question_gives_the_run_up() {
    let mut run = UpdateRun::new(registry(), None).unwrap();
    assert!(matches!(
        run.advance(Some(Answer::Text(String::new()))),
        RunStep::Failed(Error::Decode { .. })
    ));
    let mut run = UpdateRun::new(registry(), None).unwrap();
    assert!(matches!(run.advance(None), RunStep::Ask(_)));
    assert!(matches!(
        run.advance(None),
        RunStep::Failed(Error::Decode { .. })
    ));
}
