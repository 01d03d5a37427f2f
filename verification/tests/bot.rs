use lon::bot::{
    branch_name, pull_request_title, Bot, BotAction, BotConfig, BotEvent, Forge, Outcome,
};
use lon::error::Error;
use lon::git::{Commit, Revision};
use lon::sources::{Answer, GitHubSource, GitSource, Query, Source, Sources, SriHash};

const OLD: &str = "043344a1c19619435e2b79cd42de6592308af0aa";
const NEW: &str = "21386f9d14831b594048e1e4340ac7a300e312d6";
const HASH: &str = "sha256-5wJChh/6lrQodEtR+tPll4Xb6ZzbSF7bGaKwH00toO0=";

fn git(name: &str, frozen: bool) -> Source {
    Source::Git(GitSource::new(
        &format!("https://example.com/{name}.git"),
        "main",
        Revision::new(OLD),
        SriHash::new(HASH),
        Some(1745335431),
        false,
        frozen,
    ))
}

fn github(name: &str) -> Source {
    Source::GitHub(GitHubSource::new(
        "owner",
        name,
        "main",
        Revision::new(OLD),
        SriHash::new(HASH),
        false,
    ))
}

/// A forge that refuses the requests for one source.
struct FakeForge {
    refuses: &'static str,
}

impl Forge for FakeForge {
    fn open_pull_request(
        &self,
        source_branch: &str,
        name: &str,
        _body: Option<String>,
    ) -> Result<String, Error> {
        if name == self.refuses {
            Err(Error::Transport {
                message: format!("Failed to open Pull Request for {source_branch}"),
            })
        } else {
            Ok(format!("https://forge.example/pulls/{name}"))
        }
    }
}

/// The world that the bot acts on, as far as the tests look at it.
struct World {
    registry: Sources,
    forge: FakeForge,
    newest: &'static str,
    failing_url: Option<&'static str>,
    checked_out: String,
    log: Vec<String>,
    written: Vec<Sources>,
    messages: Vec<String>,
    bodies: Vec<Option<String>>,
}

impl World {
    fn new(registry: Sources, refuses: &'static str) -> Self {
        World {
            registry,
            forge: FakeForge { refuses },
            newest: NEW,
            failing_url: None,
            checked_out: "main".to_string(),
            log: Vec::new(),
            written: Vec::new(),
            messages: Vec::new(),
            bodies: Vec::new(),
        }
    }

    fn perform(&mut self, action: BotAction) -> BotEvent {
        match action {
            BotAction::CurrentRev => BotEvent::Answered(Answer::Text(self.checked_out.clone())),
            BotAction::LoadSources => BotEvent::Loaded(self.registry.clone()),
            BotAction::Checkout {
                reference,
                create_or_reset,
            } => {
                self.log.push(format!(
                    "checkout {}{reference}",
                    if create_or_reset { "-B " } else { "" }
                ));
                self.checked_out = reference;
                BotEvent::Done
            }
            BotAction::Ask(query) => {
                let answer = match &query {
                    Query::NewestRevision { url, branch } => {
                        self.log.push(format!("ls-remote {url}"));
                        if self.failing_url == Some(url.as_str()) {
                            Answer::Failed(Error::Transport {
                                message: format!("Failed to reach {url}"),
                            })
                        } else {
                            Answer::Text(format!("{}\trefs/heads/{branch}\n", self.newest))
                        }
                    }
                    Query::GitHash { .. } | Query::TarballHash { .. } => {
                        self.log.push("hash".to_string());
                        Answer::Hash(SriHash::new("sha256-new"))
                    }
                    Query::LastModified { .. } => Answer::Text("1745400000\n".to_string()),
                    Query::GitHistory { max_count, .. } => {
                        self.log.push(format!("rev-list {max_count}"));
                        Answer::Text(
                            "1ba800e readme: reorganize\n26244f0 readme: add section about bot\n"
                                .to_string(),
                        )
                    }
                    Query::GitHubHistory { max_count, .. } => {
                        self.log.push(format!("compare {max_count}"));
                        Answer::Commits(vec![
                            Commit::from_str(NEW, "bot: init\n\nlong text"),
                            Commit::from_str(OLD, "older"),
                        ])
                    }
                };
                BotEvent::Answered(answer)
            }
            BotAction::Persist { sources } => {
                self.log.push("write".to_string());
                self.written.push(sources);
                BotEvent::Done
            }
            BotAction::Commit { message, user } => {
                self.log
                    .push(format!("commit as {} <{}>", user.name(), user.email()));
                self.messages.push(message);
                BotEvent::Done
            }
            BotAction::ForcePush { url, branch } => {
                self.log.push(format!(
                    "push {} {branch}",
                    url.unwrap_or("origin".to_string())
                ));
                BotEvent::Done
            }
            BotAction::OpenPullRequest { branch, name, body } => {
                self.log.push(format!("request {branch}"));
                self.bodies.push(body.clone());
                match self.forge.open_pull_request(&branch, &name, body) {
                    Ok(url) => BotEvent::Answered(Answer::Text(url)),
                    Err(e) => BotEvent::Answered(Answer::Failed(e)),
                }
            }
            BotAction::Finish(_) => panic!("the run is over"),
        }
    }

    fn run(&mut self, bot: &mut Bot) -> Option<Error> {
        let mut event = BotEvent::Start;
        for _ in 0..1000 {
            match bot.step(event) {
                BotAction::Finish(result) => return result,
                action => event = self.perform(action),
            }
        }
        panic!("the run does not end");
    }
}

fn two_sources() -> Sources {
    let mut registry = Sources::new();
    registry.add("a", git("a", false));
    registry.add("b", github("b"));
    registry
}

#[test]
fn forge_failure_for_one_source_leaves_the_other_alone() {
    let mut world = World::new(two_sources(), "a");
    world.checked_out = "feature".to_string();
    let mut bot = Bot::new(BotConfig::new(None, None, None, None));

    let result = world.run(&mut bot);

    assert!(result.is_none());
    assert!(bot.is_finished());
    assert_eq!("feature", bot.base());
    assert_eq!("feature", world.checked_out);
    assert_eq!(
        vec![
            "checkout feature",
            "checkout -B lon/a",
            "ls-remote https://example.com/a.git",
            "hash",
            "write",
            "commit as LonBot <lonbot@lonbot>",
            "push origin lon/a",
            "request lon/a",
            "checkout feature",
            "checkout -B lon/b",
            "ls-remote https://github.com/owner/b.git",
            "hash",
            "write",
            "commit as LonBot <lonbot@lonbot>",
            "push origin lon/b",
            "request lon/b",
            "checkout feature",
        ],
        world.log
    );
    let report = bot.report();
    assert_eq!(2, report.len());
    assert_eq!("a", report[0].0);
    match &report[0].1 {
        Outcome::RequestFailed { error } => {
            assert_eq!("Failed to open Pull Request for lon/a", error.message())
        }
        other => panic!("unexpected: {:?}", other),
    }
    assert_eq!("b", report[1].0);
    match &report[1].1 {
        Outcome::Opened { url } => assert_eq!("https://forge.example/pulls/b", url),
        other => panic!("unexpected: {:?}", other),
    }
    // each source was updated in a copy of its own
    assert_eq!(2, world.written.len());
    assert_eq!(NEW, world.written[0].get("a").unwrap().revision().as_str());
    assert_eq!(OLD, world.written[0].get("b").unwrap().revision().as_str());
    assert_eq!(OLD, world.written[1].get("a").unwrap().revision().as_str());
    assert_eq!(NEW, world.written[1].get("b").unwrap().revision().as_str());
    assert_eq!(
        vec![
            format!("lon: update a\n\n  {OLD}\n→ {NEW}\n"),
            format!("lon: update b\n\n  {OLD}\n→ {NEW}\n"),
        ],
        world.messages
    );
    assert_eq!(
        vec![
            Some(format!("\n  {OLD}\n→ {NEW}\n")),
            Some(format!("\n  {OLD}\n→ {NEW}\n")),
        ],
        world.bodies
    );
}

#[test]
fn frozen_and_current_sources_are_passed_over() {
    let mut registry = Sources::new();
    registry.add("frozen", git("frozen", true));
    registry.add("current", git("current", false));
    let mut world = World::new(registry, "");
    world.newest = OLD;
    let mut bot = Bot::new(BotConfig::new(None, None, None, None));

    assert!(world.run(&mut bot).is_none());

    assert_eq!(
        vec![
            "checkout main",
            "checkout -B lon/current",
            "ls-remote https://example.com/current.git",
            "checkout main",
            "checkout main",
        ],
        world.log
    );
    let report = bot.report();
    assert_eq!("current", report[0].0);
    assert!(matches!(report[0].1, Outcome::UpToDate));
    assert_eq!("frozen", report[1].0);
    assert!(matches!(report[1].1, Outcome::Frozen));
    assert!(world.written.is_empty());
}

#[test]
fn update_failure_ends_the_run_and_the_base_is_restored() {
    let mut world = World::new(two_sources(), "");
    world.failing_url = Some("https://example.com/a.git");
    let mut bot = Bot::new(BotConfig::new(None, None, None, None));

    let result = world.run(&mut bot);

    match result {
        Some(Error::Transport { message }) => {
            assert_eq!("Failed to reach https://example.com/a.git", message)
        }
        other => panic!("unexpected: {:?}", other),
    }
    assert_eq!(
        vec![
            "checkout main",
            "checkout -B lon/a",
            "ls-remote https://example.com/a.git",
            "checkout main",
        ],
        world.log
    );
    assert_eq!("main", world.checked_out);
    assert!(bot.report().is_empty());
}

#[test]
fn history_is_attached_when_it_is_asked_for() {
    let mut world = World::new(two_sources(), "");
    let mut bot = Bot::new(BotConfig::new(
        Some("1"),
        Some("Someone"),
        Some("someone@example.com"),
        Some("https://token@example.com/push.git"),
    ));

    assert!(world.run(&mut bot).is_none());

    assert!(world.log.contains(&"rev-list 1".to_string()));
    assert!(world.log.contains(&"compare 1".to_string()));
    assert!(world
        .log
        .contains(&"commit as Someone <someone@example.com>".to_string()));
    assert!(world
        .log
        .contains(&"push https://token@example.com/push.git lon/a".to_string()));
    assert_eq!(
        vec![
            format!(
                "lon: update a\n\n  {OLD}\n→ {NEW}\n\nLast 1 commits:\n  1ba800e readme: reorganize\n"
            ),
            format!("lon: update b\n\n  {OLD}\n→ {NEW}\n\nLast 1 commits:\n  21386f9 bot: init\n"),
        ],
        world.messages
    );
    assert_eq!(
        Some(format!(
            "\n  {OLD}\n→ {NEW}\n\nLast 1 commits:\n  21386f9 bot: init\n"
        )),
        world.bodies[1]
    );
}

#[test]
fn settings_have_their_defaults() {
    assert_eq!(0, BotConfig::new(None, None, None, None).list_commits());
    assert_eq!(7, BotConfig::new(Some("7"), None, None, None).list_commits());
    assert_eq!(50, BotConfig::new(Some("many"), None, None, None).list_commits());
    assert_eq!(50, BotConfig::new(Some(""), None, None, None).list_commits());
    assert_eq!(50, BotConfig::new(Some("-1"), None, None, None).list_commits());
    assert_eq!(0, BotConfig::new(Some("0"), None, None, None).list_commits());
    assert_eq!("lon/nixpkgs", branch_name("nixpkgs"));
    assert_eq!("lon: update nixpkgs", pull_request_title("nixpkgs"));
}

#[test]
fn failure_to_learn_the_base_ends_the_run_at_once() {
    let mut bot = Bot::new(BotConfig::new(None, None, None, None));
    assert!(matches!(bot.step(BotEvent::Start), BotAction::CurrentRev));
    let failure = BotEvent::Answered(Answer::Failed(Error::Transport {
        message: "Failed to find current commit".to_string(),
    }));
    assert!(matches!(
        bot.step(failure),
        BotAction::Finish(Some(Error::Transport { .. }))
    ));
    assert!(bot.is_finished());
    assert!(matches!(
        bot.step(BotEvent::Done),
        BotAction::Finish(Some(Error::Decode { .. }))
    ));
}

#[test]
fn failure_to_restore_the_base_is_the_run_s_failure() {
    let mut bot = Bot::new(BotConfig::new(None, None, None, None));
    bot.step(BotEvent::Start);
    assert!(matches!(
        bot.step(BotEvent::Answered(Answer::Text("main".to_string()))),
        BotAction::LoadSources
    ));
    match bot.step(BotEvent::Loaded(Sources::new())) {
        BotAction::Checkout {
            reference,
            create_or_reset,
        } => {
            assert_eq!("main", reference);
            assert!(!create_or_reset);
        }
        other => panic!("unexpected: {:?}", other),
    }
    let failure = BotEvent::Answered(Answer::Failed(Error::Transport {
        message: "Failed to checkout ref main".to_string(),
    }));
    assert!(matches!(
        bot.step(failure),
        BotAction::Finish(Some(Error::Transport { .. }))
    ));
}

#[test]
fn commits_without_a_short_revision_end_the_run() {
    let mut registry = Sources::new();
    registry.add("a", git("a", false));
    let mut bot = Bot::new(BotConfig::new(Some("5"), None, None, None));
    let mut world = World::new(registry, "");
    let mut event = BotEvent::Start;
    let result = loop {
        match bot.step(event) {
            BotAction::Finish(result) => break result,
            BotAction::Ask(Query::GitHistory { .. }) => {
                event = BotEvent::Answered(Answer::Text("abc too short\n".to_string()))
            }
            action => event = world.perform(action),
        }
    };
    match result {
        Some(Error::Decode { message }) => assert_eq!(
            "A listed commit has a revision without a short form",
            message
        ),
        other => panic!("unexpected: {:?}", other),
    }
    assert_eq!("main", world.checked_out);
    assert!(world.written.is_empty());
}
