use wydy::command::{WCommand, WLocation};
use wydy::resolve::{
    command_cmd, is_known_engine, parse_user_command, script_action, search_engine_link, web_search_cmd, Context,
    ScriptAction, WKeyword,
};
use wydy::simple::parse_command;
use wydy::text::encode_spaces;

fn ctx(engine: Option<&str>, search_path: Vec<Vec<&str>>) -> Context {
    Context {
        browser: None,
        search_engine: engine.map(|e| e.to_string()),
        search_path: search_path
            .into_iter()
            .map(|d| d.into_iter().map(|n| n.to_string()).collect())
            .collect(),
        exe_suffix: false,
    }
}

fn views(list: &[WCommand]) -> Vec<(String, String, WLocation)> {
    list.iter()
        .map(|c| (c.command().to_string(), c.desc().to_string(), *c.location()))
        .collect()
}

#[test]
fn compatibility_is_symmetric_and_both_is_universal() {
    let all = [WLocation::Client, WLocation::Server, WLocation::Both];
    for a in all.iter() {
        for b in all.iter() {
            assert_eq!(a.is_compatible(b), b.is_compatible(a));
        }
        assert!(WLocation::Both.is_compatible(a));
        assert!(a.is_compatible(a));
    }
    assert!(!WLocation::Client.is_compatible(&WLocation::Server));
}

#[test]
fn first_directory_wins() {
    let c = ctx(None, vec![vec!["bar", "Foo"], vec!["foo"]]);
    let mut list = Vec::new();
    command_cmd(&mut list, &(WKeyword::NoKeyword, "foo".to_string()), &c.search_path, false);
    assert_eq!(
        views(&list),
        vec![("Foo".to_string(), "execute `Foo`".to_string(), WLocation::Both)]
    );
}

#[test]
fn first_entry_within_a_directory_wins() {
    let c = ctx(None, vec![vec!["FOO", "Foo"]]);
    let mut list = Vec::new();
    command_cmd(&mut list, &(WKeyword::Run, "foo".to_string()), &c.search_path, false);
    assert_eq!(list.len(), 1);
    assert_eq!(list[0].command(), "FOO");
}

#[test]
fn program_keeps_argument_case_and_skips_run() {
    let c = ctx(None, vec![vec!["Vim"]]);
    let mut list = Vec::new();
    command_cmd(&mut list, &(WKeyword::Run, "run VIM Notes.txt".to_string()), &c.search_path, false);
    assert_eq!(
        views(&list),
        vec![(
            "Vim Notes.txt".to_string(),
            "execute `Vim Notes.txt`".to_string(),
            WLocation::Both
        )]
    );
}

#[test]
fn program_exe_suffix_is_added() {
    let c = ctx(None, vec![vec!["foo", "Foo.exe"]]);
    let mut list = Vec::new();
    command_cmd(&mut list, &(WKeyword::NoKeyword, "foo".to_string()), &c.search_path, true);
    assert_eq!(list.len(), 1);
    assert_eq!(list[0].command(), "Foo.exe");
}

#[test]
fn program_not_found_adds_nothing() {
    let c = ctx(None, vec![vec!["bar"], vec![]]);
    let mut list = Vec::new();
    command_cmd(&mut list, &(WKeyword::NoKeyword, "foo".to_string()), &c.search_path, false);
    assert!(list.is_empty());
    command_cmd(&mut list, &(WKeyword::Search, "bar".to_string()), &c.search_path, false);
    assert!(list.is_empty());
}

#[test]
fn plain_text_gives_one_search() {
    let c = ctx(Some("duckduckgo"), vec![]);
    let list = parse_user_command(&(WKeyword::NoKeyword, "rust book".to_string()), &c, Vec::new(), false);
    assert_eq!(list.len(), 1);
    assert!(list[0].command().contains("duckduckgo.com/?q=rust%20book"));
    assert_eq!(list[0].command(), "firefox https://duckduckgo.com/?q=rust%20book");
    assert_eq!(list[0].desc(), "search for rust book");
    assert_eq!(*list[0].location(), WLocation::Both);
}

#[test]
fn open_url_gives_only_the_url() {
    let c = ctx(Some("duckduckgo"), vec![]);
    let list = parse_user_command(&(WKeyword::Open, "example.com".to_string()), &c, Vec::new(), true);
    assert_eq!(
        views(&list),
        vec![(
            "firefox example.com".to_string(),
            "opening url example.com".to_string(),
            WLocation::Both
        )]
    );
}

#[test]
fn open_non_url_gives_nothing() {
    let c = ctx(None, vec![]);
    let list = parse_user_command(&(WKeyword::Open, "not a url".to_string()), &c, Vec::new(), false);
    assert!(list.is_empty());
}

#[test]
fn url_shaped_search_opens_then_searches() {
    let mut c = ctx(Some("google"), vec![]);
    c.browser = Some("chromium".to_string());
    let list = parse_user_command(&(WKeyword::Search, "example.com".to_string()), &c, Vec::new(), true);
    assert_eq!(
        views(&list),
        vec![
            (
                "chromium example.com".to_string(),
                "opening url example.com".to_string(),
                WLocation::Both
            ),
            (
                "chromium https://google.com/#q=example.com".to_string(),
                "search for example.com".to_string(),
                WLocation::Both
            ),
        ]
    );
}

#[test]
fn unknown_engine_falls_back_to_duckduckgo() {
    let c = ctx(Some("bing"), vec![]);
    let list = parse_user_command(&(WKeyword::Search, "rust".to_string()), &c, Vec::new(), false);
    assert_eq!(list.len(), 1);
    assert_eq!(list[0].command(), "firefox https://duckduckgo.com/?q=rust");
    assert_eq!(search_engine_link("bing", "x"), "https://duckduckgo.com/?q=x");
    assert_eq!(search_engine_link("", "x"), "https://duckduckgo.com/?q=x");
    assert_eq!(search_engine_link("google", "x"), "https://google.com/#q=x");
    assert_eq!(search_engine_link("duckduckgo", "x"), "https://duckduckgo.com/?q=x");
}

#[test]
fn pipeline_keeps_resolver_order() {
    let c = ctx(None, vec![vec!["Foo"]]);
    let scripts = vec![WCommand::new("sh foo.sh".to_string(), "run script foo".to_string(), WLocation::Both)];
    let list = parse_user_command(&(WKeyword::Run, "foo".to_string()), &c, scripts, false);
    assert_eq!(
        views(&list),
        vec![
            ("sh foo.sh".to_string(), "run script foo".to_string(), WLocation::Both),
            ("Foo".to_string(), "execute `Foo`".to_string(), WLocation::Both),
        ]
    );
}

#[test]
fn web_resolver_ignores_other_keywords() {
    let mut list = Vec::new();
    web_search_cmd(&mut list, &(WKeyword::Edit, "x".to_string()), "firefox", "", true);
    assert!(list.is_empty());
}

#[test]
fn script_actions_follow_keyword_and_marker() {
    assert_eq!(script_action(&(WKeyword::Add, "script foo".to_string())), Some(ScriptAction::Add));
    assert_eq!(script_action(&(WKeyword::Add, "foo".to_string())), None);
    assert_eq!(script_action(&(WKeyword::Delete, "script foo".to_string())), Some(ScriptAction::Delete));
    assert_eq!(script_action(&(WKeyword::Delete, "foo".to_string())), None);
    assert_eq!(script_action(&(WKeyword::Edit, "foo".to_string())), Some(ScriptAction::Edit));
    assert_eq!(script_action(&(WKeyword::Run, "foo".to_string())), Some(ScriptAction::Run));
    assert_eq!(script_action(&(WKeyword::Search, "script".to_string())), None);
}

#[test]
fn spaces_are_encoded() {
    assert_eq!(encode_spaces("a b  c"), "a%20b%20%20c");
    assert_eq!(encode_spaces(""), "");
}

#[test]
fn argv_splits_on_whitespace() {
    let c = WCommand::new("vi  src/command.rs\n".to_string(), "edit".to_string(), WLocation::Client);
    assert_eq!(c.argv(), vec!["vi".to_string(), "src/command.rs".to_string()]);
}

#[test]
fn simple_search_commands() {
    let r = parse_command("search rust book".to_string());
    assert_eq!(r.len(), 1);
    assert_eq!(r[0].desc(), "search for rustbook");
    assert_eq!(r[0].argv(), vec!["firefox".to_string(), "https://duckduckgo.com/?q=rustbook".to_string()]);
    let r = parse_command("edit update all".to_string());
    assert_eq!(r.len(), 1);
    assert_eq!(r[0].desc(), "search for edit updateall");
    assert!(parse_command("   ".to_string()).is_empty());
}

#[test]
fn word_beginning_with_run_is_not_skipped() {
    let c = ctx(None, vec![vec!["runner", "x"], vec!["Run-Parts"]]);
    let mut list = Vec::new();
    command_cmd(&mut list, &(WKeyword::NoKeyword, "runner x".to_string()), &c.search_path, false);
    assert_eq!(
        views(&list),
        vec![("runner x".to_string(), "execute `runner x`".to_string(), WLocation::Both)]
    );
    let mut list = Vec::new();
    command_cmd(&mut list, &(WKeyword::Run, "run-parts /etc".to_string()), &c.search_path, false);
    assert_eq!(list.len(), 1);
    assert_eq!(list[0].command(), "Run-Parts /etc");
}

#[test]
fn run_word_alone_is_skipped_in_any_case() {
    let c = ctx(None, vec![vec!["Foo"]]);
    let mut list = Vec::new();
    command_cmd(&mut list, &(WKeyword::Run, "RUN foo".to_string()), &c.search_path, false);
    assert_eq!(list.len(), 1);
    assert_eq!(list[0].command(), "Foo");
}

#[test]
fn known_engines() {
    assert!(is_known_engine("duckduckgo"));
    assert!(is_known_engine("google"));
    assert!(!is_known_engine("bing"));
    assert!(!is_known_engine(""));
}
