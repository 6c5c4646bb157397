use std::sync::Arc;

use eol_conversion::eol::{TargetEol, TargetEolStep};
use eol_conversion::git::{
    are_attributes_supported, native_target_eol, update_step_of_attributes, AutoCrlf, DirLayerStep,
    GitTargetEolStrategy, TreeLookup,
};
use eol_conversion::git_attributes::{
    Assignment, GitAttributesFile, ParsedLine, Pattern, State,
};
use eol_conversion::local_working_copy::{
    get_target_eol_strategy, DefaultTargetEolStrategy, WorkingCopyStrategy,
};
use eol_conversion::repo_path::RepoPathBuf;

const PASS: TargetEolStep = TargetEolStep::Decided(TargetEol::PassThrough);
const PROBE: TargetEolStep = TargetEolStep::Probe { limit: 8192 };

fn path(text: &str) -> RepoPathBuf {
    let mut path = RepoPathBuf::root();
    for name in text.split('/').filter(|name| !name.is_empty()) {
        path = path.join(name);
    }
    path
}

fn config(text: &'static str) -> gix::config::File<'static> {
    gix::config::File::try_from(text).expect("a valid configuration")
}

fn attributes(layers: &[(&str, &str)]) -> Arc<GitAttributesFile> {
    let mut file = Arc::new(GitAttributesFile::default());
    for (prefix, content) in layers {
        file = file.chain(&path(prefix), content.as_bytes());
    }
    file
}

/// A state as it is written.
fn shown(state: Option<&State>) -> Option<String> {
    Some(match state? {
        State::IsSet => "set".to_string(),
        State::Unset => "unset".to_string(),
        State::Value(value) => String::from_utf8_lossy(value).into_owned(),
        State::Unspecified => "unspecified".to_string(),
    })
}

fn text_of(file: &GitAttributesFile, at: &str) -> Option<String> {
    shown(file.text_state(&path(at)))
}

fn eol_of(file: &GitAttributesFile, at: &str) -> Option<String> {
    shown(file.eol_state(&path(at)))
}

fn some(text: &str) -> Option<String> {
    Some(text.to_string())
}

#[test]
fn paths_below_a_directory() {
    assert_eq!(path("a/b/c").as_internal_file_string(), "a/b/c");
    assert_eq!(path("").as_internal_file_string(), "");
    assert_eq!(path("a").clone().join("b").as_internal_file_string(), "a/b");
    let below = |at: &str, base: &str| {
        path(at).strip_prefix(&path(base)).map(|rest| rest.as_internal_file_string())
    };
    assert_eq!(below("a/b/c", "a"), some("b/c"));
    assert_eq!(below("a/b/c", ""), some("a/b/c"));
    assert_eq!(below("a/b", "a/b"), some(""));
    assert_eq!(below("ab", "a"), None);
    assert_eq!(below("a", "a/b"), None);
    assert_eq!(below("x/b", "a"), None);
}

#[test]
fn the_text_of_a_path_tells_what_is_below_a_directory() {
    let paths = ["", "a", "ab", "a/b", "a/bc", "a/b/c", "b", "b/a"];
    for at in paths {
        assert_eq!(path(at).as_internal_file_string(), at);
        for base in paths {
            let rest = path(at).strip_prefix(&path(base));
            let expected = base.is_empty() || at == base || at.starts_with(&format!("{base}/"));
            assert_eq!(rest.is_some(), expected, "{at:?} below {base:?}");
            if let Some(rest) = rest {
                let rest = rest.as_internal_file_string();
                if !base.is_empty() && !rest.is_empty() {
                    assert_eq!(format!("{base}/{rest}"), at);
                }
            }
        }
    }
}

#[test]
fn auto_crlf_comes_from_the_configuration() {
    for (text, expected) in [
        ("", None),
        ("[core]\n\tautocrlf = input\n", Some(AutoCrlf::Input)),
        ("[core]\n\tautocrlf = true\n", Some(AutoCrlf::Enabled)),
        ("[core]\n\tautocrlf = YES\n", Some(AutoCrlf::Enabled)),
        ("[core]\n\tautocrlf = On\n", Some(AutoCrlf::Enabled)),
        ("[core]\n\tautocrlf = 1\n", Some(AutoCrlf::Enabled)),
        ("[core]\n\tautocrlf = false\n", Some(AutoCrlf::Disabled)),
        ("[core]\n\tautocrlf = No\n", Some(AutoCrlf::Disabled)),
        ("[core]\n\tautocrlf = off\n", Some(AutoCrlf::Disabled)),
        ("[core]\n\tautocrlf =\n", Some(AutoCrlf::Disabled)),
        ("[core]\n\tautocrlf = 0\n", Some(AutoCrlf::Disabled)),
        ("[core]\n\tautocrlf = 007\n", Some(AutoCrlf::Enabled)),
        ("[core]\n\tautocrlf = +5\n", Some(AutoCrlf::Enabled)),
        ("[core]\n\tautocrlf = -1\n", Some(AutoCrlf::Enabled)),
        ("[core]\n\tautocrlf = -0\n", Some(AutoCrlf::Disabled)),
        ("[core]\n\tautocrlf = 000\n", Some(AutoCrlf::Disabled)),
        ("[core]\n\tautocrlf = 9223372036854775807\n", Some(AutoCrlf::Enabled)),
        ("[core]\n\tautocrlf = 9223372036854775808\n", None),
        ("[core]\n\tautocrlf = -9223372036854775808\n", Some(AutoCrlf::Enabled)),
        ("[core]\n\tautocrlf = -9223372036854775809\n", None),
        ("[core]\n\tautocrlf = +\n", None),
        ("[core]\n\tautocrlf = -\n", None),
        ("[core]\n\tautocrlf = +-1\n", None),
        ("[core]\n\tautocrlf = 1x\n", None),
        ("[core]\n\tautocrlf = \" 1\"\n", None),
        ("[core]\n\tautocrlf = Input\n", None),
        ("[core]\n\tautocrlf = sometimes\n", None),
        ("[core]\n\tautocrlf = true\n\tautocrlf = input\n", Some(AutoCrlf::Input)),
        ("[core]\n\teol = crlf\n[other]\n\tautocrlf = true\n", None),
    ] {
        let strategy = GitTargetEolStrategy::new(&config(text));
        assert_eq!(strategy.auto_crlf, expected, "{text:?}");
    }
}

#[test]
fn strategy_follows_the_backend() {
    assert!(matches!(
        get_target_eol_strategy(None),
        WorkingCopyStrategy::Default(_)
    ));
    let config = config("[core]\n\tautocrlf = input\n");
    match get_target_eol_strategy(Some(&config)) {
        WorkingCopyStrategy::Git(strategy) => {
            assert_eq!(strategy.auto_crlf, Some(AutoCrlf::Input));
            assert_eq!(text_of(&strategy.git_attributes, "a"), None);
        }
        WorkingCopyStrategy::Default(_) => panic!("should follow Git"),
    }
    assert_eq!(
        DefaultTargetEolStrategy.get_snapshot_reader_target_eol(),
        TargetEol::PassThrough
    );
    assert_eq!(
        DefaultTargetEolStrategy.get_update_writer_target_eol(),
        TargetEol::PassThrough
    );
}

#[test]
fn snapshots_follow_auto_crlf() {
    let text: &[u8] = b"a\r\n";
    let binary: &[u8] = b"a\0";
    for (auto_crlf, step, of_text) in [
        (None, PASS, TargetEol::PassThrough),
        (Some(AutoCrlf::Disabled), PASS, TargetEol::PassThrough),
        (Some(AutoCrlf::Input), PROBE, TargetEol::Lf),
        (Some(AutoCrlf::Enabled), PROBE, TargetEol::Lf),
    ] {
        let strategy = GitTargetEolStrategy::with_auto_crlf(auto_crlf);
        assert_eq!(strategy.get_snapshot_reader_target_eol(), step);
        assert_eq!(strategy.get_snapshot_reader_target_eol_of_probe(Some(text)), of_text);
        for content in [Some(binary), None] {
            assert_eq!(
                strategy.get_snapshot_reader_target_eol_of_probe(content),
                TargetEol::PassThrough
            );
        }
    }
}

#[test]
fn updates_follow_auto_crlf() {
    let text: &[u8] = b"a\n";
    let binary: &[u8] = b"a\rb";
    for (auto_crlf, step, of_text) in [
        (None, PASS, TargetEol::PassThrough),
        (Some(AutoCrlf::Disabled), PASS, TargetEol::PassThrough),
        (Some(AutoCrlf::Input), PASS, TargetEol::PassThrough),
        (Some(AutoCrlf::Enabled), PROBE, TargetEol::Crlf),
    ] {
        let strategy = GitTargetEolStrategy::with_auto_crlf(auto_crlf);
        for windows in [false, true] {
            assert_eq!(
                strategy.checked_update_writer_target_eol(&path("f"), windows),
                Some(step)
            );
            assert_eq!(strategy.get_update_writer_target_eol(&path("f"), windows), step);
        }
        assert_eq!(strategy.get_update_writer_target_eol_of_probe(Some(text)), of_text);
        for content in [Some(binary), None] {
            assert_eq!(
                strategy.get_update_writer_target_eol_of_probe(content),
                TargetEol::PassThrough
            );
        }
    }
}

#[test]
fn attributes_decide_before_auto_crlf() {
    let value = State::Value(b"auto".to_vec());
    let auto_crlf = Some(AutoCrlf::Enabled);
    for windows in [false, true] {
        let native = TargetEolStep::Decided(native_target_eol(windows));
        assert_eq!(
            update_step_of_attributes(Some(&State::IsSet), None, auto_crlf, windows),
            native
        );
        assert_eq!(update_step_of_attributes(None, Some(&value), auto_crlf, windows), PROBE);
        assert_eq!(
            update_step_of_attributes(Some(&State::Unspecified), None, auto_crlf, windows),
            PROBE
        );
    }
    assert_eq!(native_target_eol(true), TargetEol::Crlf);
    assert_eq!(native_target_eol(false), TargetEol::Lf);

    assert!(are_attributes_supported(None, None));
    assert!(are_attributes_supported(None, Some(&value)));
    assert!(are_attributes_supported(Some(&State::Unspecified), Some(&value)));
    assert!(are_attributes_supported(Some(&State::IsSet), None));
    assert!(!are_attributes_supported(Some(&State::IsSet), Some(&State::Unspecified)));
    assert!(!are_attributes_supported(Some(&State::Unset), None));
    assert!(!are_attributes_supported(Some(&value), None));

    let mut strategy = GitTargetEolStrategy::with_auto_crlf(auto_crlf);
    strategy.git_attributes = attributes(&[("", "*.txt text\n*.bin -text\n*.c text eol=lf\n*.md text=auto\n")]);
    let step = |at: &str| strategy.checked_update_writer_target_eol(&path(at), true);
    assert_eq!(step("a.txt"), Some(TargetEolStep::Decided(TargetEol::Crlf)));
    assert_eq!(step("a.bin"), None);
    assert_eq!(step("a.c"), None);
    assert_eq!(step("a.md"), None);
    assert_eq!(step("a.rs"), Some(PROBE));
}

#[test]
fn lines_of_an_attributes_file() {
    let file = attributes(&[(
        "",
        concat_lines(&[
            "# a comment",
            "",
            "*.txt text",
            "*.bin -text",
            "*.any !text",
            "*.auto text=auto eol=crlf",
            "*.twice text -text text=last",
            "[attr]binary text",
            "!*.neg text",
            "*.odd t\u{e9}xt text",
            "*.none diff merge",
            "  *.lead\ttext",
            "\"with space\" eol=lf",
            "plain eol",
        ])
        .as_str(),
    )]);
    assert_eq!(text_of(&file, "a.txt"), some("set"));
    assert_eq!(text_of(&file, "dir/a.txt"), some("set"));
    assert_eq!(text_of(&file, "a.bin"), some("unset"));
    assert_eq!(text_of(&file, "a.any"), some("unspecified"));
    assert_eq!(text_of(&file, "a.auto"), some("auto"));
    assert_eq!(eol_of(&file, "a.auto"), some("crlf"));
    assert_eq!(eol_of(&file, "a.txt"), None);
    assert_eq!(text_of(&file, "a.twice"), some("last"));
    assert_eq!(text_of(&file, "a.neg"), None);
    assert_eq!(text_of(&file, "a.odd"), some("set"));
    assert_eq!(text_of(&file, "a.none"), None);
    assert_eq!(text_of(&file, "a.lead"), some("set"));
    assert_eq!(eol_of(&file, "with space"), some("lf"));
    assert_eq!(eol_of(&file, "plain"), some("set"));
    assert_eq!(eol_of(&file, "dir/plain"), None);
    assert_eq!(text_of(&file, "binary"), None);
}

fn concat_lines(lines: &[&str]) -> String {
    lines.iter().map(|line| format!("{line}\n")).collect()
}

#[test]
fn the_last_line_of_the_innermost_file_counts() {
    let file = attributes(&[
        ("", "*.txt text eol=lf\n*.txt -text\n"),
        ("dir", "*.txt text=inner\n"),
        ("dir/sub", "other text\n"),
    ]);
    assert_eq!(text_of(&file, "a.txt"), some("unset"));
    assert_eq!(text_of(&file, "dir/a.txt"), some("inner"));
    assert_eq!(text_of(&file, "dir/sub/a.txt"), some("inner"));
    assert_eq!(eol_of(&file, "dir/sub/a.txt"), some("lf"));
    assert_eq!(text_of(&file, "dir/sub/other"), some("set"));
    assert_eq!(text_of(&file, "dir/other"), None);
    assert_eq!(text_of(&file, "director/a.txt"), some("unset"));
}

#[test]
fn a_file_that_says_nothing_makes_no_layer() {
    let outer = attributes(&[("", "*.txt text\n")]);
    let same = outer.chain(&path("dir"), b"# nothing\n*.txt diff\n[attr]m text\n");
    assert!(Arc::ptr_eq(&outer, &same));
    let more = outer.chain(&path("dir"), b"*.txt -text\n");
    assert!(!Arc::ptr_eq(&outer, &more));
}

#[test]
fn parsed_lines_can_be_chained() {
    let line = |text: &[u8], name: &str, state: State| ParsedLine::Pattern {
        pattern: Pattern { text: text.to_vec(), mode: 0, first_wildcard_pos: None },
        attrs: vec![None, Some(Assignment { name: name.to_string(), state })],
    };
    let file = Arc::new(GitAttributesFile::default()).chain_parsed(
        &path("dir"),
        vec![
            line(b"a", "text", State::IsSet),
            ParsedLine::Invalid,
            line(b"a", "eol", State::Value(b"lf".to_vec())),
            ParsedLine::Macro,
            line(b"b", "diff", State::Unset),
        ],
    );
    assert_eq!(text_of(&file, "dir/a"), some("set"));
    assert_eq!(eol_of(&file, "dir/a"), some("lf"));
    assert_eq!(text_of(&file, "dir/b"), None);
    assert_eq!(text_of(&file, "a"), None);
}

#[test]
fn visits_stop_at_the_first_answer() {
    let file = attributes(&[
        ("", "*.txt text=outer\n"),
        ("dir", "*.txt text=first\n*.txt eol=lf\n*.txt text=last\nx text=no\n"),
    ]);
    let mut all = vec![];
    let none: Option<()> = file.visit_matches(&path("dir/a.txt"), |line| {
        all.push(shown(line.text.as_ref()));
        None
    });
    assert!(none.is_none());
    assert_eq!(
        all,
        vec![some("last"), None, some("first"), some("outer")]
    );
    let answer = file.visit_matches(&path("dir/a.txt"), |line| line.eol.as_ref());
    assert_eq!(shown(answer), some("lf"));
}

#[test]
fn layers_come_from_the_store() {
    let strategy = GitTargetEolStrategy::with_auto_crlf(Some(AutoCrlf::Input));
    assert_eq!(
        GitTargetEolStrategy::add_dir_layer_from_store().as_internal_file_string(),
        ".gitattributes"
    );
    for lookup in [
        TreeLookup::Failed,
        TreeLookup::Conflicted,
        TreeLookup::Absent,
        TreeLookup::NotAFile,
    ] {
        match strategy.add_dir_layer_of_lookup::<u32>(&path("dir"), lookup) {
            DirLayerStep::Done(same) => {
                assert_eq!(same.auto_crlf, Some(AutoCrlf::Input));
                assert!(Arc::ptr_eq(&same.git_attributes, &strategy.git_attributes));
            }
            DirLayerStep::Read { .. } => panic!("there is no file to read"),
        }
    }
    match strategy.add_dir_layer_of_lookup(&path("dir"), TreeLookup::File(7)) {
        DirLayerStep::Read { path, id } => {
            assert_eq!(path.as_internal_file_string(), "dir/.gitattributes");
            assert_eq!(id, 7);
        }
        DirLayerStep::Done(_) => panic!("there is a file to read"),
    }
    let same = strategy.add_dir_layer_of_content(&path("dir"), None);
    assert!(Arc::ptr_eq(&same.git_attributes, &strategy.git_attributes));
    let layered = strategy.add_dir_layer_of_content(&path("dir"), Some(b"*.txt text\n"));
    assert_eq!(layered.auto_crlf, Some(AutoCrlf::Input));
    assert_eq!(text_of(&layered.git_attributes, "dir/a.txt"), some("set"));
    assert_eq!(text_of(&layered.git_attributes, "a.txt"), None);
}
