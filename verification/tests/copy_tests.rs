use wow_profile_copy::copy::{Action, CopyError, CopyJob, Event};
use wow_profile_copy::operation::Operation;
use wow_profile_copy::wow::{Install, Version, Wtf};

fn wtf(account: &str, realm: &str, character: &str) -> Wtf {
    Wtf {
        account: account.to_string(),
        realm: realm.to_string(),
        character: character.to_string(),
        has_saved_variables: true,
    }
}

fn version(name: &str, wtfs: Vec<Wtf>) -> Version {
    Version { name: name.to_string(), wtfs }
}

fn ready_op(src: Wtf, dst: Wtf) -> Operation {
    let ver = version("_retail_", vec![src.clone(), dst.clone()]);
    Operation {
        install: Some(Install { install_dir: "/wow".to_string(), versions: vec![ver.clone()] }),
        src_ver: Some(ver.clone()),
        src_wtf: Some(src),
        dst_ver: Some(ver),
        dst_wtf: Some(dst),
        copy_logs: None,
    }
}

fn segments(p: &wow_profile_copy::copy::RelPath) -> Vec<String> {
    p.segments.clone()
}

/// Drives a job to its end, answering each action through `answer`, and
/// returns the transcript.
fn run_with(job: &mut CopyJob, mut answer: impl FnMut(&Action) -> Event) -> Vec<String> {
    let mut guard = 0;
    while let Some(a) = job.next_action() {
        let e = answer(&a);
        job.step(e);
        guard += 1;
        assert!(guard < 1000, "the engine failed to terminate");
    }
    job.transcript().clone()
}

/// Answers every action as if the filesystem were fully cooperative and
/// every saved-variables listing held the given names.
fn cooperative(lua: Vec<&'static str>) -> impl FnMut(&Action) -> Event {
    move |a: &Action| match a {
        Action::CopyFile { .. } => Event::Copied(Ok(())),
        Action::ListDir { .. } => {
            Event::Listed(Ok(lua.iter().map(|s| s.to_string()).collect()))
        }
        Action::ProbeDir { .. } => Event::Probed(Ok(true)),
        Action::CreateDirAll { .. } => Event::Created(Ok(())),
        Action::RemoveFile { .. } => Event::Removed(Ok(())),
    }
}

#[test]
fn copy_not_ready_is_refused() {
    let mut op = ready_op(wtf("A", "R", "C"), wtf("B", "R", "C"));
    op.dst_wtf = None;
    assert!(matches!(CopyJob::new(&op), Err(CopyError::NotReady)));
    let empty = Operation {
        install: None,
        src_ver: None,
        src_wtf: None,
        dst_ver: None,
        dst_wtf: None,
        copy_logs: None,
    };
    assert!(matches!(CopyJob::new(&empty), Err(CopyError::NotReady)));
}

#[test]
fn copy_same_account_skips_account_phase() {
    let op = ready_op(wtf("ACC", "R1", "C1"), wtf("ACC", "R2", "C2"));
    let mut job = CopyJob::new(&op).unwrap();
    // the skip note is already the first transcript line
    assert_eq!(job.transcript()[0], "skipping account copy - accounts are the same");

    // every action issued stays below a character directory
    let mut actions: Vec<Vec<String>> = Vec::new();
    let log = run_with(&mut job, |a| {
        let paths: Vec<Vec<String>> = match a {
            Action::CopyFile { src, dst, .. } => vec![segments(src), segments(dst)],
            Action::ListDir { dir }
            | Action::ProbeDir { dir }
            | Action::CreateDirAll { dir } => vec![segments(dir)],
            Action::RemoveFile { path, .. } => vec![segments(path)],
        };
        actions.extend(paths);
        cooperative(vec![])(a)
    });
    assert!(!actions.is_empty());
    for p in &actions {
        // below a character directory: version/WTF/Account/account/realm/character/...
        assert!(p.len() >= 7, "account-scope path issued: {:?}", p);
        assert_eq!(p[1], "WTF");
        assert_eq!(p[2], "Account");
    }
    assert_eq!(log[0], "skipping account copy - accounts are the same");
    assert!(!job.is_aborted());
}

#[test]
fn copy_missing_destination_sv_dir_is_created() {
    let op = ready_op(wtf("A", "R1", "C1"), wtf("B", "R2", "C2"));
    let mut job = CopyJob::new(&op).unwrap();
    let mut created: Vec<Vec<String>> = Vec::new();
    let log = run_with(&mut job, |a| match a {
        Action::CopyFile { .. } => Event::Copied(Ok(())),
        Action::ListDir { .. } => Event::Listed(Ok(vec!["Foo.lua".to_string()])),
        Action::ProbeDir { .. } => Event::Probed(Ok(false)),
        Action::CreateDirAll { dir } => {
            created.push(segments(dir));
            Event::Created(Ok(()))
        }
        Action::RemoveFile { .. } => Event::Removed(Ok(())),
    });
    assert_eq!(
        created,
        vec![vec![
            "_retail_".to_string(),
            "WTF".to_string(),
            "Account".to_string(),
            "B".to_string(),
            "R2".to_string(),
            "C2".to_string(),
            "SavedVariables".to_string(),
        ]]
    );
    assert!(log.contains(&
        "destination saved-variables directory missing, creating: /wow/_retail_/WTF/Account/B/R2/C2/SavedVariables"
            .to_string()));
    // the copy into the fresh directory still happened
    assert!(log.contains(&"copied Foo.lua".to_string()));
    assert!(!job.is_aborted());
}

#[test]
fn copy_repeated_run_gives_identical_transcript() {
    let op = ready_op(wtf("A", "R1", "C1"), wtf("B", "R2", "C2"));
    let mut j1 = CopyJob::new(&op).unwrap();
    let mut j2 = CopyJob::new(&op).unwrap();
    let l1 = run_with(&mut j1, cooperative(vec!["a.lua", "b.lua"]));
    let l2 = run_with(&mut j2, cooperative(vec!["a.lua", "b.lua"]));
    assert_eq!(l1, l2);
}

#[test]
fn copy_outcomes_change_text_but_not_course() {
    let op = ready_op(wtf("A", "R1", "C1"), wtf("B", "R2", "C2"));
    let mut ok_actions: Vec<usize> = Vec::new();
    let mut err_actions: Vec<usize> = Vec::new();

    let mut j1 = CopyJob::new(&op).unwrap();
    let l1 = run_with(&mut j1, |a| {
        ok_actions.push(match a {
            Action::CopyFile { .. } => 0,
            Action::ListDir { .. } => 1,
            Action::ProbeDir { .. } => 2,
            Action::CreateDirAll { .. } => 3,
            Action::RemoveFile { .. } => 4,
        });
        cooperative(vec!["x.lua"])(a)
    });

    let mut j2 = CopyJob::new(&op).unwrap();
    let l2 = run_with(&mut j2, |a| {
        err_actions.push(match a {
            Action::CopyFile { .. } => 0,
            Action::ListDir { .. } => 1,
            Action::ProbeDir { .. } => 2,
            Action::CreateDirAll { .. } => 3,
            Action::RemoveFile { .. } => 4,
        });
        match a {
            // every per-item operation fails; listings and probes succeed
            Action::CopyFile { .. } => Event::Copied(Err("gone".to_string())),
            Action::ListDir { .. } => Event::Listed(Ok(vec!["x.lua".to_string()])),
            Action::ProbeDir { .. } => Event::Probed(Ok(true)),
            Action::CreateDirAll { .. } => Event::Created(Ok(())),
            Action::RemoveFile { .. } => Event::Removed(Err("absent".to_string())),
        }
    });

    // the same actions were requested in the same order
    assert_eq!(ok_actions, err_actions);
    // the transcripts have the same length; only outcome text differs
    assert_eq!(l1.len(), l2.len());
    assert_eq!(l1[0], "copied bindings-cache.wtf");
    assert_eq!(l2[0], "error copying bindings-cache.wtf: gone");
}

#[test]
fn copy_fatal_listing_aborts_with_final_line() {
    let op = ready_op(wtf("A", "R1", "C1"), wtf("B", "R2", "C2"));
    let mut job = CopyJob::new(&op).unwrap();
    let log = run_with(&mut job, |a| match a {
        Action::CopyFile { .. } => Event::Copied(Ok(())),
        Action::ListDir { .. } => Event::Listed(Err("permission denied".to_string())),
        Action::ProbeDir { .. } => Event::Probed(Ok(true)),
        Action::CreateDirAll { .. } => Event::Created(Ok(())),
        Action::RemoveFile { .. } => Event::Removed(Ok(())),
    });
    assert!(job.is_aborted());
    assert!(job.finished());
    // the four account-file lines were kept, then the abort line closes it
    assert_eq!(log.len(), 5);
    assert_eq!(log[4], "aborted: permission denied");
    assert!(job.next_action().is_none());
}

#[test]
fn copy_fatal_create_aborts() {
    let op = ready_op(wtf("ACC", "R1", "C1"), wtf("ACC", "R2", "C2"));
    let mut job = CopyJob::new(&op).unwrap();
    let log = run_with(&mut job, |a| match a {
        Action::CopyFile { .. } => Event::Copied(Ok(())),
        Action::ListDir { .. } => Event::Listed(Ok(vec![])),
        Action::ProbeDir { .. } => Event::Probed(Ok(false)),
        Action::CreateDirAll { .. } => Event::Created(Err("read-only".to_string())),
        Action::RemoveFile { .. } => Event::Removed(Ok(())),
    });
    assert!(job.is_aborted());
    assert_eq!(log.last().unwrap(), "aborted: read-only");
}

#[test]
fn copy_lua_filter_applies_to_listings() {
    let op = ready_op(wtf("A", "R1", "C1"), wtf("B", "R2", "C2"));
    let mut job = CopyJob::new(&op).unwrap();
    let mut copied_names: Vec<String> = Vec::new();
    run_with(&mut job, |a| match a {
        Action::CopyFile { name, .. } => {
            copied_names.push(name.clone());
            Event::Copied(Ok(()))
        }
        Action::ListDir { .. } => Event::Listed(Ok(vec![
            "a.lua".to_string(),
            "b.txt".to_string(),
            ".lua".to_string(),
            "c.lua".to_string(),
            "cache.md5".to_string(),
        ])),
        Action::ProbeDir { .. } => Event::Probed(Ok(true)),
        Action::CreateDirAll { .. } => Event::Created(Ok(())),
        Action::RemoveFile { .. } => Event::Removed(Ok(())),
    });
    // per listing (account and character), only the two .lua files came over
    let lua_copies: Vec<&String> =
        copied_names.iter().filter(|n| n.ends_with(".lua")).collect();
    assert_eq!(lua_copies, vec!["a.lua", "c.lua", "a.lua", "c.lua"]);
}

#[test]
fn copy_example_scenario_across_accounts() {
    // installation: _retail_/WTF/Account/ACC1/REALM1/CHAR1/SavedVariables/Foo.lua
    // and an empty  _retail_/WTF/Account/ACC2/REALM2/CHAR2/SavedVariables
    let op = ready_op(wtf("ACC1", "REALM1", "CHAR1"), wtf("ACC2", "REALM2", "CHAR2"));
    let mut job = CopyJob::new(&op).unwrap();
    let log = run_with(&mut job, |a| match a {
        // none of the allow-listed files exists in the fixture
        Action::CopyFile { name, .. } => {
            if name.ends_with(".lua") {
                Event::Copied(Ok(()))
            } else {
                Event::Copied(Err("No such file or directory".to_string()))
            }
        }
        Action::ListDir { dir } => {
            // the character-level SavedVariables of ACC1 holds Foo.lua;
            // the account-level one is empty
            if segments(dir).contains(&"CHAR1".to_string()) {
                Event::Listed(Ok(vec!["Foo.lua".to_string()]))
            } else {
                Event::Listed(Ok(vec![]))
            }
        }
        Action::ProbeDir { .. } => Event::Probed(Ok(true)),
        Action::CreateDirAll { .. } => Event::Created(Ok(())),
        Action::RemoveFile { .. } => Event::Removed(Err("No such file or directory".to_string())),
    });
    // account phase ran: four allow-list errors, then the account cache line
    assert_eq!(log[0], "error copying bindings-cache.wtf: No such file or directory");
    assert_eq!(log[1], "error copying config-cache.wtf: No such file or directory");
    assert_eq!(log[2], "error copying macros-cache.txt: No such file or directory");
    assert_eq!(log[3], "error copying edit-mode-cache-account.txt: No such file or directory");
    assert_eq!(log[4], "error removing cache.md5: No such file or directory");
    // character phase: five allow-list errors, the copied saved variables,
    // and the final cache line
    assert_eq!(log[5], "error copying AddOns.txt: No such file or directory");
    assert!(log.contains(&"copied Foo.lua".to_string()));
    assert_eq!(log.last().unwrap(), "error removing cache.md5: No such file or directory");
    assert!(!job.is_aborted());
    assert!(job.finished());
}

#[test]
fn copy_account_files_order_and_names() {
    let op = ready_op(wtf("A", "R1", "C1"), wtf("B", "R2", "C2"));
    let mut job = CopyJob::new(&op).unwrap();
    let mut names: Vec<String> = Vec::new();
    let mut first_src: Option<Vec<String>> = None;
    run_with(&mut job, |a| match a {
        Action::CopyFile { src, name, .. } => {
            if first_src.is_none() {
                first_src = Some(segments(src));
            }
            names.push(name.clone());
            Event::Copied(Ok(()))
        }
        Action::ListDir { .. } => Event::Listed(Ok(vec![])),
        Action::ProbeDir { .. } => Event::Probed(Ok(true)),
        Action::CreateDirAll { .. } => Event::Created(Ok(())),
        Action::RemoveFile { .. } => Event::Removed(Ok(())),
    });
    assert_eq!(
        names,
        vec![
            "bindings-cache.wtf",
            "config-cache.wtf",
            "macros-cache.txt",
            "edit-mode-cache-account.txt",
            "AddOns.txt",
            "config-cache.wtf",
            "layout-local.txt",
            "macros-cache.txt",
            "edit-mode-cache-character.txt",
        ]
    );
    assert_eq!(
        first_src.unwrap(),
        vec!["_retail_", "WTF", "Account", "A", "bindings-cache.wtf"]
    );
}
