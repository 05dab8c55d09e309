use noah::clean::{
    gc_args, gcroot_step, generation_number, is_generation_link, profiles_in_dir, render_header, tag_generations,
    scope_start, AccessOutcome, CleanPlan, Scope, ScopeStart, GcRootFacts, GcRootStep, GcRootTagged, Generation, Options, Tone,
};

const SEC: i64 = 1_000_000_000;

fn options() -> Options {
    Options {
        keep: 1,
        keep_since: 0,
        dry: false,
        ask: false,
        no_gc: false,
        no_gcroots: false,
        no_direnv: false,
        optimise: false,
        max: None,
        keep_one: false,
        cross_filesystems: false,
    }
}

fn gen(number: u32, last_modified: i64) -> Generation {
    Generation { number, last_modified, path: format!("/nix/var/nix/profiles/system-{number}-link") }
}

#[test]
fn generation_numbers_belong_to_their_profile() {
    assert_eq!(generation_number("system", "system-42-link"), Ok(Some(42)));
    assert_eq!(generation_number("system", "home-manager-3-link"), Ok(None));
    assert_eq!(generation_number("system", "system"), Ok(None));
    assert!(generation_number("system", "system-99999999999-link").unwrap_err().starts_with("Failed to parse generation number: "));
    assert!(is_generation_link("system-1-link"));
    assert!(!is_generation_link("system"));
}

#[test]
fn newest_generations_are_kept() {
    let gens = vec![gen(3, 30 * SEC), gen(1, 10 * SEC), gen(2, 20 * SEC)];
    let tagged = tag_generations(gens, 1, 0, 100 * SEC);
    let numbers: Vec<u32> = tagged.iter().map(|(g, _)| g.number).collect();
    assert_eq!(numbers, [1, 2, 3]);
    let flags: Vec<bool> = tagged.iter().map(|(_, t)| *t).collect();
    assert_eq!(flags, [true, true, false]);
}

#[test]
fn recent_generations_are_kept() {
    let gens = vec![gen(1, 10 * SEC), gen(2, 95 * SEC), gen(3, 99 * SEC)];
    let tagged = tag_generations(gens, 0, (10 * SEC) as u128, 100 * SEC);
    let flags: Vec<bool> = tagged.iter().map(|(_, t)| *t).collect();
    assert_eq!(flags, [true, false, false]);
}

#[test]
fn keeping_more_than_exist_removes_nothing() {
    let gens = vec![gen(1, 0), gen(2, 0)];
    let tagged = tag_generations(gens, 5, 0, 100 * SEC);
    assert!(tagged.iter().all(|(_, t)| !t));
}

#[test]
fn gcroot_decision_asks_for_each_observation_in_turn() {
    let opts = options();
    let src = "/nix/var/nix/gcroots/auto/example";
    let dst = "/home/user/project/result";
    let mut facts = GcRootFacts { present: None, access: None, readable: None, resolved_dst: None, age: None };
    assert!(matches!(gcroot_step(src, dst, &facts, &opts), GcRootStep::NeedPresence));
    facts.present = Some(true);
    assert!(matches!(gcroot_step(src, dst, &facts, &opts), GcRootStep::NeedAccess));
    facts.access = Some(AccessOutcome::Granted);
    assert!(matches!(gcroot_step(src, dst, &facts, &opts), GcRootStep::NeedReadable));
    facts.readable = Some(true);
    assert!(matches!(gcroot_step(src, dst, &facts, &opts), GcRootStep::NeedResolved));
    facts.resolved_dst = Some("/nix/store/abc-hello".to_string());
    assert!(matches!(gcroot_step(src, dst, &facts, &opts), GcRootStep::NeedAge));
    facts.age = Some(Some(5));
    assert!(matches!(gcroot_step(src, dst, &facts, &opts), GcRootStep::Tag(true)));
    facts.age = Some(None);
    assert!(matches!(gcroot_step(src, dst, &facts, &opts), GcRootStep::Skip));
}

#[test]
fn gcroot_decision_for_missing_and_refused_targets() {
    let opts = options();
    let missing = GcRootFacts { present: Some(false), access: None, readable: None, resolved_dst: None, age: None };
    assert!(matches!(gcroot_step("/r", "/gone", &missing, &opts), GcRootStep::Orphan));
    let refused = GcRootFacts {
        present: Some(true),
        access: Some(AccessOutcome::Refused),
        readable: None,
        resolved_dst: None,
        age: None,
    };
    assert!(matches!(gcroot_step("/r", "/ro", &refused, &opts), GcRootStep::Skip));
    let odd = GcRootFacts {
        present: Some(true),
        access: Some(AccessOutcome::Other("boom".to_string())),
        readable: None,
        resolved_dst: None,
        age: None,
    };
    match gcroot_step("/r", "/x", &odd, &opts) {
        GcRootStep::Fail(m) => assert_eq!(m, "Checking access for gcroot \"/x\", unknown error: boom"),
        other => panic!("unexpected {other:?}"),
    }
}

#[test]
fn kept_direnv_roots_stay() {
    let mut opts = options();
    opts.keep_one = true;
    let facts = GcRootFacts {
        present: Some(true),
        access: Some(AccessOutcome::Granted),
        readable: Some(true),
        resolved_dst: Some("/home/u/p/.direnv/x".to_string()),
        age: Some(Some(1_000_000)),
    };
    assert!(matches!(gcroot_step("/r", "/home/u/p/.direnv/x", &facts, &opts), GcRootStep::Tag(false)));
}

#[test]
fn removals_follow_the_plan() {
    let plan = CleanPlan {
        profiles: vec![(
            "/nix/var/nix/profiles/system".to_string(),
            vec![(gen(1, 0), true), (gen(2, 0), true), (gen(3, 0), false)],
        )],
        gcroots: vec![
            GcRootTagged { src: "/root/a".to_string(), dst: "/x".to_string(), tbr: true },
            GcRootTagged { src: "/root/b".to_string(), dst: "/y".to_string(), tbr: false },
        ],
        orphan_gcroots: vec!["/root/c".to_string()],
    };
    let opts = options();
    assert_eq!(
        plan.removals(&opts),
        ["/root/a", "/root/c", "/nix/var/nix/profiles/system-2-link", "/nix/var/nix/profiles/system-1-link"]
    );
    let mut dry = options();
    dry.dry = true;
    assert!(plan.removals(&dry).is_empty());
    let body = plan.render_body(&vec![".*/(?:\\.direnv|direnv/layouts)/.*".to_string()]);
    assert!(!body.is_empty());
}

#[test]
fn garbage_collection_arguments() {
    let mut opts = options();
    assert_eq!(gc_args(&opts).unwrap(), ["store", "gc"]);
    opts.max = Some("10G".to_string());
    assert_eq!(gc_args(&opts).unwrap(), ["store", "gc", "--max", "10G"]);
    opts.no_gc = true;
    assert_eq!(gc_args(&opts), None);
}

#[test]
fn header_lists_the_options_in_effect() {
    let mut opts = options();
    opts.keep = 3;
    opts.no_direnv = true;
    opts.keep_since = 86_400 * 1_000_000_000 + 90 * 60 * 1_000_000_000;
    let lines = render_header(&opts);
    assert_eq!(lines[1][0].tone, Tone::Bold);
    assert_eq!(lines[1][0].text, "Welcome to nh clean");
    assert_eq!(lines[2][1].text, "3");
    assert_eq!(lines[3][1].text, "1day 1h 30m");
    let zero = render_header(&options());
    assert_eq!(zero[3][1].text, "0s");
    assert_eq!(lines[4][0].text, "Skipping all direnv gcroots");
}

#[test]
fn profiles_are_the_links_to_generations() {
    let entries = vec![
        ("/nix/var/nix/profiles/system".to_string(), Some("system-42-link".to_string())),
        ("/nix/var/nix/profiles/system-42-link".to_string(), Some("/nix/store/abc".to_string())),
        ("/nix/var/nix/profiles/per-user".to_string(), None),
    ];
    assert_eq!(profiles_in_dir(&entries), ["/nix/var/nix/profiles/system"]);
}

fn no_facts() -> GcRootFacts {
    GcRootFacts { present: None, access: None, readable: None, resolved_dst: None, age: None }
}

#[test]
fn missing_path_triggers_case_a_condition() {
    let dir = tempfile::tempdir().expect("tempdir");
    let gone = dir.path().join("gone");
    assert!(!gone.is_symlink() && !gone.exists());
    let facts = GcRootFacts { present: Some(gone.is_symlink() || gone.exists()), ..no_facts() };
    let dst = gone.to_string_lossy();
    assert!(matches!(gcroot_step("/nix/var/nix/gcroots/auto/x", &dst, &facts, &options()), GcRootStep::Orphan));
}

#[test]
fn scopes_start_as_their_user_allows() {
    assert!(matches!(scope_start(&Scope::All, false), ScopeStart::SelfElevate));
    assert!(matches!(scope_start(&Scope::All, true), ScopeStart::Proceed));
    assert!(matches!(scope_start(&Scope::User, false), ScopeStart::Proceed));
    match scope_start(&Scope::User, true) {
        ScopeStart::Refuse(m) => assert_eq!(m, "nh clean user: don't run me as root!"),
        other => panic!("expected a refusal, got {other:?}"),
    }
    assert!(matches!(scope_start(&Scope::Profile("/p".to_string()), true), ScopeStart::Proceed));
}

#[test]
fn profiles_are_recorded_once() {
    let mut plan = CleanPlan { profiles: Vec::new(), gcroots: Vec::new(), orphan_gcroots: Vec::new() };
    plan.insert_profile("/a".to_string(), vec![(gen(1, 0), true)]);
    plan.insert_profile("/b".to_string(), vec![]);
    plan.insert_profile("/a".to_string(), vec![(gen(2, 0), false)]);
    let keys: Vec<&str> = plan.profiles.iter().map(|(k, _)| k.as_str()).collect();
    assert_eq!(keys, ["/a", "/b"]);
    assert_eq!(plan.profiles[0].1.len(), 1);
    assert_eq!(plan.profiles[0].1[0].0.number, 2);
}
