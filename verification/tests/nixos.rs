use noah::nixos::{
    build_elevation, build_plan, BuildOpts, BuildVariant, BuildVmOpts, DiffType, NixBuildPassthroughArgs, OsSubcmd,
};

fn passthrough() -> NixBuildPassthroughArgs {
    NixBuildPassthroughArgs {
        max_jobs: None,
        cores: None,
        keep_going: false,
        keep_failed: false,
        print_build_logs: false,
        show_trace: false,
        offline: false,
    }
}

fn opts(dry: bool, hostname: Option<&str>, target_host: Option<&str>) -> BuildOpts {
    BuildOpts {
        dry,
        diff: DiffType::default(),
        passthrough: passthrough(),
        hostname: hostname.map(String::from),
        extra_args: Vec::new(),
        target_host: target_host.map(String::from),
        builders: None,
    }
}

#[test]
fn passthrough_flags_in_fixed_order() {
    let mut p = passthrough();
    p.max_jobs = Some(8);
    p.cores = Some(2);
    p.keep_going = true;
    p.offline = true;
    assert_eq!(p.generate_passthrough_args(), ["--max-jobs", "8", "--cores", "2", "--keep-going", "--offline"]);
    assert!(passthrough().generate_passthrough_args().is_empty());
}

#[test]
fn subcommands_map_to_build_variants() {
    assert_eq!(OsSubcmd::Switch(opts(false, None, None)).variant(), Some(BuildVariant::Switch));
    assert_eq!(
        OsSubcmd::Vm(BuildVmOpts { common: opts(false, None, None), with_bootloader: true }).variant(),
        Some(BuildVariant::VmWithBootloader)
    );
    assert_eq!(OsSubcmd::Update { no_commit: true }.variant(), None);
    assert_eq!(BuildVariant::Vm.attr(), "vm");
    assert_eq!(BuildVariant::Boot.attr(), "toplevel");
}

#[test]
fn build_root_guard() {
    assert_eq!(build_elevation(true, true), Ok(false));
    assert_eq!(build_elevation(false, false), Ok(true));
    assert_eq!(
        build_elevation(false, true).unwrap_err(),
        "Don't run nh os as root. I will call sudo internally as needed"
    );
}

#[test]
fn switch_plan_activates_and_copies() {
    let plan = build_plan(&opts(false, None, Some("root@box")), BuildVariant::Switch, "/etc/nixos", "laptop", "/nix/store/x");
    assert_eq!(plan.drv, "/etc/nixos#nixosConfigurations.laptop.config.system.build.toplevel");
    assert_eq!(plan.message, "Building NixOS configuration");
    assert!(plan.temporary_out_link);
    assert!(plan.activate_test && plan.activate_boot);
    assert_eq!(plan.copy_args.unwrap(), ["copy", "--to", "ssh://root@box", "/nix/store/x"]);
}

#[test]
fn dry_and_build_only_plans_do_nothing_after_the_build() {
    let dry = build_plan(&opts(true, Some("server"), Some("box")), BuildVariant::Switch, ".", "laptop", "/p");
    assert_eq!(dry.drv, ".#nixosConfigurations.server.config.system.build.toplevel");
    assert!(!dry.activate_test && !dry.activate_boot && dry.copy_args.is_none());
    let vm = build_plan(&opts(false, None, Some("box")), BuildVariant::Vm, ".", "laptop", "/p");
    assert_eq!(vm.message, "Building NixOS VM image");
    assert!(!vm.temporary_out_link);
    assert!(vm.copy_args.is_none());
}

#[test]
fn vm_with_bootloader_is_still_copied_to_the_target() {
    let plan = build_plan(&opts(false, None, Some("box")), BuildVariant::VmWithBootloader, ".", "laptop", "/p");
    assert_eq!(plan.drv, ".#nixosConfigurations.laptop.config.system.build.vmWithBootLoader");
    assert!(plan.temporary_out_link);
    assert!(!plan.activate_test && !plan.activate_boot);
    assert_eq!(plan.copy_args.unwrap(), ["copy", "--to", "ssh://box", "/p"]);
}

#[test]
fn auto_diff_is_shown_only_for_this_machine() {
    let local = build_plan(&opts(false, None, None), BuildVariant::Switch, ".", "laptop", "/p");
    assert!(local.show_diff);
    let named_self = build_plan(&opts(false, Some("laptop"), None), BuildVariant::Switch, ".", "laptop", "/p");
    assert!(named_self.show_diff);
    let other = build_plan(&opts(false, Some("server"), None), BuildVariant::Switch, ".", "laptop", "/p");
    assert!(!other.show_diff);
    let deployed = build_plan(&opts(false, None, Some("box")), BuildVariant::Switch, ".", "laptop", "/p");
    assert!(!deployed.show_diff);
    let mut always = opts(false, Some("server"), Some("box"));
    always.diff = DiffType::Always;
    assert!(build_plan(&always, BuildVariant::Switch, ".", "laptop", "/p").show_diff);
    let mut never = opts(false, None, None);
    never.diff = DiffType::Never;
    assert!(!build_plan(&never, BuildVariant::Switch, ".", "laptop", "/p").show_diff);
}
