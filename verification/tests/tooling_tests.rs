use code_editor_core::tooling::{
    HostOs, OhosCommand, OpenHarmonyTarget, build, deveco, get_deveco_sdk_home, get_hdc_path,
    get_hvigor_home, get_node_home, get_node_path, get_ohpm_home, get_sdk_home,
    handle_open_harmony,
};

fn strings(v: &[&str]) -> Vec<String> {
    v.iter().map(|s| s.to_string()).collect()
}

#[test]
fn toolchain_triple_of_aarch64() {
    assert_eq!(OpenHarmonyTarget::aarch64.toolchain(), "aarch64-unknown-linux-ohos");
}

#[test]
fn deveco_installation_paths() {
    let host = HostOs::LinuxX64;
    assert_eq!(
        get_sdk_home("/opt/deveco", &host).unwrap(),
        "/opt/deveco/sdk/HarmonyOS-NEXT-DB2/openharmony"
    );
    assert_eq!(get_deveco_sdk_home("/opt/deveco", &host).unwrap(), "/opt/deveco/sdk");
    assert_eq!(get_node_home("/opt/deveco", &host).unwrap(), "/opt/deveco/tool/node");
    assert_eq!(get_node_path("/opt/deveco", &host).unwrap(), "/opt/deveco/tool/node/bin/node");
    assert_eq!(get_ohpm_home("/opt/deveco", &host).unwrap(), "/opt/deveco/ohpm");
    assert_eq!(get_hvigor_home("/opt/deveco", &host).unwrap(), "/opt/deveco/hvigor");
    assert_eq!(
        get_hdc_path("/opt/deveco", &host).unwrap(),
        "/opt/deveco/sdk/HarmonyOS-NEXT-DB2/openharmony/toolchains"
    );
}

#[test]
fn deveco_without_home_is_rejected() {
    let r = deveco(&None, &vec![], &HostOs::LinuxX64, &vec![OpenHarmonyTarget::aarch64]);
    assert_eq!(r.unwrap_err(), "--deveco-home is not specified");
}

#[test]
fn deveco_plans_the_cross_compilation() {
    let home = Some(String::from("/opt/deveco"));
    let args = vec![String::from("--release")];
    let plan = deveco(&home, &args, &HostOs::LinuxX64, &vec![OpenHarmonyTarget::aarch64])
        .unwrap();
    assert_eq!(plan.sdk_home, "/opt/deveco/sdk/HarmonyOS-NEXT-DB2/openharmony");
    assert_eq!(
        plan.cc_path,
        "/opt/deveco/sdk/HarmonyOS-NEXT-DB2/openharmony/native/llvm/bin/aarch64-unknown-linux-ohos-clang"
    );
    assert_eq!(
        plan.cxx_path,
        "/opt/deveco/sdk/HarmonyOS-NEXT-DB2/openharmony/native/llvm/bin/aarch64-unknown-linux-ohos-clang++"
    );
    assert_eq!(
        plan.ar_path,
        "/opt/deveco/sdk/HarmonyOS-NEXT-DB2/openharmony/native/llvm/bin/llvm-ar"
    );
    assert_eq!(
        plan.ranlib_path,
        "/opt/deveco/sdk/HarmonyOS-NEXT-DB2/openharmony/native/llvm/bin/llvm-ranlib"
    );
    assert_eq!(plan.target_opts, vec![String::from("--target=aarch64-unknown-linux-ohos")]);
    assert_eq!(plan.cargo_extra_args, args);
}

#[test]
fn build_plans_compilation_and_packaging() {
    let home = Some(String::from("/opt/deveco"));
    let plan = build(&home, &vec![], &HostOs::LinuxX64, &vec![OpenHarmonyTarget::aarch64])
        .unwrap();
    assert_eq!(plan.node_home, "/opt/deveco/tool/node");
    assert_eq!(plan.deveco_sdk_home, "/opt/deveco/sdk");
    assert_eq!(plan.node_path, "/opt/deveco/tool/node/bin/node");
    assert_eq!(plan.hvigor_home, "/opt/deveco/hvigor");
    assert_eq!(plan.hvigorw_path, "/opt/deveco/hvigor/bin/hvigorw.js");
    assert_eq!(plan.compile.sdk_home, "/opt/deveco/sdk/HarmonyOS-NEXT-DB2/openharmony");
}

#[test]
fn build_without_home_is_rejected() {
    let r = build(&None, &vec![], &HostOs::LinuxX64, &vec![OpenHarmonyTarget::aarch64]);
    assert_eq!(r.unwrap_err(), "--deveco-home is not specified");
}

#[test]
fn command_toolchain_install_is_recognised() {
    let r = handle_open_harmony(&strings(&["toolchain-install"]), None, &HostOs::LinuxX64);
    assert!(matches!(r, Ok(OhosCommand::ToolchainInstall)));
    let r2 = handle_open_harmony(&strings(&["install-toolchain"]), None, &HostOs::LinuxX64);
    assert!(matches!(r2, Ok(OhosCommand::ToolchainInstall)));
}

#[test]
fn command_build_takes_home_from_the_option() {
    let args = strings(&["--deveco-home=/opt/deveco", "build", "--release"]);
    match handle_open_harmony(&args, None, &HostOs::LinuxX64) {
        Ok(OhosCommand::Build(plan)) => {
            assert_eq!(plan.compile.sdk_home, "/opt/deveco/sdk/HarmonyOS-NEXT-DB2/openharmony");
            assert_eq!(plan.compile.cargo_extra_args, strings(&["--release"]));
        },
        other => panic!("unexpected: {:?}", other),
    }
}

#[test]
fn command_build_falls_back_to_the_environment_home() {
    let args = strings(&["build"]);
    match handle_open_harmony(&args, Some(String::from("/env/deveco")), &HostOs::LinuxX64) {
        Ok(OhosCommand::Build(plan)) => {
            assert_eq!(plan.node_home, "/env/deveco/tool/node");
        },
        other => panic!("unexpected: {:?}", other),
    }
}

#[test]
fn the_last_home_option_wins() {
    let args = strings(&["--deveco-home=/first", "--deveco-home=/second", "build"]);
    match handle_open_harmony(&args, None, &HostOs::LinuxX64) {
        Ok(OhosCommand::Build(plan)) => {
            assert_eq!(plan.deveco_sdk_home, "/second/sdk");
        },
        other => panic!("unexpected: {:?}", other),
    }
}

#[test]
fn command_build_without_any_home_is_rejected() {
    let r = handle_open_harmony(&strings(&["build"]), None, &HostOs::LinuxX64);
    assert_eq!(r.unwrap_err(), "--deveco-home is not specified");
}

#[test]
fn missing_and_unknown_commands_are_rejected() {
    let none = handle_open_harmony(&strings(&[]), None, &HostOs::LinuxX64);
    assert_eq!(none.unwrap_err(), "not enough args");
    let only_opt = handle_open_harmony(
        &strings(&["--deveco-home=/opt/deveco"]),
        None,
        &HostOs::LinuxX64,
    );
    assert_eq!(only_opt.unwrap_err(), "not enough args");
    let unknown = handle_open_harmony(&strings(&["frobnicate"]), None, &HostOs::LinuxX64);
    assert_eq!(unknown.unwrap_err(), "frobnicate is not a valid command or option");
}
