use vstd::prelude::*;
use vstd::string::{StrSliceExecFns, StringExecFns};

verus! {

/// The host platforms the build tool distinguishes.
#[derive(Clone, Copy, PartialEq, Eq, Structural, Debug)]
pub enum HostOs {
    WindowsX64,
    MacosX64,
    LinuxX64,
    Unsupported,
}

/// The device targets an OpenHarmony package can be built for.
#[allow(non_camel_case_types)]
#[derive(Clone, Copy, PartialEq, Eq, Structural, Debug)]
pub enum OpenHarmonyTarget {
    aarch64,
}

/// The Rust target triple of an OpenHarmony device target.
pub open spec fn spec_toolchain(t: OpenHarmonyTarget) -> Seq<char> {
    "aarch64-unknown-linux-ohos"@
}

impl OpenHarmonyTarget {
    /// The Rust target triple to build for.
    pub fn toolchain(&self) -> (r: &'static str)
        ensures
            r@ == spec_toolchain(*self),
    {
        match self {
            Self::aarch64 => "aarch64-unknown-linux-ohos",
        }
    }
}

/// The paths below mirror the layout of a DevEco Studio installation;
/// each is the installation root followed by a fixed relative path.  Only
/// the Linux host layout is known.
pub fn get_sdk_home(deveco_home: &str, host_os: &HostOs) -> (r: Result<String, String>)
    requires
        *host_os == HostOs::LinuxX64,
    ensures
        r matches Ok(p) && p@ == deveco_home@ + "/sdk/HarmonyOS-NEXT-DB2/openharmony"@,
{
    Ok(String::from_str(deveco_home).concat("/sdk/HarmonyOS-NEXT-DB2/openharmony"))
}

pub fn get_deveco_sdk_home(deveco_home: &str, host_os: &HostOs) -> (r: Result<String, String>)
    requires
        *host_os == HostOs::LinuxX64,
    ensures
        r matches Ok(p) && p@ == deveco_home@ + "/sdk"@,
{
    Ok(String::from_str(deveco_home).concat("/sdk"))
}

pub fn get_node_home(deveco_home: &str, host_os: &HostOs) -> (r: Result<String, String>)
    requires
        *host_os == HostOs::LinuxX64,
    ensures
        r matches Ok(p) && p@ == deveco_home@ + "/tool/node"@,
{
    Ok(String::from_str(deveco_home).concat("/tool/node"))
}

pub fn get_node_path(deveco_home: &str, host_os: &HostOs) -> (r: Result<String, String>)
    requires
        *host_os == HostOs::LinuxX64,
    ensures
        r matches Ok(p) && p@ == deveco_home@ + "/tool/node/bin/node"@,
{
    Ok(String::from_str(deveco_home).concat("/tool/node/bin/node"))
}

pub fn get_ohpm_home(deveco_home: &str, host_os: &HostOs) -> (r: Result<String, String>)
    requires
        *host_os == HostOs::LinuxX64,
    ensures
        r matches Ok(p) && p@ == deveco_home@ + "/ohpm"@,
{
    Ok(String::from_str(deveco_home).concat("/ohpm"))
}

pub fn get_hvigor_home(deveco_home: &str, host_os: &HostOs) -> (r: Result<String, String>)
    requires
        *host_os == HostOs::LinuxX64,
    ensures
        r matches Ok(p) && p@ == deveco_home@ + "/hvigor"@,
{
    Ok(String::from_str(deveco_home).concat("/hvigor"))
}

pub fn get_hdc_path(deveco_home: &str, host_os: &HostOs) -> (r: Result<String, String>)
    requires
        *host_os == HostOs::LinuxX64,
    ensures
        r matches Ok(p) && p@ == deveco_home@ + "/sdk/HarmonyOS-NEXT-DB2/openharmony/toolchains"@,
{
    Ok(String::from_str(deveco_home).concat("/sdk/HarmonyOS-NEXT-DB2/openharmony/toolchains"))
}

/// Everything the cross-compilation step needs: the SDK location, the
/// LLVM tool paths handed to cargo through the environment, one
/// `--target=` option per device target, and the caller's extra cargo
/// arguments.
#[derive(Debug)]
pub struct DevEcoPlan {
    pub sdk_home: String,
    pub cc_path: String,
    pub cxx_path: String,
    pub ar_path: String,
    pub ranlib_path: String,
    pub target_opts: Vec<String>,
    pub cargo_extra_args: Vec<String>,
}

impl DevEcoPlan {
    /// What `deveco` promises of a plan computed for installation root
    /// `home`, targets `targets` and extra arguments `args`.
    pub open spec fn wf(self, home: Seq<char>, targets: Seq<OpenHarmonyTarget>, args: Seq<String>) -> bool {
        &&& self.sdk_home@ == home + "/sdk/HarmonyOS-NEXT-DB2/openharmony"@
        &&& self.cc_path@ == self.sdk_home@
            + "/native/llvm/bin/aarch64-unknown-linux-ohos-clang"@
        &&& self.cxx_path@ == self.sdk_home@
            + "/native/llvm/bin/aarch64-unknown-linux-ohos-clang++"@
        &&& self.ar_path@ == self.sdk_home@ + "/native/llvm/bin/llvm-ar"@
        &&& self.ranlib_path@ == self.sdk_home@ + "/native/llvm/bin/llvm-ranlib"@
        &&& self.target_opts@.len() == targets.len()
        &&& forall|k: int|
            0 <= k < targets.len() ==> (#[trigger] self.target_opts@[k])@ == "--target="@
                + spec_toolchain(targets[k])
        &&& self.cargo_extra_args@ == args
    }
}

/// Plans the cross-compilation of the build crate for the given targets:
/// rejected when no DevEco installation root is given, otherwise the
/// tool paths and cargo options the runner must use.
pub fn deveco(
    deveco_home: &Option<String>,
    args: &Vec<String>,
    host_os: &HostOs,
    targets: &Vec<OpenHarmonyTarget>,
) -> (r: Result<DevEcoPlan, String>)
    requires
        *host_os == HostOs::LinuxX64,
    ensures
        deveco_home is None ==> (r matches Err(m) && m@ == "--deveco-home is not specified"@),
        deveco_home matches Some(home) ==> (r matches Ok(plan) && plan.wf(
            home@,
            targets@,
            args@,
        )),
{
    let home = match deveco_home {
        None => {
            return Err(String::from_str("--deveco-home is not specified"));
        },
        Some(home) => home,
    };
    let sdk_home = match get_sdk_home(home.as_str(), host_os) {
        Ok(p) => p,
        Err(e) => {
            return Err(e);
        },
    };
    let cc_path = sdk_home.clone().concat("/native/llvm/bin/aarch64-unknown-linux-ohos-clang");
    let cxx_path = sdk_home.clone().concat(
        "/native/llvm/bin/aarch64-unknown-linux-ohos-clang++",
    );
    let ar_path = sdk_home.clone().concat("/native/llvm/bin/llvm-ar");
    let ranlib_path = sdk_home.clone().concat("/native/llvm/bin/llvm-ranlib");
    let mut target_opts: Vec<String> = Vec::new();
    let mut t: usize = 0;
    while t < targets.len()
        invariant
            t <= targets@.len(),
            target_opts@.len() == t,
            forall|k: int|
                0 <= k < t ==> (#[trigger] target_opts@[k])@ == "--target="@ + spec_toolchain(
                    targets@[k],
                ),
        decreases targets@.len() - t,
    {
        let opt = String::from_str("--target=").concat(targets[t].toolchain());
        target_opts.push(opt);
        t = t + 1;
    }
    let mut cargo_extra_args: Vec<String> = Vec::new();
    let mut a: usize = 0;
    while a < args.len()
        invariant
            a <= args@.len(),
            cargo_extra_args@.len() == a,
            forall|k: int| 0 <= k < a ==> #[trigger] cargo_extra_args@[k] == args@[k],
        decreases args@.len() - a,
    {
        let arg = args[a].clone();
        cargo_extra_args.push(arg);
        a = a + 1;
    }
    proof {
        assert(cargo_extra_args@ =~= args@);
    }
    Ok(
        DevEcoPlan {
            sdk_home,
            cc_path,
            cxx_path,
            ar_path,
            ranlib_path,
            target_opts,
            cargo_extra_args,
        },
    )
}

/// The packaging step that follows the cross-compilation: the node and
/// hvigor locations used to assemble the application package.
#[derive(Debug)]
pub struct BuildPlan {
    pub compile: DevEcoPlan,
    pub node_home: String,
    pub deveco_sdk_home: String,
    pub node_path: String,
    pub hvigor_home: String,
    pub hvigorw_path: String,
}

impl BuildPlan {
    pub open spec fn wf(self, home: Seq<char>, targets: Seq<OpenHarmonyTarget>, args: Seq<String>) -> bool {
        &&& self.compile.wf(home, targets, args)
        &&& self.node_home@ == home + "/tool/node"@
        &&& self.deveco_sdk_home@ == home + "/sdk"@
        &&& self.node_path@ == home + "/tool/node/bin/node"@
        &&& self.hvigor_home@ == home + "/hvigor"@
        &&& self.hvigorw_path@ == home + "/hvigor"@ + "/bin/hvigorw.js"@
    }
}

/// Plans a full build: the cross-compilation plan followed by the
/// package-assembly paths.
pub fn build(
    deveco_home: &Option<String>,
    args: &Vec<String>,
    host_os: &HostOs,
    targets: &Vec<OpenHarmonyTarget>,
) -> (r: Result<BuildPlan, String>)
    requires
        *host_os == HostOs::LinuxX64,
    ensures
        deveco_home is None ==> (r matches Err(m) && m@ == "--deveco-home is not specified"@),
        deveco_home matches Some(home) ==> (r matches Ok(plan) && plan.wf(
            home@,
            targets@,
            args@,
        )),
{
    let compile = match deveco(deveco_home, args, host_os, targets) {
        Ok(p) => p,
        Err(e) => {
            return Err(e);
        },
    };
    let home = match deveco_home {
        None => {
            return Err(String::from_str("--deveco-home is not specified"));
        },
        Some(home) => home,
    };
    let node_home = match get_node_home(home.as_str(), host_os) {
        Ok(p) => p,
        Err(e) => {
            return Err(e);
        },
    };
    let deveco_sdk_home = match get_deveco_sdk_home(home.as_str(), host_os) {
        Ok(p) => p,
        Err(e) => {
            return Err(e);
        },
    };
    let node_path = match get_node_path(home.as_str(), host_os) {
        Ok(p) => p,
        Err(e) => {
            return Err(e);
        },
    };
    let hvigor_home = match get_hvigor_home(home.as_str(), host_os) {
        Ok(p) => p,
        Err(e) => {
            return Err(e);
        },
    };
    let hvigorw_path = hvigor_home.clone().concat("/bin/hvigorw.js");
    Ok(
        BuildPlan {
            compile,
            node_home,
            deveco_sdk_home,
            node_path,
            hvigor_home,
            hvigorw_path,
        },
    )
}

/// The command the tool was asked to run.
#[derive(Debug)]
pub enum OhosCommand {
    ToolchainInstall,
    Build(BuildPlan),
}

/// An argument of the form `--deveco-home=<path>`.
pub open spec fn spec_is_home_opt(s: Seq<char>) -> bool {
    s.len() >= 14 && s.subrange(0, 14) == "--deveco-home="@
}

/// Index of the first argument that is not a `--deveco-home=` option.
pub open spec fn spec_first_command_idx(args: Seq<String>, k: int) -> int
    decreases args.len() - k,
{
    if 0 <= k < args.len() && spec_is_home_opt(args[k]@) {
        spec_first_command_idx(args, k + 1)
    } else {
        k
    }
}

pub open spec fn spec_home_view(h: Option<String>) -> Option<Seq<char>> {
    match h {
        Some(s) => Some(s@),
        None => None,
    }
}

/// The installation root in effect: the value of the last leading
/// `--deveco-home=` option, or the environment's value when none is given.
pub open spec fn spec_home(args: Seq<String>, env: Option<String>) -> Option<Seq<char>> {
    let e = spec_first_command_idx(args, 0);
    if e <= 0 {
        spec_home_view(env)
    } else {
        Some(args[e - 1]@.subrange(14, args[e - 1]@.len() as int))
    }
}

/// Decides what the tool's arguments ask for: leading `--deveco-home=`
/// options pick the installation root (the environment's `DEVECO_HOME`,
/// handed in by the caller, is the fallback), then the first remaining
/// argument names the command.  `build` is answered with the full build
/// plan; an unknown command and a missing command are rejected with the
/// messages shown to the user.
pub fn handle_open_harmony(
    args: &Vec<String>,
    env_deveco_home: Option<String>,
    host_os: &HostOs,
) -> (r: Result<OhosCommand, String>)
    requires
        *host_os == HostOs::LinuxX64,
    ensures
        ({
            let e = spec_first_command_idx(args@, 0);
            let home = spec_home(args@, env_deveco_home);
            &&& e >= args@.len() ==> (r matches Err(m) && m@ == "not enough args"@)
            &&& (e < args@.len() && (args@[e]@ == "toolchain-install"@ || args@[e]@
                == "install-toolchain"@)) ==> (r matches Ok(c) && c is ToolchainInstall)
            &&& (e < args@.len() && args@[e]@ == "build"@ && !(args@[e]@
                == "toolchain-install"@ || args@[e]@ == "install-toolchain"@) && home is None)
                ==> (r matches Err(m) && m@ == "--deveco-home is not specified"@)
            &&& (e < args@.len() && args@[e]@ == "build"@ && !(args@[e]@
                == "toolchain-install"@ || args@[e]@ == "install-toolchain"@) && home is Some)
                ==> (r matches Ok(c) && c matches OhosCommand::Build(plan) && (home matches Some(
                h,
            ) && plan.wf(
                h,
                seq![OpenHarmonyTarget::aarch64],
                args@.subrange(e + 1, args@.len() as int),
            )))
            &&& (e < args@.len() && !(args@[e]@ == "toolchain-install"@ || args@[e]@
                == "install-toolchain"@) && !(args@[e]@ == "build"@)) ==> (r matches Err(m) && m@
                == args@[e]@ + " is not a valid command or option"@)
        }),
{
    let ghost env0 = env_deveco_home;
    let mut home: Option<String> = env_deveco_home;
    let mut k: usize = 0;
    let mut done = false;
    while !done && k < args.len()
        invariant
            k <= args@.len(),
            done ==> k < args@.len(),
            spec_first_command_idx(args@, 0) == (if done {
                k as int
            } else {
                spec_first_command_idx(args@, k as int)
            }),
            spec_home_view(home) == (if k == 0 {
                spec_home_view(env0)
            } else {
                Some(args@[k - 1]@.subrange(14, args@[k - 1]@.len() as int))
            }),
        decreases args@.len() - k + (if done {
            0int
        } else {
            1int
        }),
    {
        let arg = &args[k];
        let n = arg.as_str().unicode_len();
        let mut is_opt = false;
        if n >= 14 {
            let sub = arg.as_str().substring_char(0, 14);
            let subs = String::from_str(sub);
            let pat = String::from_str("--deveco-home=");
            if subs == pat {
                is_opt = true;
                let v = arg.as_str().substring_char(14, n);
                home = Some(String::from_str(v));
            }
        }
        if is_opt {
            k = k + 1;
        } else {
            done = true;
        }
    }
    if k == args.len() && !done {
        return Err(String::from_str("not enough args"));
    }
    assert(spec_first_command_idx(args@, 0) == k as int);
    assert(spec_home_view(home) == spec_home(args@, env0));
    let cmd = &args[k];
    let ti1 = String::from_str("toolchain-install");
    let ti2 = String::from_str("install-toolchain");
    if *cmd == ti1 || *cmd == ti2 {
        return Ok(OhosCommand::ToolchainInstall);
    }
    let bld = String::from_str("build");
    if *cmd == bld {
        let mut targets: Vec<OpenHarmonyTarget> = Vec::new();
        targets.push(OpenHarmonyTarget::aarch64);
        assert(targets@ =~= seq![OpenHarmonyTarget::aarch64]);
        let mut rest: Vec<String> = Vec::new();
        let mut a: usize = k + 1;
        while a < args.len()
            invariant
                k + 1 <= a <= args@.len(),
                rest@ =~= args@.subrange(k + 1, a as int),
            decreases args@.len() - a,
        {
            let arg = args[a].clone();
            rest.push(arg);
            proof {
                assert(args@.subrange(k + 1, a + 1) =~= args@.subrange(k + 1, a as int).push(
                    args@[a as int],
                ));
            }
            a = a + 1;
        }
        match build(&home, &rest, host_os, &targets) {
            Ok(plan) => {
                return Ok(OhosCommand::Build(plan));
            },
            Err(e) => {
                return Err(e);
            },
        }
    }
    Err(cmd.clone().concat(" is not a valid command or option"))
}

} // verus!
