//! Build commands that report what they would do: `reed build:public` and
//! `reed build:watch`.
use vstd::prelude::*;
use crate::reedstream::{ReedResponse, ReedResult};
use crate::string_map::StringMap;
use crate::text::{copy_string, push_str, str_to_string};

verus! {

/// The report of `build:public`, with the time the command took (seconds
/// with one decimal, as the caller formatted them).
pub open spec fn build_public_text(minify: bool, seconds: Seq<char>) -> Seq<char> {
    "🎨 Building public assets...\n\n"@ + (if minify { "✓ Minification enabled\n"@ } else { Seq::empty() })
        + "\n⚠ Asset bundling not yet implemented (requires REED-08-01, REED-08-02)\n"@
        + "   This command will bundle CSS and JS files when asset pipeline is ready.\n\n"@
        + "Build summary:\n"@ + "- Status: Placeholder\n"@ + "- Duration: "@ + seconds + "s\n"@
}

/// `reed build:public [--minify]`; `seconds` is how long it ran, with one
/// decimal.
pub fn build_public(args: &Vec<String>, flags: &StringMap, seconds: &str) -> (r: ReedResult<ReedResponse<String>>)
    requires
        flags.wf(),
    ensures
        r matches Ok(resp) && resp.source@ == "cli::build_public"@ && resp.data@ == build_public_text(
            flags.lookup("minify"@) is Some,
            seconds@,
        ),
{
    let mut out = str_to_string("🎨 Building public assets...\n\n");
    if flags.contains_key("minify") {
        push_str(&mut out, "✓ Minification enabled\n");
    }
    push_str(&mut out, "\n⚠ Asset bundling not yet implemented (requires REED-08-01, REED-08-02)\n");
    push_str(&mut out, "   This command will bundle CSS and JS files when asset pipeline is ready.\n\n");
    push_str(&mut out, "Build summary:\n");
    push_str(&mut out, "- Status: Placeholder\n");
    push_str(&mut out, "- Duration: ");
    push_str(&mut out, seconds);
    push_str(&mut out, "s\n");
    Ok(ReedResponse::new(out, "cli::build_public"))
}

/// The report of `build:watch`.
pub open spec fn build_watch_text(flags: StringMap) -> Seq<char> {
    "👀 Watch mode requested...\n\n"@ + (if flags.lookup("templates-only"@) is Some {
        "✓ Mode: Templates only\n"@
    } else {
        Seq::empty()
    }) + (match flags.lookup("debounce"@) {
        Some(d) => "✓ Debounce: "@ + d + "ms\n"@,
        None => Seq::empty(),
    }) + "\n⚠ Watch mode not yet implemented (requires REED-09-03)\n"@
        + "   This command will monitor file changes when file watcher is ready.\n"@ + "\nWould watch:\n"@
        + "  - src/**/*.rs (Rust files)\n"@ + "  - templates/**/*.jinja (Templates)\n"@
        + "  - templates/**/*.css (Stylesheets)\n"@ + "  - .reed/*.csv (Data files)\n"@
}

/// `reed build:watch [--templates-only] [--debounce <ms>]`.
pub fn build_watch(args: &Vec<String>, flags: &StringMap) -> (r: ReedResult<ReedResponse<String>>)
    requires
        flags.wf(),
    ensures
        r matches Ok(resp) && resp.source@ == "cli::build_watch"@ && resp.data@ == build_watch_text(*flags),
{
    let mut out = str_to_string("👀 Watch mode requested...\n\n");
    if flags.contains_key("templates-only") {
        push_str(&mut out, "✓ Mode: Templates only\n");
    }
    match flags.get("debounce") {
        Some(d) => {
            push_str(&mut out, "✓ Debounce: ");
            push_str(&mut out, d.as_str());
            push_str(&mut out, "ms\n");
        },
        None => {},
    }
    push_str(&mut out, "\n⚠ Watch mode not yet implemented (requires REED-09-03)\n");
    push_str(&mut out, "   This command will monitor file changes when file watcher is ready.\n");
    push_str(&mut out, "\nWould watch:\n");
    push_str(&mut out, "  - src/**/*.rs (Rust files)\n");
    push_str(&mut out, "  - templates/**/*.jinja (Templates)\n");
    push_str(&mut out, "  - templates/**/*.css (Stylesheets)\n");
    push_str(&mut out, "  - .reed/*.csv (Data files)\n");
    assert(out@ =~= build_watch_text(*flags));
    Ok(ReedResponse::new(out, "cli::build_watch"))
}

// ---------------------------------------------------------------------------
// Kernel builds
// ---------------------------------------------------------------------------

/// `release` with `--release`, else `debug`.
pub open spec fn kernel_profile(flags: StringMap) -> Seq<char> {
    if flags.lookup("release"@) is Some { "release"@ } else { "debug"@ }
}

/// The arguments of the `cargo` run.
pub open spec fn kernel_args(flags: StringMap) -> Seq<Seq<char>> {
    seq!["build"@] + (if flags.lookup("release"@) is Some { seq!["--release"@] } else { Seq::empty() }) + (match flags.lookup(
        "target"@,
    ) {
        Some(t) => seq!["--target"@, t],
        None => Seq::empty(),
    }) + match flags.lookup("features"@) {
        Some(f) => seq!["--features"@, f],
        None => Seq::empty(),
    }
}

/// The report of a kernel build up to the compiler run.
pub open spec fn kernel_report_head(flags: StringMap) -> Seq<char> {
    "🔨 Compiling ReedCMS kernel...\n"@ + "✓ Building with profile: "@ + kernel_profile(flags) + "\n\n"@ + (match flags.lookup(
        "target"@,
    ) {
        Some(t) => "✓ Target: "@ + t + "\n"@,
        None => Seq::empty(),
    }) + (match flags.lookup("features"@) {
        Some(f) => "✓ Features: "@ + f + "\n\n"@,
        None => Seq::empty(),
    }) + "  Compiling reedcms...\n"@
}

/// Where the built binary lies.
pub open spec fn kernel_binary_path(flags: StringMap) -> Seq<char> {
    match flags.lookup("target"@) {
        Some(t) => "target/"@ + t + "/"@ + kernel_profile(flags) + "/reed"@,
        None => "target/"@ + kernel_profile(flags) + "/reed"@,
    }
}

/// A kernel build: its profile, the `cargo` arguments, the report so far
/// and where the binary will lie.
#[derive(Debug, Clone)]
pub struct KernelBuild {
    pub profile: String,
    pub cargo_args: Vec<String>,
    pub report: String,
    pub binary_path: String,
}

/// Plans `reed build:kernel [--release] [--target <t>] [--features <f>]`;
/// the caller runs `cargo` with the arguments.
pub fn build_kernel(args: &Vec<String>, flags: &StringMap) -> (r: KernelBuild)
    requires
        flags.wf(),
    ensures
        r.profile@ == kernel_profile(*flags),
        crate::cli::parser::strings_view(r.cargo_args@) == kernel_args(*flags),
        r.report@ == kernel_report_head(*flags),
        r.binary_path@ == kernel_binary_path(*flags),
{
    let release = flags.contains_key("release");
    let profile = if release { str_to_string("release") } else { str_to_string("debug") };
    let target = crate::cli::checks::optional_flag(flags, "target");
    let features = crate::cli::checks::optional_flag(flags, "features");
    let mut cargo_args: Vec<String> = Vec::new();
    cargo_args.push(str_to_string("build"));
    if release {
        cargo_args.push(str_to_string("--release"));
    }
    let mut report = str_to_string("🔨 Compiling ReedCMS kernel...\n");
    push_str(&mut report, "✓ Building with profile: ");
    push_str(&mut report, profile.as_str());
    push_str(&mut report, "\n\n");
    let mut binary_path = str_to_string("target/");
    match &target {
        Some(t) => {
            cargo_args.push(str_to_string("--target"));
            cargo_args.push(copy_string(t));
            push_str(&mut report, "✓ Target: ");
            push_str(&mut report, t.as_str());
            push_str(&mut report, "\n");
            push_str(&mut binary_path, t.as_str());
            push_str(&mut binary_path, "/");
        },
        None => {},
    }
    match &features {
        Some(f) => {
            cargo_args.push(str_to_string("--features"));
            cargo_args.push(copy_string(f));
            push_str(&mut report, "✓ Features: ");
            push_str(&mut report, f.as_str());
            push_str(&mut report, "\n\n");
        },
        None => {},
    }
    push_str(&mut report, "  Compiling reedcms...\n");
    push_str(&mut binary_path, profile.as_str());
    push_str(&mut binary_path, "/reed");
    assert(crate::cli::parser::strings_view(cargo_args@) =~= kernel_args(*flags));
    KernelBuild { profile, cargo_args, report, binary_path }
}

/// The whole report of a kernel build that succeeded, from the binary's
/// size in MB of 1 024 000 bytes (`None`: no binary there) and how long the
/// build took in seconds, both with one decimal as the caller formatted
/// them.
pub open spec fn kernel_report(b: KernelBuild, size_mb: Option<Seq<char>>, seconds: Seq<char>) -> Seq<char> {
    b.report@ + "\n  Finished "@ + b.profile@ + " in "@ + seconds + "s\n\n"@ + (match size_mb {
        Some(n) => "✓ Binary created: "@ + b.binary_path@ + " ("@ + n + " MB)\n"@,
        None => "⚠ Binary not found at: "@ + b.binary_path@ + "\n"@,
    }) + "\nBuild summary:\n"@ + "- Profile: "@ + b.profile@ + "\n"@ + "- Duration: "@ + seconds + "s\n"@
}

/// Finishes the report of a kernel build.
pub fn kernel_build_report(build: &KernelBuild, size_mb: Option<&str>, seconds: &str) -> (r: ReedResponse<
    String,
>)
    ensures
        r.data@ == kernel_report(
            *build,
            match size_mb {
                Some(n) => Some(n@),
                None => None,
            },
            seconds@,
        ),
        r.source@ == "cli::build_kernel"@,
{
    let mut out = copy_string(&build.report);
    push_str(&mut out, "\n  Finished ");
    push_str(&mut out, build.profile.as_str());
    push_str(&mut out, " in ");
    push_str(&mut out, seconds);
    push_str(&mut out, "s\n\n");
    match size_mb {
        Some(n) => {
            push_str(&mut out, "✓ Binary created: ");
            push_str(&mut out, build.binary_path.as_str());
            push_str(&mut out, " (");
            push_str(&mut out, n);
            push_str(&mut out, " MB)\n");
        },
        None => {
            push_str(&mut out, "⚠ Binary not found at: ");
            push_str(&mut out, build.binary_path.as_str());
            push_str(&mut out, "\n");
        },
    }
    push_str(&mut out, "\nBuild summary:\n");
    push_str(&mut out, "- Profile: ");
    push_str(&mut out, build.profile.as_str());
    push_str(&mut out, "\n");
    push_str(&mut out, "- Duration: ");
    push_str(&mut out, seconds);
    push_str(&mut out, "s\n");
    ReedResponse::new(out, "cli::build_kernel")
}

/// The report of `build:complete` up to its summary's duration line.
pub open spec fn build_complete_head(seconds: Seq<char>) -> Seq<char> {
    "🚀 Running complete ReedCMS build...\n\n"@ + "[1/2] Building kernel...\n"@ + "✓ Kernel built\n\n"@
        + "[2/2] Building public assets...\n"@ + "✓ Assets processed (placeholder)\n\n"@
        + "🎉 Complete build finished!\n\n"@ + "Build summary:\n"@ + "- Total duration: "@ + seconds
        + "s\n"@
}

/// The debug log of `build:complete`: the report, then the kernel's and
/// the assets' outputs.
pub open spec fn build_complete_log_text(head: Seq<char>, kernel: Seq<char>, public: Seq<char>) -> Seq<char> {
    head + "\n\nKernel Output:\n"@ + kernel + "\n\nPublic Output:\n"@ + public + "\n"@
}

/// Finishes `reed build:complete [--debug <log>]` once both builds
/// succeeded: the report, and with `--debug` the log to write to that file
/// (the report then names it); `seconds` is the total duration with one
/// decimal, as the caller formatted it.
pub fn build_complete_report(
    flags: &StringMap,
    kernel_output: &str,
    public_output: &str,
    seconds: &str,
) -> (r: (ReedResponse<String>, Option<String>))
    requires
        flags.wf(),
    ensures
        r.0.source@ == "cli::build_complete"@,
        match flags.lookup("debug"@) {
            None => r.0.data@ == build_complete_head(seconds@) && r.1 is None,
            Some(path) => {
                &&& r.0.data@ == build_complete_head(seconds@) + "- Debug log: "@ + path + "\n"@
                &&& r.1 matches Some(log) && log@ == build_complete_log_text(
                    build_complete_head(seconds@),
                    kernel_output@,
                    public_output@,
                )
            },
        },
{
    let mut out = str_to_string("🚀 Running complete ReedCMS build...\n\n");
    push_str(&mut out, "[1/2] Building kernel...\n");
    push_str(&mut out, "✓ Kernel built\n\n");
    push_str(&mut out, "[2/2] Building public assets...\n");
    push_str(&mut out, "✓ Assets processed (placeholder)\n\n");
    push_str(&mut out, "🎉 Complete build finished!\n\n");
    push_str(&mut out, "Build summary:\n");
    push_str(&mut out, "- Total duration: ");
    push_str(&mut out, seconds);
    push_str(&mut out, "s\n");
    match flags.get("debug") {
        None => (ReedResponse::new(out, "cli::build_complete"), None),
        Some(path) => {
            let mut log = copy_string(&out);
            push_str(&mut log, "\n\nKernel Output:\n");
            push_str(&mut log, kernel_output);
            push_str(&mut log, "\n\nPublic Output:\n");
            push_str(&mut log, public_output);
            push_str(&mut log, "\n");
            push_str(&mut out, "- Debug log: ");
            push_str(&mut out, path.as_str());
            push_str(&mut out, "\n");
            (ReedResponse::new(out, "cli::build_complete"), Some(log))
        },
    }
}

} // verus!
