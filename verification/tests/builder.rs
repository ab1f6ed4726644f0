use ebpf_builder::context::{discovery_plan, normalize_arch, BuildContext, Discovered, Overrides};
use ebpf_builder::embed::{embed_object, hex_literal_string, parse_artifact, render_hex_list};
use ebpf_builder::pipeline::{
    classify_stage_output, intermediate_path, object_path, stage1_command, stage2_command,
};

fn no_overrides() -> Overrides {
    Overrides { kernel_base: None, arch: None, triplet: None, clang_include: None, user_include: None }
}

fn full_discovery() -> Discovered {
    Discovered {
        kernel_release: Some("5.0.0".to_string()),
        machine: Some("x86_64".to_string()),
        triplet: Some("x86_64-linux-gnu".to_string()),
        clang_include: Some("/usr/lib/clang/10/include".to_string()),
    }
}

fn synthetic_context() -> BuildContext {
    BuildContext {
        kernel_base: "/kb".to_string(),
        arch: "x86".to_string(),
        triplet: "x86_64-linux-gnu".to_string(),
        clang_include: "/ci".to_string(),
        user_include: "/ui".to_string(),
        local_include: None,
    }
}

#[test]
fn default_resolution_uses_discovery() {
    let ctx = BuildContext::new(no_overrides(), full_discovery(), None);
    assert_eq!(ctx.kernel_base, "/lib/modules/5.0.0/build/");
    assert_eq!(ctx.arch, "x86");
    assert_eq!(ctx.triplet, "x86_64-linux-gnu");
    assert_eq!(ctx.clang_include, "/usr/lib/clang/10/include");
    assert_eq!(ctx.user_include, "/usr/include/x86_64-linux-gnu");
    assert_eq!(ctx.local_include, None);
}

#[test]
fn override_wins_without_discovery() {
    // Each overridden field resolves to exactly the override while the
    // matching discovery answer is absent: the command was never needed.
    let ov = Overrides {
        kernel_base: Some("/custom/kb/".to_string()),
        arch: Some("x86_64".to_string()),
        triplet: Some("armv7-linux".to_string()),
        clang_include: Some("/custom/ci".to_string()),
        user_include: Some("/custom/ui".to_string()),
    };
    let none = Discovered { kernel_release: None, machine: None, triplet: None, clang_include: None };
    let plan = discovery_plan(&ov);
    assert!(!plan.kernel_release && !plan.machine && !plan.triplet && !plan.clang_include);
    let ctx = BuildContext::new(ov, none, Some("/loc".to_string()));
    assert_eq!(ctx.kernel_base, "/custom/kb/");
    // an overridden arch is taken verbatim, not normalized
    assert_eq!(ctx.arch, "x86_64");
    assert_eq!(ctx.triplet, "armv7-linux");
    assert_eq!(ctx.clang_include, "/custom/ci");
    assert_eq!(ctx.user_include, "/custom/ui");
    assert_eq!(ctx.local_include, Some("/loc".to_string()));
}

#[test]
fn overrides_resolve_independently() {
    // Overriding one field leaves the others on their computed defaults.
    let ov = Overrides {
        kernel_base: None,
        arch: None,
        triplet: Some("aarch64-linux-gnu".to_string()),
        clang_include: None,
        user_include: None,
    };
    let plan = discovery_plan(&ov);
    assert!(plan.kernel_release && plan.machine && !plan.triplet && plan.clang_include);
    let d = Discovered {
        kernel_release: Some("6.1.0".to_string()),
        machine: Some("i386".to_string()),
        triplet: None,
        clang_include: Some("/ci".to_string()),
    };
    let ctx = BuildContext::new(ov, d, None);
    assert_eq!(ctx.kernel_base, "/lib/modules/6.1.0/build/");
    assert_eq!(ctx.arch, "x86");
    assert_eq!(ctx.triplet, "aarch64-linux-gnu");
    // the userland default is templated from the overridden triplet
    assert_eq!(ctx.user_include, "/usr/include/aarch64-linux-gnu");
}

#[test]
fn arch_normalization() {
    assert_eq!(normalize_arch("x86_64".to_string()), "x86");
    assert_eq!(normalize_arch("i386".to_string()), "x86");
    assert_eq!(normalize_arch("aarch64".to_string()), "aarch64");
    assert_eq!(normalize_arch("s390x".to_string()), "s390x");
    assert_eq!(normalize_arch("".to_string()), "");
}

#[test]
fn stage1_argument_order() {
    let ctx = synthetic_context();
    let cmd = stage1_command(&ctx, "prog.c", "prog.o.ll");
    assert_eq!(cmd.program, "clang");
    let expected: Vec<String> = [
        "-S",
        "-nostdinc",
        "-isystem",
        "/ci",
        "-I",
        "/kb/arch/x86/include/generated/uapi",
        "-I",
        "/kb/arch/x86/include/generated",
        "-I",
        "/kb/arch/x86/include",
        "-I",
        "/kb/arch/x86/include/uapi",
        "-I",
        "/kb/include",
        "-I",
        "/kb/include/uapi",
        "-include",
        "/kb/include/linux/kconfig.h",
        "-I",
        "/kb/include/generated/uapi",
        "-I",
        ".",
        "-I",
        "/ui",
        "-I",
        "/usr/include/",
        "-Wno-everything",
        "-fno-stack-protector",
        "-fno-jump-tables",
        "-fno-unwind-tables",
        "-fno-asynchronous-unwind-tables",
        "-D",
        "__KERNEL__",
        "-D",
        "__ASM_SYSREG_H",
        "-D",
        "__BPF_TRACING__",
        "-D",
        "KBUILD_MODNAME=\"clang-built-ebpf-module\"",
        "-D",
        "__TARGET_ARCH_x86",
        "-O2",
        "-emit-llvm",
        "-c",
        "prog.c",
        "-o",
        "prog.o.ll",
    ]
    .iter()
    .map(|s| s.to_string())
    .collect();
    assert_eq!(cmd.args, expected);
}

#[test]
fn stage1_local_include_replaces_dot() {
    let mut ctx = synthetic_context();
    ctx.local_include = Some("/opt/bpf/include".to_string());
    let cmd = stage1_command(&ctx, "prog.c", "prog.o.ll");
    // the caller-supplied include path takes the fallback's slot, nothing else moves
    assert_eq!(cmd.args[21], "/opt/bpf/include");
    let dot_count = cmd.args.iter().filter(|a| a.as_str() == ".").count();
    assert_eq!(dot_count, 0);
}

#[test]
fn stage2_arguments() {
    let cmd = stage2_command("prog.o", "prog.o.ll");
    assert_eq!(cmd.program, "llc");
    let expected: Vec<String> =
        ["-march=bpf", "-filetype=obj", "-o", "prog.o", "prog.o.ll"].iter().map(|s| s.to_string()).collect();
    assert_eq!(cmd.args, expected);
}

#[test]
fn intermediate_and_object_paths() {
    assert_eq!(intermediate_path("out/prog.o"), "out/prog.o.ll");
    assert_eq!(object_path("/tmp/build", "prog.o"), "/tmp/build/prog.o");
}

#[test]
fn stdout_failure_takes_priority() {
    // non-empty standard output fails the stage with that text verbatim,
    // whatever standard error holds
    let r = classify_stage_output("bad tokens\n".to_string(), "also noisy".to_string());
    assert_eq!(r, Err("bad tokens\n".to_string()));
    let r = classify_stage_output("bad tokens\n".to_string(), String::new());
    assert_eq!(r, Err("bad tokens\n".to_string()));
}

#[test]
fn stderr_failure_when_stdout_blank() {
    let r = classify_stage_output(String::new(), "undefined symbol\n".to_string());
    assert_eq!(r, Err("undefined symbol\n".to_string()));
    // whitespace-only standard output counts as empty
    let r = classify_stage_output(" \t\n".to_string(), "undefined symbol\n".to_string());
    assert_eq!(r, Err("undefined symbol\n".to_string()));
}

#[test]
fn blank_streams_succeed() {
    assert_eq!(classify_stage_output(String::new(), String::new()), Ok(()));
    assert_eq!(classify_stage_output("\n".to_string(), " \t".to_string()), Ok(()));
    // blankness follows the host's trim: Unicode whitespace counts
    assert_eq!(classify_stage_output("\u{a0}\u{2003}\u{3000}".to_string(), String::new()), Ok(()));
}

#[test]
fn hex_literals_not_zero_padded() {
    assert_eq!(hex_literal_string(0), "0x0");
    assert_eq!(hex_literal_string(1), "0x1");
    assert_eq!(hex_literal_string(15), "0xf");
    assert_eq!(hex_literal_string(16), "0x10");
    assert_eq!(hex_literal_string(255), "0xff");
}

#[test]
fn render_list_has_no_trailing_separator() {
    assert_eq!(render_hex_list(&vec![]), "");
    assert_eq!(render_hex_list(&vec![7]), "0x7");
    assert_eq!(render_hex_list(&vec![0, 1, 255]), "0x0,0x1,0xff");
}

#[test]
fn embed_three_bytes() {
    let ctx = synthetic_context();
    let text = embed_object(&vec![0x00, 0x01, 0xFF], &ctx);
    // exactly three comma-separated literals, in order
    assert!(text.contains("vec![0x0,0x1,0xff];"));
    // header carries the three provenance values
    assert!(text.contains("kernel_base=/kb"));
    assert!(text.contains("arch=x86"));
    assert!(text.contains("triplet=x86_64-linux-gnu"));
}

#[test]
fn embed_round_trip() {
    let ctx = synthetic_context();
    let cases: Vec<Vec<u8>> = vec![
        vec![],
        vec![0],
        vec![7],
        vec![255],
        vec![0x00, 0x01, 0xFF],
        (0u16..=255).map(|b| b as u8).collect(),
        vec![16, 15, 16, 15, 0, 0, 0],
    ];
    for bytes in cases {
        let text = embed_object(&bytes, &ctx);
        assert_eq!(parse_artifact(&text), Some(bytes));
    }
}

#[test]
fn embed_round_trip_with_bracketed_metadata() {
    // provenance values cannot confuse the byte-list extraction: the list's
    // opening bracket is always the last one in the artifact
    let ctx = BuildContext {
        kernel_base: "/odd[path]/build".to_string(),
        arch: "x86".to_string(),
        triplet: "x86_64-linux-gnu".to_string(),
        clang_include: "/ci".to_string(),
        user_include: "/ui".to_string(),
        local_include: None,
    };
    let bytes: Vec<u8> = vec![1, 2, 3];
    let text = embed_object(&bytes, &ctx);
    assert_eq!(parse_artifact(&text), Some(bytes));
}

#[test]
fn parse_artifact_rejections() {
    assert_eq!(parse_artifact("no brackets at all"), None);
    assert_eq!(parse_artifact("vec![0x1"), None);
    assert_eq!(parse_artifact("vec![0xzz];"), None);
    assert_eq!(parse_artifact("vec![0x1,];"), None);
    assert_eq!(parse_artifact("vec![0x123];"), None);
    assert_eq!(parse_artifact("vec![,0x1];"), None);
    assert_eq!(parse_artifact("vec![0X1];"), None);
}

#[test]
fn parse_artifact_empty_list() {
    assert_eq!(parse_artifact("vec![];"), Some(vec![]));
}
