//! The two-stage compile pipeline.
//!
//! Stage 1 drives the C compiler from the input source to a textual
//! intermediate representation with an explicit, ordered include-path list;
//! stage 2 drives the code generator from that intermediate file to the
//! final BPF object. The two invocations are deliberately separate: certain
//! architecture-conditional kernel headers mis-expand under a single
//! combined invocation. After each stage, standard output is checked before
//! standard error: non-blank text on either stream is a failure whose
//! payload is that text verbatim.

use crate::context::BuildContext;
use vstd::prelude::*;
use vstd::string::*;

verus! {

/// A fully determined external invocation: program name and ordered
/// argument list. The library only constructs these; the caller runs them.
pub struct CommandSpec {
    pub program: String,
    pub args: Vec<String>,
}

/// The caller-supplied local include path, or the current directory as a
/// fallback when none was supplied.
pub open spec fn local_include_or_dot(ctx: &BuildContext) -> Seq<char> {
    match ctx.local_include {
        Some(s) => s@,
        None => "."@,
    }
}

/// The exact, ordered stage-1 argument list. Order is significant: earlier
/// include paths shadow same-named headers in later ones.
pub open spec fn stage1_args(ctx: &BuildContext, input: Seq<char>, intermediate: Seq<char>) -> Seq<
    Seq<char>,
> {
    seq![
        "-S"@,
        "-nostdinc"@,
        "-isystem"@,
        ctx.clang_include@,
        "-I"@,
        ctx.kernel_base@ + "/arch/"@ + ctx.arch@ + "/include/generated/uapi"@,
        "-I"@,
        ctx.kernel_base@ + "/arch/"@ + ctx.arch@ + "/include/generated"@,
        "-I"@,
        ctx.kernel_base@ + "/arch/"@ + ctx.arch@ + "/include"@,
        "-I"@,
        ctx.kernel_base@ + "/arch/"@ + ctx.arch@ + "/include/uapi"@,
        "-I"@,
        ctx.kernel_base@ + "/include"@,
        "-I"@,
        ctx.kernel_base@ + "/include/uapi"@,
        "-include"@,
        ctx.kernel_base@ + "/include/linux/kconfig.h"@,
        "-I"@,
        ctx.kernel_base@ + "/include/generated/uapi"@,
        "-I"@,
        local_include_or_dot(ctx),
        "-I"@,
        ctx.user_include@,
        "-I"@,
        "/usr/include/"@,
        "-Wno-everything"@,
        "-fno-stack-protector"@,
        "-fno-jump-tables"@,
        "-fno-unwind-tables"@,
        "-fno-asynchronous-unwind-tables"@,
        "-D"@,
        "__KERNEL__"@,
        "-D"@,
        "__ASM_SYSREG_H"@,
        "-D"@,
        "__BPF_TRACING__"@,
        "-D"@,
        "KBUILD_MODNAME=\"clang-built-ebpf-module\""@,
        "-D"@,
        "__TARGET_ARCH_"@ + ctx.arch@,
        "-O2"@,
        "-emit-llvm"@,
        "-c"@,
        input,
        "-o"@,
        intermediate,
    ]
}

/// The exact stage-2 argument list: BPF target, object-file output form,
/// final object path, stage-1 intermediate file as input.
pub open spec fn stage2_args(output: Seq<char>, intermediate: Seq<char>) -> Seq<Seq<char>> {
    seq!["-march=bpf"@, "-filetype=obj"@, "-o"@, output, intermediate]
}

/// Path of the stage-1 intermediate file: the output path plus the fixed
/// intermediate-representation suffix.
pub fn intermediate_path(output: &str) -> (r: String)
    ensures
        r@ == output@ + ".ll"@,
{
    String::from_str(output).concat(".ll")
}

/// Destination of the compiled object under a build directory.
pub fn object_path(dir: &str, name: &str) -> (r: String)
    ensures
        r@ == dir@ + "/"@ + name@,
{
    String::from_str(dir).concat("/").concat(name)
}

/// Builds the stage-1 invocation (C source to intermediate representation).
pub fn stage1_command(ctx: &BuildContext, input: &str, intermediate: &str) -> (r: CommandSpec)
    ensures
        r.program@ == "clang"@,
        r.args.deep_view() == stage1_args(ctx, input@, intermediate@),
{
    let kb = &ctx.kernel_base;
    let arch = &ctx.arch;
    let mut args: Vec<String> = Vec::new();
    args.push(String::from_str("-S"));
    args.push(String::from_str("-nostdinc"));
    args.push(String::from_str("-isystem"));
    args.push(ctx.clang_include.clone());
    args.push(String::from_str("-I"));
    args.push(
        kb.clone().concat("/arch/").concat(arch.as_str()).concat("/include/generated/uapi"),
    );
    args.push(String::from_str("-I"));
    args.push(kb.clone().concat("/arch/").concat(arch.as_str()).concat("/include/generated"));
    args.push(String::from_str("-I"));
    args.push(kb.clone().concat("/arch/").concat(arch.as_str()).concat("/include"));
    args.push(String::from_str("-I"));
    args.push(kb.clone().concat("/arch/").concat(arch.as_str()).concat("/include/uapi"));
    args.push(String::from_str("-I"));
    args.push(kb.clone().concat("/include"));
    args.push(String::from_str("-I"));
    args.push(kb.clone().concat("/include/uapi"));
    args.push(String::from_str("-include"));
    args.push(kb.clone().concat("/include/linux/kconfig.h"));
    args.push(String::from_str("-I"));
    args.push(kb.clone().concat("/include/generated/uapi"));
    args.push(String::from_str("-I"));
    let local = match &ctx.local_include {
        Some(s) => s.clone(),
        None => String::from_str("."),
    };
    args.push(local);
    args.push(String::from_str("-I"));
    args.push(ctx.user_include.clone());
    args.push(String::from_str("-I"));
    args.push(String::from_str("/usr/include/"));
    args.push(String::from_str("-Wno-everything"));
    args.push(String::from_str("-fno-stack-protector"));
    args.push(String::from_str("-fno-jump-tables"));
    args.push(String::from_str("-fno-unwind-tables"));
    args.push(String::from_str("-fno-asynchronous-unwind-tables"));
    args.push(String::from_str("-D"));
    args.push(String::from_str("__KERNEL__"));
    args.push(String::from_str("-D"));
    args.push(String::from_str("__ASM_SYSREG_H"));
    args.push(String::from_str("-D"));
    args.push(String::from_str("__BPF_TRACING__"));
    args.push(String::from_str("-D"));
    args.push(String::from_str("KBUILD_MODNAME=\"clang-built-ebpf-module\""));
    args.push(String::from_str("-D"));
    args.push(String::from_str("__TARGET_ARCH_").concat(arch.as_str()));
    args.push(String::from_str("-O2"));
    args.push(String::from_str("-emit-llvm"));
    args.push(String::from_str("-c"));
    args.push(String::from_str(input));
    args.push(String::from_str("-o"));
    args.push(String::from_str(intermediate));
    proof {
        assert(args.deep_view() =~~= stage1_args(ctx, input@, intermediate@));
    }
    CommandSpec { program: String::from_str("clang"), args }
}

/// Builds the stage-2 invocation (intermediate representation to object).
pub fn stage2_command(output: &str, intermediate: &str) -> (r: CommandSpec)
    ensures
        r.program@ == "llc"@,
        r.args.deep_view() == stage2_args(output@, intermediate@),
{
    let mut args: Vec<String> = Vec::new();
    args.push(String::from_str("-march=bpf"));
    args.push(String::from_str("-filetype=obj"));
    args.push(String::from_str("-o"));
    args.push(String::from_str(output));
    args.push(String::from_str(intermediate));
    proof {
        assert(args.deep_view() =~~= stage2_args(output@, intermediate@));
    }
    CommandSpec { program: String::from_str("llc"), args }
}

/// A whitespace character, as stage output is trimmed before the emptiness
/// test: the characters with the Unicode `White_Space` property.
pub open spec fn is_space(c: char) -> bool {
    c == ' ' || c == '\t' || c == '\n' || c == '\u{B}' || c == '\u{C}' || c == '\r' || c == '\u{85}'
        || c == '\u{A0}' || c == '\u{1680}' || c == '\u{2000}' || c == '\u{2001}' || c == '\u{2002}'
        || c == '\u{2003}' || c == '\u{2004}' || c == '\u{2005}' || c == '\u{2006}' || c
        == '\u{2007}' || c == '\u{2008}' || c == '\u{2009}' || c == '\u{200A}' || c == '\u{2028}'
        || c == '\u{2029}' || c == '\u{202F}' || c == '\u{205F}' || c == '\u{3000}'
}

/// Whether `c` has the Unicode `White_Space` property.
fn is_space_char(c: char) -> (r: bool)
    ensures
        r == is_space(c),
{
    c == ' ' || c == '\t' || c == '\n' || c == '\u{B}' || c == '\u{C}' || c == '\r' || c == '\u{85}'
        || c == '\u{A0}' || c == '\u{1680}' || c == '\u{2000}' || c == '\u{2001}' || c == '\u{2002}'
        || c == '\u{2003}' || c == '\u{2004}' || c == '\u{2005}' || c == '\u{2006}' || c
        == '\u{2007}' || c == '\u{2008}' || c == '\u{2009}' || c == '\u{200A}' || c == '\u{2028}'
        || c == '\u{2029}' || c == '\u{202F}' || c == '\u{205F}' || c == '\u{3000}'
}

/// Text that trims to nothing.
pub open spec fn blank(s: Seq<char>) -> bool {
    forall|i: int| 0 <= i < s.len() ==> is_space(#[trigger] s[i])
}

/// Whether a stream's text trims to nothing.
pub fn is_blank(s: &str) -> (r: bool)
    ensures
        r == blank(s@),
{
    let n = s.unicode_len();
    let mut i: usize = 0;
    while i < n
        invariant
            i <= n,
            n == s@.len(),
            forall|j: int| 0 <= j < i ==> is_space(#[trigger] s@[j]),
        decreases n - i,
    {
        let c = s.get_char(i);
        if !is_space_char(c) {
            return false;
        }
        i = i + 1;
    }
    true
}

/// Classifies one stage's output. Standard output is checked first: when it
/// does not trim to nothing the stage failed and the payload is that text
/// verbatim, whatever standard error holds. Only then is standard error
/// checked, under the same rule. Blank text on both streams is the only
/// success condition; the process exit status is never inspected.
pub fn classify_stage_output(stdout: String, stderr: String) -> (r: Result<(), String>)
    ensures
        !blank(stdout@) ==> (r matches Err(e) && e@ == stdout@),
        blank(stdout@) && !blank(stderr@) ==> (r matches Err(e) && e@ == stderr@),
        blank(stdout@) && blank(stderr@) ==> r is Ok,
{
    if !is_blank(stdout.as_str()) {
        Err(stdout)
    } else if !is_blank(stderr.as_str()) {
        Err(stderr)
    } else {
        Ok(())
    }
}

} // verus!
