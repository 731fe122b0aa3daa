//! Decisions around the two external subprocesses — the renderer and the
//! data-sourcing script. Spawning, streaming and awaiting them is the
//! shell's job; the argument lists they are started with and the meaning
//! of how they ended are decided here.

use vstd::prelude::*;
use crate::BuildError;
use crate::paths::{spec_join_path, join_path};

verus! {

/// How a subprocess run ended, as the shell observed it.
#[derive(Debug, Clone, PartialEq, Eq)]
pub enum SubprocessOutcome {
    /// The process could not be started at all.
    SpawnFailed,
    /// The process exited with this code.
    Exited { code: i32 },
}

/// What an observed subprocess outcome means for the run: exit code zero
/// is success; any other exit is a `SubprocessFailure` carrying the
/// subcommand's name and the code; failing to start at all is a
/// `SubprocessSpawnFailure`.
pub fn subprocess_outcome(name: &str, outcome: &SubprocessOutcome) -> (r: Result<(), BuildError>)
    ensures
        match r {
            Ok(()) => *outcome == (SubprocessOutcome::Exited { code: 0 }),
            Err(e) => match *outcome {
                SubprocessOutcome::SpawnFailed => e matches BuildError::SubprocessSpawnFailure {
                    name: n,
                } && n@ == name@,
                SubprocessOutcome::Exited { code } => {
                    &&& code != 0
                    &&& e matches BuildError::SubprocessFailure { name: n, code: c } && n@ == name@
                        && c == code
                },
            },
        },
{
    match outcome {
        SubprocessOutcome::SpawnFailed => Err(BuildError::SubprocessSpawnFailure {
            name: name.to_owned(),
        }),
        SubprocessOutcome::Exited { code } => {
            if *code == 0 {
                Ok(())
            } else {
                Err(BuildError::SubprocessFailure { name: name.to_owned(), code: *code })
            }
        },
    }
}

/// The fixed flags every node invocation starts with.
fn node_flag_args() -> (r: Vec<String>)
    ensures
        r@.len() == 4,
        r@[0]@ == "--unhandled-rejections"@,
        r@[1]@ == "strict"@,
        r@[2]@ == "--loader"@,
        r@[3]@ == "toast/src/loader.mjs"@,
{
    let mut args: Vec<String> = Vec::new();
    args.push(String::from_str("--unhandled-rejections"));
    args.push(String::from_str("strict"));
    args.push(String::from_str("--loader"));
    args.push(String::from_str("toast/src/loader.mjs"));
    args
}

/// The renderer's argument list: the node flags, the render script inside
/// the toast module, the directory of compiled server files, the output
/// directory, and then the file list, in order.
pub fn render_args(
    dir_of_input_files: &str,
    output_dir: &str,
    filepaths: &Vec<String>,
    toast_module_path: &str,
) -> (r: Vec<String>)
    ensures
        r@.len() == 7 + filepaths@.len(),
        r@[0]@ == "--unhandled-rejections"@,
        r@[1]@ == "strict"@,
        r@[2]@ == "--loader"@,
        r@[3]@ == "toast/src/loader.mjs"@,
        r@[4]@ == spec_join_path(toast_module_path@, "toast-render.mjs"@),
        r@[5]@ == dir_of_input_files@,
        r@[6]@ == output_dir@,
        forall|i: int| 0 <= i < filepaths@.len() ==> r@[7 + i] == filepaths@[i],
{
    let mut args = node_flag_args();
    args.push(join_path(toast_module_path, "toast-render.mjs"));
    args.push(dir_of_input_files.to_owned());
    args.push(output_dir.to_owned());
    let n = filepaths.len();
    let mut i: usize = 0;
    while i < n
        invariant
            n == filepaths@.len(),
            i <= n,
            args@.len() == 7 + i,
            args@[0]@ == "--unhandled-rejections"@,
            args@[1]@ == "strict"@,
            args@[2]@ == "--loader"@,
            args@[3]@ == "toast/src/loader.mjs"@,
            args@[4]@ == spec_join_path(toast_module_path@, "toast-render.mjs"@),
            args@[5]@ == dir_of_input_files@,
            args@[6]@ == output_dir@,
            forall|j: int| 0 <= j < i ==> args@[7 + j] == filepaths@[j],
        decreases n - i,
    {
        args.push(filepaths[i].clone());
        i = i + 1;
    }
    args
}

/// The data-sourcing script's argument list: the node flags, the
/// source-data script inside the toast module, the socket path the
/// events come back on, and the project's toast configuration file.
pub fn source_data_args(socket_path: &str, toast_js_file: &str, toast_module_path: &str) -> (r:
    Vec<String>)
    ensures
        r@.len() == 7,
        r@[0]@ == "--unhandled-rejections"@,
        r@[1]@ == "strict"@,
        r@[2]@ == "--loader"@,
        r@[3]@ == "toast/src/loader.mjs"@,
        r@[4]@ == spec_join_path(toast_module_path@, "toast-source-data.mjs"@),
        r@[5]@ == socket_path@,
        r@[6]@ == toast_js_file@,
{
    let mut args = node_flag_args();
    args.push(join_path(toast_module_path, "toast-source-data.mjs"));
    args.push(socket_path.to_owned());
    args.push(toast_js_file.to_owned());
    args
}

} // verus!
