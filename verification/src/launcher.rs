//! Decisions of the process launcher: which command to run, and what a
//! child process's termination means.
//!
//! The library never spawns anything. It validates the request, lays the
//! command out as plain data, and classifies the outcome the host reports
//! back; the host performs the spawn and the wait in between.

use vstd::prelude::*;

use crate::errors::InstallError;

verus! {

/// One external command, laid out for the host to run.
#[derive(Debug, Clone, PartialEq, Eq)]
pub struct CommandSpec {
    /// The program to invoke.
    pub program: String,
    /// Its arguments, in order.
    pub args: Vec<String>,
    /// The working directory to run in, when one is required.
    pub working_dir: Option<String>,
}

/// Gate for launching an installed executable: the target must exist.
pub fn launch_gate(target_exists: bool) -> (r: Result<(), InstallError>)
    ensures
        r == if target_exists {
            Ok::<(), InstallError>(())
        } else {
            Err::<(), InstallError>(InstallError::TargetNotFound)
        },
{
    if target_exists {
        Ok(())
    } else {
        Err(InstallError::TargetNotFound)
    }
}

/// Gate for running an installer executable: the installer must exist.
pub fn installer_gate(installer_exists: bool) -> (r: Result<(), InstallError>)
    ensures
        r == if installer_exists {
            Ok::<(), InstallError>(())
        } else {
            Err::<(), InstallError>(InstallError::InstallerNotFound)
        },
{
    if installer_exists {
        Ok(())
    } else {
        Err(InstallError::InstallerNotFound)
    }
}

/// Classify the termination of an installer process the host waited for:
/// success passes, anything else is a non-zero exit carrying the reported
/// code, if the platform reported one.
pub fn exit_outcome(success: bool, code: Option<i32>) -> (r: Result<(), InstallError>)
    ensures
        r == if success {
            Ok::<(), InstallError>(())
        } else {
            Err::<(), InstallError>(InstallError::NonZeroExit(code))
        },
{
    if success {
        Ok(())
    } else {
        Err(InstallError::NonZeroExit(code))
    }
}

/// Lay out a development command to be spawned in `cwd`.
///
/// An empty token list is refused before anything is spawned. With
/// `use_shell` the command is routed through the `cmd` interpreter (the
/// platform convention that keeps shell built-ins and scripts working);
/// without it the first token is the program and the rest its arguments.
pub fn dev_command_plan(cwd: &str, command: &Vec<String>, use_shell: bool) -> (r: Result<
    CommandSpec,
    InstallError,
>)
    ensures
        command@.len() == 0 <==> r == Err::<CommandSpec, InstallError>(InstallError::EmptyCommand),
        command@.len() > 0 ==> (r matches Ok(c) && {
            &&& (c.working_dir matches Some(w) && w@ == cwd@)
            &&& use_shell ==> c.program@ == "cmd"@ && c.args.deep_view() =~= seq!["/c"@]
                + command.deep_view()
            &&& !use_shell ==> c.program@ == command@[0]@ && c.args.deep_view()
                =~= command.deep_view().drop_first()
        }),
{
    if command.len() == 0 {
        return Err(InstallError::EmptyCommand);
    }
    let mut args: Vec<String> = Vec::new();
    if use_shell {
        args.push(String::from_str("/c"));
        let mut i: usize = 0;
        while i < command.len()
            invariant
                i <= command@.len(),
                args.deep_view() =~= seq!["/c"@] + command.deep_view().subrange(0, i as int),
            decreases command@.len() - i,
        {
            let ghost pre = args.deep_view();
            let ghost prevec = args@;
            args.push(command[i].clone());
            proof {
                assert forall|j: int| 0 <= j < args@.len() implies #[trigger] args.deep_view()[j]
                    == pre.push(command.deep_view()[i as int])[j] by {
                    if j < pre.len() {
                        assert(args@[j] == prevec[j]);
                    } else {
                        assert(args@[j] == command@[i as int]);
                    }
                }
                assert(args.deep_view() =~= pre.push(command.deep_view()[i as int]));
                assert(args.deep_view() =~= seq!["/c"@] + command.deep_view().subrange(
                    0,
                    i + 1 as int,
                ));
            }
            i = i + 1;
        }
        proof {
            assert(command.deep_view().subrange(0, command@.len() as int) =~= command.deep_view());
        }
        Ok(
            CommandSpec {
                program: String::from_str("cmd"),
                args,
                working_dir: Some(String::from_str(cwd)),
            },
        )
    } else {
        let mut i: usize = 1;
        while i < command.len()
            invariant
                1 <= i <= command@.len(),
                args.deep_view() =~= command.deep_view().subrange(1, i as int),
            decreases command@.len() - i,
        {
            let ghost pre = args.deep_view();
            let ghost prevec = args@;
            args.push(command[i].clone());
            proof {
                assert forall|j: int| 0 <= j < args@.len() implies #[trigger] args.deep_view()[j]
                    == pre.push(command.deep_view()[i as int])[j] by {
                    if j < pre.len() {
                        assert(args@[j] == prevec[j]);
                    } else {
                        assert(args@[j] == command@[i as int]);
                    }
                }
                assert(args.deep_view() =~= pre.push(command.deep_view()[i as int]));
                assert(args.deep_view() =~= command.deep_view().subrange(1, i + 1 as int));
            }
            i = i + 1;
        }
        proof {
            assert(command.deep_view().subrange(1, command@.len() as int)
                =~= command.deep_view().drop_first());
        }
        Ok(
            CommandSpec {
                program: command[0].clone(),
                args,
                working_dir: Some(String::from_str(cwd)),
            },
        )
    }
}

} // verus!
