//! The command line of one service unit (one process of a service), and
//! what its exit means.

use vstd::prelude::*;
use crate::configuration::{ServiceConfig, ServiceConfigView};
use crate::connect_addr::{ConnectAddr, ConnectAddrView, ip_text};
use crate::error::{ServiceUnitError, ServiceUnitErrorView};
use crate::text::{decimal, decimal_string, join_path, path_join, push_char, push_numeral, push_str, to_owned_string};

verus! {

/// Which executable a unit runs: the stable one, or the new one during a
/// rolling update.
#[derive(Debug, Clone, Copy, PartialEq, Eq, Structural)]
pub enum UnitVersion {
    Stable,
    New,
}

/// The arguments that tell a backend service where to listen:
/// `--unix-socket <path>`, or `--ip <ip> --port <port>`.
pub open spec fn address_args(a: ConnectAddrView) -> Seq<Seq<char>> {
    match a {
        ConnectAddrView::Unix(path) => seq!["--unix-socket"@, path],
        ConnectAddrView::Tcp { addr, port } => seq![
            "--ip"@,
            ip_text(addr),
            "--port"@,
            decimal(port as nat),
        ],
    }
}

/// All arguments of a unit: the address arguments, then the custom ones.
pub open spec fn unit_args(a: ConnectAddrView, start_args: Option<Seq<Seq<char>>>) -> Seq<Seq<char>> {
    match start_args {
        Some(extra) => address_args(a) + extra,
        None => address_args(a),
    }
}

/// The executable of a unit: in the application directory, the stable or
/// the new executable.
pub open spec fn unit_exec_path(c: ServiceConfigView, version: UnitVersion) -> Seq<char> {
    match version {
        UnitVersion::Stable => path_join(c.app_dir, c.stable_exec_name),
        UnitVersion::New => path_join(c.app_dir, c.new_exec_name),
    }
}

/// The arguments a unit listening on `address` is started with; the
/// backend service we run should accept them.
pub fn unit_command_args(address: &ConnectAddr, start_args: &Option<Vec<String>>) -> (args: Vec<String>)
    ensures
        args.deep_view() == unit_args(address@, start_args.deep_view()),
{
    let mut args: Vec<String> = Vec::new();
    match address {
        ConnectAddr::Unix(sock) => {
            args.push(to_owned_string("--unix-socket"));
            args.push(sock.clone());
        },
        ConnectAddr::Tcp { addr, port } => {
            args.push(to_owned_string("--ip"));
            args.push(addr.to_display_string());
            args.push(to_owned_string("--port"));
            args.push(decimal_string(*port as u64));
        },
    }
    proof {
        assert(args.deep_view() =~= address_args(address@));
    }
    // If custom args provided, pass them
    match start_args {
        Some(extra) => {
            let mut i: usize = 0;
            let ghost base = args.deep_view();
            while i < extra.len()
                invariant
                    i <= extra@.len(),
                    args.deep_view() == base + extra.deep_view().take(i as int),
                decreases extra@.len() - i,
            {
                let ghost before = args.deep_view();
                args.push(extra[i].clone());
                proof {
                    assert(args.deep_view() =~= before.push(extra@[i as int]@));
                    assert(extra.deep_view().take(i + 1) =~= extra.deep_view().take(i as int).push(
                        extra@[i as int]@,
                    ));
                    assert(args.deep_view() =~= base + extra.deep_view().take(i + 1));
                }
                i += 1;
            }
            proof {
                assert(extra.deep_view().take(i as int) =~= extra.deep_view());
            }
        },
        None => {},
    }
    args
}

/// The executable a unit of `version` runs.
pub fn unit_exec(config: &ServiceConfig, version: UnitVersion) -> (p: String)
    ensures
        p@ == unit_exec_path(config@, version),
{
    match version {
        UnitVersion::Stable => join_path(config.app_dir.as_str(), config.stable_exec_name.as_str()),
        UnitVersion::New => join_path(config.app_dir.as_str(), config.new_exec_name.as_str()),
    }
}

} // verus!

verus! {

/// A signed decimal numeral, as `{}` prints an integer.
pub open spec fn signed_decimal(c: int) -> Seq<char> {
    if c < 0 {
        seq!['-'] + decimal((-c) as nat)
    } else {
        decimal(c as nat)
    }
}

/// An optional exit code as `{:?}` prints it.
pub open spec fn exit_code_text(code: Option<i32>) -> Seq<char> {
    match code {
        Some(c) => "Some("@ + signed_decimal(c as int) + ")"@,
        None => "None"@,
    }
}

/// What a unit's exit means: success, or the error of unit `pid` that
/// exited with `code`.
pub open spec fn exit_outcome(pid: u32, success: bool, code: Option<i32>) -> Result<(), ServiceUnitErrorView> {
    if success {
        Ok(())
    } else {
        Err(ServiceUnitErrorView::ExitError { id: pid, err: "Exited with code "@ + exit_code_text(code) })
    }
}

/// The result of a unit whose process `pid` exited: `Ok` when the exit
/// status is a success, otherwise an `ExitError` naming the exit code.
pub fn exit_status_result(pid: u32, success: bool, code: Option<i32>) -> (r: Result<(), ServiceUnitError>)
    ensures
        match r {
            Ok(()) => exit_outcome(pid, success, code) == Ok::<(), ServiceUnitErrorView>(()),
            Err(e) => exit_outcome(pid, success, code) == Err::<(), ServiceUnitErrorView>(e@),
        },
{
    if success {
        return Ok(());
    }
    let mut err = String::new();
    push_str(&mut err, "Exited with code ");
    match code {
        Some(c) => {
            push_str(&mut err, "Some(");
            if c < 0 {
                push_char(&mut err, '-');
                let magnitude: u64 = (-(c as i64)) as u64;
                push_numeral(&mut err, magnitude, 10);
            } else {
                push_numeral(&mut err, c as u64, 10);
            }
            push_str(&mut err, ")");
            proof {
                assert(err@ =~= "Exited with code "@ + exit_code_text(code));
            }
        },
        None => {
            push_str(&mut err, "None");
            proof {
                assert(err@ =~= "Exited with code "@ + exit_code_text(code));
            }
        },
    }
    Err(ServiceUnitError::ExitError { id: pid, err })
}

} // verus!
