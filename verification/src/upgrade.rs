//! Upgrades: which `apt` command each admin upgrade endpoint runs, and how
//! its output is streamed back line by line.
use vstd::prelude::*;

use crate::text::texts;
use crate::error::ApiError;
use crate::users::require_admin;

verus! {

/// The `apt` arguments of an upgrade check: `update`.
pub open spec fn check_args() -> Seq<Seq<char>> {
    seq!["update"@]
}

/// The `apt` arguments of an upgrade: `install -y <package>`.
pub open spec fn install_args(package: Seq<char>) -> Seq<Seq<char>> {
    seq!["install"@, "-y"@, package]
}

/// `POST /api/upgrade/check`: for an admin, the `apt` arguments to run
/// (`apt update`); anyone else is answered `Forbidden`.
pub fn check_for_upgrades(is_admin: bool) -> (r: Result<Vec<String>, ApiError>)
    ensures
        is_admin <==> r is Ok,
        r matches Ok(args) ==> texts(args@) == check_args(),
        r matches Err(e) ==> crate::users::forbidden_with(e, "Admin access required"@),
{
    require_admin(is_admin)?;
    let mut args: Vec<String> = Vec::new();
    args.push(String::from_str("update"));
    assert(texts(args@) =~= check_args());
    Ok(args)
}

/// `POST /api/upgrade/install`: for an admin, the `apt` arguments to run
/// (`apt install -y <package>`); anyone else is answered `Forbidden`.
pub fn upgrade_now(is_admin: bool, package: &str) -> (r: Result<Vec<String>, ApiError>)
    ensures
        is_admin <==> r is Ok,
        r matches Ok(args) ==> texts(args@) == install_args(package@),
        r matches Err(e) ==> crate::users::forbidden_with(e, "Admin access required"@),
{
    require_admin(is_admin)?;
    let mut args: Vec<String> = Vec::new();
    args.push(String::from_str("install"));
    args.push(String::from_str("-y"));
    args.push(String::from_str(package));
    assert(texts(args@) =~= install_args(package@));
    Ok(args)
}

/// A line of `apt` output as streamed to the client: the line and a newline.
pub fn apt_output_line(line: String) -> (r: String)
    ensures
        r@ == line@ + "\n"@,
{
    let mut r = line;
    r.append("\n");
    r
}

/// What the client is sent when `apt` cannot be started.
pub fn apt_spawn_failure_line(reason: &str) -> (r: String)
    ensures
        r@ == "Error spawning apt: "@ + reason@ + "\n"@,
{
    let mut r = String::from_str("Error spawning apt: ");
    r.append(reason);
    r.append("\n");
    r
}

} // verus!
