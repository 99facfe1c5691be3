//! Reading the output of helper programs: tool versions, package installs.

use vstd::prelude::*;
use crate::text::{
    contains, contains_exec, ends_with, ends_with_exec, lines, lines_exec, signed_decimal,
    signed_decimal_string, to_chars, trim, trim_str, from_chars,
};

verus! {

broadcast use vstd::string::group_string_axioms;

/// What `str::to_lowercase` gives for `s`.
pub uninterp spec fn spec_to_lowercase(s: Seq<char>) -> Seq<char>;

/// `s` in lower case, by `str::to_lowercase` (Unicode's lower-case mapping,
/// which can change the length).  The contract claims only that the result
/// depends on `s` alone.
#[verifier::external_body]
fn to_lowercase(s: &str) -> (r: String)
    ensures
        r@ == spec_to_lowercase(s@),
{
    s.to_lowercase()
}

/// The texts that the output of `cmd` joins: its standard output and its
/// error output, each trimmed, the empty ones left out, separated by a line
/// break.
pub open spec fn command_output_spec(out: Seq<char>, err: Seq<char>) -> Seq<char> {
    let a = trim(out);
    let b = trim(err);
    if a.len() == 0 {
        b
    } else if b.len() == 0 {
        a
    } else {
        a + "\n"@ + b
    }
}

/// The text of a program's output: both streams, trimmed, non-empty ones
/// joined by a line break.
pub fn command_output_text(stdout: &str, stderr: &str) -> (r: String)
    ensures
        r@ == command_output_spec(stdout@, stderr@),
{
    let a = trim_str(stdout);
    let b = trim_str(stderr);
    if a.as_str().is_empty() {
        b
    } else if b.as_str().is_empty() {
        a
    } else {
        let mut r = a;
        r.append("\n");
        r.append(b.as_str());
        r
    }
}

/// What winget prints when the package needs no installing, in lower case.
pub open spec fn installed_phrases() -> Seq<Seq<char>> {
    seq![
        "already installed"@,
        "no available upgrade"@,
        "kein verfügbares upgrade"@,
        "kein verfugbares upgrade"@,
        "no newer package versions are available"@,
        "keine neueren paketversionen verfügbar"@,
        "keine neueren paketversionen verfugbar"@,
    ]
}

/// Whether winget's output says that the package is installed already.
pub open spec fn means_installed(output: Seq<char>) -> bool {
    exists|i: int|
        0 <= i < installed_phrases().len() && contains(
            spec_to_lowercase(output),
            #[trigger] installed_phrases()[i],
        )
}

/// Whether winget's output says that the package is installed already (in
/// any letter case).
pub fn winget_output_means_installed(output: &str) -> (r: bool)
    ensures
        r == means_installed(output@),
{
    let lower = to_lowercase(output);
    let l = to_chars(lower.as_str());
    let phrases = [
        "already installed",
        "no available upgrade",
        "kein verfügbares upgrade",
        "kein verfugbares upgrade",
        "no newer package versions are available",
        "keine neueren paketversionen verfügbar",
        "keine neueren paketversionen verfugbar",
    ];
    let ghost ps = installed_phrases();
    let mut i: usize = 0;
    while i < 7
        invariant
            i <= 7,
            ps == installed_phrases(),
            l@ == spec_to_lowercase(output@),
            forall|j: int| 0 <= j < 7 ==> #[trigger] phrases@[j]@ == ps[j],
            forall|j: int| 0 <= j < i ==> !contains(l@, #[trigger] ps[j]),
        decreases 7 - i,
    {
        let p = to_chars(phrases[i]);
        if contains_exec(l.as_slice(), p.as_slice()) {
            assert(contains(l@, ps[i as int]));
            return true;
        }
        i = i + 1;
    }
    false
}

/// The text of an exit code: its number, or `"unknown"` when there is none.
pub open spec fn code_text(code: Option<i32>) -> Seq<char> {
    match code {
        Some(c) => signed_decimal(c as int),
        None => "unknown"@,
    }
}

/// The message for a failed winget install of `package`.
pub open spec fn winget_error_spec(package: Seq<char>, code: Option<i32>, output: Seq<char>) -> Seq<char> {
    let head = "Installation failed for "@ + package + ": winget exited with code "@ + code_text(code)
        + "."@;
    let details = trim(output);
    if details.len() == 0 {
        head
    } else {
        head + "\n"@ + details
    }
}

/// The message for a failed winget install of `package`, with winget's exit
/// code and its output.
pub fn format_winget_error(package: &str, code: Option<i32>, output: &str) -> (r: String)
    ensures
        r@ == winget_error_spec(package@, code, output@),
{
    let details = trim_str(output);
    let code_str = match code {
        Some(c) => signed_decimal_string(c as i64),
        None => String::from_str("unknown"),
    };
    let mut r = String::from_str("Installation failed for ");
    r.append(package);
    r.append(": winget exited with code ");
    r.append(code_str.as_str());
    r.append(".");
    if !details.as_str().is_empty() {
        r.append("\n");
        r.append(details.as_str());
    }
    r
}

/// The outcome of a winget install: the success message when winget succeeded
/// or found the package installed, else the failure message.
pub open spec fn winget_outcome_spec(
    package: Seq<char>,
    success: bool,
    code: Option<i32>,
    output: Seq<char>,
    done: Seq<char>,
) -> Result<Seq<char>, Seq<char>> {
    if success || means_installed(output) {
        Ok(done)
    } else {
        Err(winget_error_spec(package, code, output))
    }
}

/// The outcome of a winget install of `package`; `done` is the message for
/// success.
pub fn winget_outcome(package: &str, success: bool, code: Option<i32>, output: &str, done: &str) -> (r: Result<String, String>)
    ensures
        match r {
            Ok(s) => winget_outcome_spec(package@, success, code, output@, done@) == Ok::<Seq<char>, Seq<char>>(s@),
            Err(e) => winget_outcome_spec(package@, success, code, output@, done@) == Err::<Seq<char>, Seq<char>>(e@),
        },
{
    if success || winget_output_means_installed(output) {
        Ok(String::from_str(done))
    } else {
        Err(format_winget_error(package, code, output))
    }
}

/// The version a tool reports: the first line of its output, or `"unknown"`
/// when it printed nothing.
pub open spec fn version_line_spec(out: Seq<char>) -> Seq<char> {
    let ls = lines(out);
    if ls.len() > 0 {
        ls[0]
    } else {
        "unknown"@
    }
}

/// Whether a tool ran successfully, and the version it reports.
pub fn tool_check_result(success: bool, stdout: &str) -> (r: (bool, String))
    ensures
        r.0 == success,
        r.1@ == version_line_spec(stdout@),
{
    let c = to_chars(stdout);
    let ls = lines_exec(c.as_slice());
    if ls.len() > 0 {
        proof {
            assert(ls@.map_values(|x: Vec<char>| x@)[0] == ls@[0]@);
        }
        (success, from_chars(ls[0].as_slice()))
    } else {
        (success, String::from_str("unknown"))
    }
}

/// The program and arguments that run a downloaded installer: `msiexec` for
/// an `.msi` package, else the file itself.
pub open spec fn installer_command_spec(path: Seq<char>) -> (Seq<char>, Seq<Seq<char>>) {
    if ends_with(path, ".msi"@) {
        ("msiexec"@, seq!["/i"@, path, "/passive"@])
    } else {
        (path, Seq::empty())
    }
}

/// The program and arguments that run the installer at `path`.
pub fn installer_command(path: &str) -> (r: (String, Vec<String>))
    ensures
        (r.0@, r.1@.map_values(|s: String| s@)) == installer_command_spec(path@),
{
    let p = to_chars(path);
    let msi = to_chars(".msi");
    let mut args: Vec<String> = Vec::new();
    if ends_with_exec(p.as_slice(), msi.as_slice()) {
        args.push(String::from_str("/i"));
        args.push(String::from_str(path));
        args.push(String::from_str("/passive"));
        assert(args@.map_values(|s: String| s@) =~= seq!["/i"@, path@, "/passive"@]);
        (String::from_str("msiexec"), args)
    } else {
        assert(args@.map_values(|s: String| s@) =~= Seq::<Seq<char>>::empty());
        (String::from_str(path), args)
    }
}

/// The winget arguments that install the package `id` (written
/// `--id=<package id>`): exactly that package, silently, with its source and
/// package agreements accepted.
pub open spec fn winget_install_args_spec(id: Seq<char>) -> Seq<Seq<char>> {
    seq![
        "install"@,
        id,
        "-e"@,
        "--silent"@,
        "--accept-source-agreements"@,
        "--accept-package-agreements"@,
    ]
}

/// The winget arguments that install the package `id`.
pub fn winget_install_args(id: &str) -> (r: Vec<String>)
    ensures
        r@.map_values(|s: String| s@) == winget_install_args_spec(id@),
{
    let r = vec![
        String::from_str("install"),
        String::from_str(id),
        String::from_str("-e"),
        String::from_str("--silent"),
        String::from_str("--accept-source-agreements"),
        String::from_str("--accept-package-agreements"),
    ];
    assert(r@.map_values(|s: String| s@) =~= winget_install_args_spec(id@));
    r
}

/// What updating the Discord presence does next.
#[derive(Debug, Clone, Copy, PartialEq, Eq, Structural)]
pub enum PresenceStep {
    /// The presence is switched off: close any open connection.
    Close,
    /// Connect, then show the activity.
    Connect,
    /// Show the activity on the open connection.
    Show,
}

/// What updating the Discord presence does first: close when it is switched
/// off, else connect when no connection is open, else show the activity.
pub open spec fn presence_step_spec(enabled: bool, connected: bool) -> PresenceStep {
    if !enabled {
        PresenceStep::Close
    } else if !connected {
        PresenceStep::Connect
    } else {
        PresenceStep::Show
    }
}

/// What updating the Discord presence does first, from whether it is switched
/// on in the settings and whether a connection is open.
pub fn presence_step(enabled: bool, connected: bool) -> (r: PresenceStep)
    ensures
        r == presence_step_spec(enabled, connected),
{
    if !enabled {
        PresenceStep::Close
    } else if !connected {
        PresenceStep::Connect
    } else {
        PresenceStep::Show
    }
}

/// What follows one outside step of a presence update.
#[derive(Debug)]
pub enum PresenceReply {
    /// Take this step next.
    Continue(PresenceStep),
    /// The update is over, with this result for the caller.
    Finish(Result<(), String>),
}

/// After `step` came out as `outcome`: whether a connection is kept, and what
/// follows.  Closing ends the update successfully whatever the close gave.  A
/// connection that could not be opened is not kept, and one on which the
/// activity could not be shown is dropped, so that the next update connects
/// anew; either way the update fails with the error.  A connection that
/// opened is kept and the activity is shown next.
pub open spec fn presence_next_spec(step: PresenceStep, outcome: Result<(), String>) -> (bool, PresenceReply) {
    match step {
        PresenceStep::Close => (false, PresenceReply::Finish(Ok(()))),
        PresenceStep::Connect => match outcome {
            Ok(()) => (true, PresenceReply::Continue(PresenceStep::Show)),
            Err(e) => (false, PresenceReply::Finish(Err(e))),
        },
        PresenceStep::Show => match outcome {
            Ok(()) => (true, PresenceReply::Finish(Ok(()))),
            Err(e) => (false, PresenceReply::Finish(Err(e))),
        },
    }
}

/// After `step` came out as `outcome`: whether a connection is kept, and what
/// follows.
pub fn presence_next(step: PresenceStep, outcome: Result<(), String>) -> (r: (bool, PresenceReply))
    ensures
        r == presence_next_spec(step, outcome),
{
    match step {
        PresenceStep::Close => (false, PresenceReply::Finish(Ok(()))),
        PresenceStep::Connect => match outcome {
            Ok(()) => (true, PresenceReply::Continue(PresenceStep::Show)),
            Err(e) => (false, PresenceReply::Finish(Err(e))),
        },
        PresenceStep::Show => match outcome {
            Ok(()) => (true, PresenceReply::Finish(Ok(()))),
            Err(e) => (false, PresenceReply::Finish(Err(e))),
        },
    }
}

} // verus!
