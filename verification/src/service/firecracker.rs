//! Firecracker itself, which comes from its own install script.

use vstd::prelude::*;

use super::env::ServiceEnv;
use super::output::{log, step, warn};
use super::payload::normalize_tag;
#[allow(unused_imports)]
use super::payload::tag_of;
use super::privileged::Privileged;
#[allow(unused_imports)]
use super::privileged::Session;
use super::Error;
#[allow(unused_imports)]
use super::{failed, failed_fix, Failure};
#[allow(unused_imports)]
use crate::files::{answered, answers};
use crate::path::joined;
#[allow(unused_imports)]
use crate::path::join;
use crate::shell::CommandRunner;
#[allow(unused_imports)]
use crate::text::{opt_text, texts};

verus! {

pub const STEP: &'static str = "firecracker";

/// Where the install script lies in a checkout.
pub const SCRIPT_PATH: &'static str = "scripts/install-firecracker.sh";

/// Where a file of the repository can be fetched, at the tag of a version or on the
/// main branch.
pub open spec fn raw_url(repo: Seq<char>, version: Option<Seq<char>>, path: Seq<char>) -> Seq<char> {
    let tag = match tag_of(version) {
        Some(tag) => tag,
        None => "main"@,
    };
    "https://raw.githubusercontent.com/"@ + repo + "/"@ + tag + "/"@ + path
}

/// Where a file of the repository can be fetched, at the tag of a version or on the
/// main branch.
pub fn repo_raw_url(repo: &str, version: Option<&str>, path: &str) -> (r: String)
    ensures
        r@ == raw_url(repo@, opt_text(version), path@),
{
    let tag = match normalize_tag(version) {
        Some(tag) => tag,
        None => "main".to_owned(),
    };
    "https://raw.githubusercontent.com/".to_owned().concat(repo).concat("/").concat(&tag).concat(
        "/",
    ).concat(path)
}

/// Whether `fetch` can be asked for every address.
pub open spec fn fetches<G: Fn(&str) -> Result<String, Error>>(fetch: G) -> bool {
    forall|url: &str| call_requires(fetch, (url,))
}

/// Whether `fetch` was asked for an address, and gave that answer: the path of the file that
/// it was fetched into, or why that failed.
pub open spec fn brought<G: Fn(&str) -> Result<String, Error>>(
    fetch: G,
    url: Seq<char>,
    answer: Result<Seq<char>, Failure>,
) -> bool {
    exists|q: &str, r: Result<String, Error>| #[trigger]
        call_ensures(fetch, (q,), r) && q@ == url && answer == match r {
            Ok(path) => Ok::<Seq<char>, Failure>(path@),
            Err(e) => Err(e@),
        }
}

/// Whether `script` is the install script that was found: that of the checkout, or else one
/// that was fetched.
pub open spec fn finds<F: Fn(&str) -> bool, G: Fn(&str) -> Result<String, Error>>(
    is_file: F,
    fetch: G,
    checkout: Option<Seq<char>>,
    repo: Seq<char>,
    version: Option<Seq<char>>,
    script: Result<Seq<char>, Failure>,
) -> bool {
    let local = join(checkout->0, SCRIPT_PATH@);
    ||| checkout is Some && script == Ok::<Seq<char>, Failure>(local) && answered(
        is_file,
        local,
        true,
    )
    ||| (checkout is Some ==> answered(is_file, local, false)) && brought(
        fetch,
        raw_url(repo, version, SCRIPT_PATH@),
        script,
    )
}

impl Session {
    /// Runs the install script and makes sure that Firecracker is there afterwards.
    pub open spec fn run_script(self, sharedir: Seq<char>, script: Seq<char>) -> Session {
        let (after, found) = self.must_env(
            STEP@,
            seq![("FIRECRACKER_NOTICE_DIR"@, join(sharedir, "firecracker"@))],
            "bash"@,
            seq![script],
        ).have("firecracker"@);
        if found {
            after
        } else {
            after.fail(
                failed(STEP@, "firecracker install ran but the binary is still not on PATH"@),
            )
        }
    }

    /// Whether an install script is asked for.
    pub open spec fn wants_script(self, install_deps: bool, check_only: bool) -> bool {
        !self.have("firecracker"@).1 && !check_only && install_deps
    }

    /// Makes sure that Firecracker is there; `script` is the install script, or why
    /// there is none.
    pub open spec fn ensure_firecracker(
        self,
        sharedir: Seq<char>,
        script: Result<Seq<char>, Failure>,
        install_deps: bool,
        check_only: bool,
    ) -> Session {
        let (after, found) = self.have("firecracker"@);
        if found {
            after.log("firecracker present"@)
        } else if check_only {
            after.warn(
                "missing: firecracker (would install the upstream Firecracker binary)"@,
            ).fail(failed(STEP@, "firecracker is required"@))
        } else if !install_deps {
            after.fail(
                failed_fix(
                    STEP@,
                    "firecracker is missing (--no-deps)"@,
                    "install it, or re-run without --no-deps"@,
                ),
            )
        } else {
            let after = after.step("installing firecracker"@);
            match script {
                Err(failure) => after.fail(failure),
                Ok(path) => after.run_script(sharedir, path),
            }
        }
    }
}

/// Makes sure that Firecracker is there: a missing one is installed by the script of
/// the checkout, or by one that `fetch` brings from the repository.
pub fn ensure_firecracker<
    R: CommandRunner,
    F: Fn(&str) -> bool,
    G: Fn(&str) -> Result<String, Error>,
>(
    privileged: &mut Privileged<R>,
    env: &ServiceEnv,
    checkout: Option<&str>,
    repo: &str,
    version: Option<&str>,
    install_deps: bool,
    check_only: bool,
    is_file: &F,
    fetch: &G,
) -> (r: Result<(), Error>)
    requires
        answers(*is_file),
        fetches(*fetch),
    ensures
        if old(privileged).session().wants_script(install_deps, check_only) {
            exists|script: Result<Seq<char>, Failure>| #[trigger]
                finds(*is_file, *fetch, opt_text(checkout), repo@, opt_text(version), script)
                    && final(privileged).ended(r) == old(privileged).session().ensure_firecracker(
                    env.sharedir@,
                    script,
                    install_deps,
                    check_only,
                )
        } else {
            final(privileged).ended(r) == old(privileged).session().ensure_firecracker(
                env.sharedir@,
                Ok(Seq::empty()),
                install_deps,
                check_only,
            )
        },
{
    if privileged.have("firecracker") {
        privileged.say(log("firecracker present"));
        return Ok(());
    }
    if check_only {
        privileged.say(
            warn("missing: firecracker (would install the upstream Firecracker binary)"),
        );
        return Err(Error::step(STEP, "firecracker is required".to_owned()));
    }
    if !install_deps {
        return Err(
            Error::step_fix(
                STEP,
                "firecracker is missing (--no-deps)".to_owned(),
                "install it, or re-run without --no-deps".to_owned(),
            ),
        );
    }
    privileged.say(step("installing firecracker"));
    let notice_dir = joined(&env.sharedir, "firecracker");
    let local = match checkout {
        Some(root) => {
            let path = joined(root, SCRIPT_PATH);
            let there = is_file(&path);
            assert(answered(*is_file, path@, there));
            if there {
                Some(path)
            } else {
                None
            }
        },
        None => None,
    };
    let script = match local {
        Some(path) => path,
        None => {
            let url = repo_raw_url(repo, version, SCRIPT_PATH);
            let answer = fetch(&url);
            assert(brought(
                *fetch,
                url@,
                match answer {
                    Ok(path) => Ok(path@),
                    Err(e) => Err(e@),
                },
            ));
            match answer {
                Ok(path) => path,
                Err(e) => {
                    assert(finds(
                        *is_file,
                        *fetch,
                        opt_text(checkout),
                        repo@,
                        opt_text(version),
                        Err(e@),
                    ));
                    return Err(e);
                },
            }
        },
    };
    assert(finds(
        *is_file,
        *fetch,
        opt_text(checkout),
        repo@,
        opt_text(version),
        Ok(script@),
    ));
    let envs = [("FIRECRACKER_NOTICE_DIR", notice_dir.as_str())];
    assert(envs@.map_values(|e: (&str, &str)| (e.0@, e.1@)) =~= seq![
        ("FIRECRACKER_NOTICE_DIR"@, notice_dir@),
    ]);
    let args = [script.as_str()];
    assert(texts(args@) =~= seq![script@]);
    match privileged.run_env(STEP, &envs, "bash", &args) {
        Ok(_) => {},
        Err(e) => {
            return Err(e);
        },
    }
    if privileged.have("firecracker") {
        Ok(())
    } else {
        Err(
            Error::step(
                STEP,
                "firecracker install ran but the binary is still not on PATH".to_owned(),
            ),
        )
    }
}

} // verus!
