//! What holds of the kernels in the cache over whole jobs, and over one job after another.

use vstd::prelude::*;

#[allow(unused_imports)]
use super::kernel::{BootPair, Deed, Job, News, Phase, Progress};
#[allow(unused_imports)]
use super::Refusal;
#[allow(unused_imports)]
use crate::digest::pin;
#[allow(unused_imports)]
use crate::path;

verus! {

/// The files of the host, by their paths.
pub type Files = Map<Seq<char>, Seq<u8>>;

/// Whether some files are the same but for one path.
pub open spec fn alike_but(a: Files, b: Files, p: Seq<char>) -> bool {
    a.remove(p) == b.remove(p)
}

/// Whether an action on some files could come to that, and leave those files. A file that is
/// there can be read and removed; what fails midway may leave anything at its own path.
pub open spec fn acts(before: Files, deed: Deed, news: News, after: Files) -> bool {
    match deed {
        Deed::MakeDirectory(_) | Deed::Inspect(_) => after == before,
        Deed::Read(p) => after == before && if before.contains_key(p) {
            news == News::Bytes(before[p])
        } else {
            news is Unopened
        },
        Deed::Remove(p) => after == before.remove(p),
        Deed::Copy { from: _, to } => alike_but(before, after, to),
        Deed::Download { url: _, to } => alike_but(before, after, to),
        Deed::Write { to, bytes } => if news is Done {
            after == before.insert(to, bytes)
        } else {
            alike_but(before, after, to)
        },
        Deed::Rename { from, to } => if news is Done {
            before.contains_key(from) && after == before.remove(from).insert(to, before[from])
        } else {
            after == before
        },
    }
}

impl Job {
    /// How a job begins.
    pub open spec fn start(self) -> Progress {
        Progress::Next(Phase::Making, Deed::MakeDirectory(self.directory()))
    }

    /// Whether the kernel has the name of a file, as every pinned one has.
    pub open spec fn named(self) -> bool {
        path::is_name(self.pinned.image)
    }

    /// Whether the names of the temporary files are not that of the kernel.
    spec fn apart(self) -> bool {
        self.staged() != self.cached() && self.package() != self.cached()
    }

    /// Whether the job can go on as a trace says: what came of each action, and the files then.
    pub open spec fn goes(self, at: Progress, files: Files, trace: Seq<(News, Files)>) -> bool
        decreases trace.len(),
    {
        trace.len() == 0 || match at {
            Progress::Over(_) => false,
            Progress::Next(phase, deed) => acts(files, deed, trace[0].0, trace[0].1) && self.goes(
                self.advance(phase, trace[0].0),
                trace[0].1,
                trace.skip(1),
            ),
        }
    }

    /// How far the job is after a trace.
    pub open spec fn gone(self, at: Progress, trace: Seq<(News, Files)>) -> Progress
        decreases trace.len(),
    {
        if trace.len() == 0 {
            at
        } else {
            match at {
                Progress::Over(_) => at,
                Progress::Next(phase, _) => self.gone(
                    self.advance(phase, trace[0].0),
                    trace.skip(1),
                ),
            }
        }
    }

    /// Whether an action of the trace is of that kind.
    pub open spec fn did(
        self,
        at: Progress,
        trace: Seq<(News, Files)>,
        kind: spec_fn(Deed) -> bool,
    ) -> bool
        decreases trace.len(),
    {
        trace.len() > 0 && match at {
            Progress::Over(_) => false,
            Progress::Next(phase, deed) => kind(deed) || self.did(
                self.advance(phase, trace[0].0),
                trace.skip(1),
                kind,
            ),
        }
    }

    /// Whether the cache holds the pinned kernel.
    pub open spec fn has_kernel(self, files: Files) -> bool {
        files.contains_key(self.cached()) && self.verdict(files[self.cached()]) is Ok
    }

    /// What holds between two actions.
    spec fn sane(self, at: Progress, files: Files) -> bool {
        match at {
            Progress::Over(Ok(pair)) => pair == self.pair() && self.has_kernel(files),
            Progress::Over(Err(_)) => true,
            Progress::Next(Phase::Making, deed) => deed == Deed::MakeDirectory(self.directory()),
            Progress::Next(Phase::Checking, deed) => deed == Deed::Read(self.cached()),
            Progress::Next(Phase::Clearing, deed) => deed == Deed::Remove(self.cached()),
            Progress::Next(phase, deed) => {
                &&& !files.contains_key(self.cached())
                &&& match phase {
                    Phase::Verifying => deed == Deed::Read(self.staged()),
                    Phase::Publishing => deed == (Deed::Rename {
                        from: self.staged(),
                        to: self.cached(),
                    }) && files.contains_key(self.staged()) && self.verdict(files[self.staged()])
                        is Ok,
                    Phase::Inspecting => deed is Inspect,
                    Phase::Copying => deed is Copy && deed->Copy_to == self.staged(),
                    Phase::Fetching => deed is Download && deed->Download_to == self.package(),
                    Phase::Writing => deed is Write && deed->Write_to == self.staged(),
                    Phase::Dropping(_) => deed == Deed::Remove(self.package()),
                    Phase::Discarding(_) => deed == Deed::Remove(self.staged()),
                    _ => true,
                }
            },
        }
    }
}

/// The files after a trace.
pub open spec fn files_after(files: Files, trace: Seq<(News, Files)>) -> Files {
    if trace.len() == 0 {
        files
    } else {
        trace.last().1
    }
}

proof fn one_action_stays_sane(job: Job, phase: Phase, deed: Deed, files: Files, news: News, after: Files)
    requires
        job.apart(),
        job.sane(Progress::Next(phase, deed), files),
        acts(files, deed, news, after),
    ensures
        job.sane(job.advance(phase, news), after),
        job.advance(phase, news) matches Progress::Over(Err(_)) ==> phase is Making
            || !after.contains_key(job.cached()),
{
    let cached = job.cached();
    match deed {
        Deed::Copy { from: _, to } | Deed::Download { url: _, to } | Deed::Write { to, bytes: _ } => {
            assert(files.remove(to).contains_key(cached) == files.contains_key(cached));
            assert(after.remove(to).contains_key(cached) == after.contains_key(cached));
        },
        _ => {},
    }
}

proof fn a_job_stays_sane(job: Job, at: Progress, files: Files, trace: Seq<(News, Files)>)
    requires
        job.apart(),
        job.sane(at, files),
        job.goes(at, files, trace),
    ensures
        job.sane(job.gone(at, trace), files_after(files, trace)),
        trace.len() > 0 && !(at is Next && at->Next_0 is Making) ==> (job.gone(at, trace) matches Progress::Over(
            Err(_),
        ) ==> !files_after(files, trace).contains_key(job.cached())),
    decreases trace.len(),
{
    if trace.len() > 0 {
        if let Progress::Next(phase, deed) = at {
            let (news, after) = trace[0];
            let rest = trace.skip(1);
            one_action_stays_sane(job, phase, deed, files, news, after);
            a_job_stays_sane(job, job.advance(phase, news), after, rest);
            if rest.len() > 0 {
                assert(rest.last() == trace.last());
            } else {
                assert(trace.last() == trace[0]);
            }
        }
    }
}

proof fn temporary_names_are_apart(job: Job)
    requires
        job.named(),
    ensures
        job.apart(),
{
    reveal_strlit("/");
    reveal_strlit(".");
    reveal_strlit("-");
    reveal_strlit(".oci/kernel");
    reveal_strlit(".partial");
    reveal_strlit("x86_64");
    reveal_strlit("aarch64");
    let arch = job.architecture.name();
    let image = job.pinned.image;
    let root = job.image_root;
    let above = if root.len() == 0 || root.last() == '/' {
        root
    } else {
        root + "/"@
    };
    let upper = above + ".oci/kernel"@ + "/"@;
    assert(image.contains(image[0]));
    assert(job.relative() =~= ".oci/kernel"@ + "/"@ + arch + "/"@ + image);
    assert(job.cached() =~= upper + arch + "/"@ + image);
    assert(path::is_name(arch)) by {
        if job.architecture is X86_64 {
            assert forall|i: int| 0 <= i < arch.len() implies arch[i] != '/' by {
                assert(i == 0 || i == 1 || i == 2 || i == 3 || i == 4 || i == 5);
            }
        } else {
            assert forall|i: int| 0 <= i < arch.len() implies arch[i] != '/' by {
                assert(i == 0 || i == 1 || i == 2 || i == 3 || i == 4 || i == 5 || i == 6);
            }
        }
    }
    path::parent_of_a_file(upper, arch, image);
    assert(job.directory() == upper + arch);
    assert(arch.contains(arch.last()));
    let staged_name = "."@ + image + "-"@ + job.token + ".partial"@;
    assert(job.staged() =~= upper + arch + "/"@ + staged_name);
    assert(job.staged().len() > job.cached().len());
    let at = above.len() as int + 12;
    assert(job.cached()[at] == arch[0]);
    assert(path::join(root, ".oci/kernel"@) =~= above + ".oci/kernel"@);
    let package_name = "."@ + job.pinned.alias + "-"@ + job.token + ".tar.zst"@;
    assert(package_name[0] == '.');
    assert(job.package() =~= upper + package_name);
    assert(job.package()[at] == '.');
}

/// A job that succeeds leaves the pinned kernel in the cache, and names it. One that fails,
/// other than for want of the cache's directory, leaves no kernel there.
pub proof fn a_job_leaves_the_pinned_kernel_or_none(
    job: Job,
    files: Files,
    trace: Seq<(News, Files)>,
)
    requires
        job.named(),
        job.goes(job.start(), files, trace),
    ensures
        job.gone(job.start(), trace) matches Progress::Over(Ok(pair)) ==> {
            let left = files_after(files, trace);
            &&& pair == job.pair() && pair.kernel == job.relative() && pair.initrd is None
            &&& left.contains_key(job.cached())
            &&& pin(left[job.cached()]) == job.pinned.image_digest
        },
        job.gone(job.start(), trace) is Over && job.gone(job.start(), trace)->Over_0 is Err
            && trace.len() > 1 ==> !files_after(files, trace).contains_key(job.cached()),
{
    temporary_names_are_apart(job);
    a_job_stays_sane(job, job.start(), files, trace);
    if trace.len() > 1 {
        let (news, after) = trace[0];
        let rest = trace.skip(1);
        let next = job.advance(Phase::Making, news);
        one_action_stays_sane(job, Phase::Making, Deed::MakeDirectory(job.directory()), files, news, after);
        a_job_stays_sane(job, next, after, rest);
        assert(rest.last() == trace.last());
    }
}

/// Where the cache holds the pinned kernel and its directory can be made, a job changes no
/// file, asks nothing of the registry, and ends with the kernel.
pub proof fn a_warm_job_downloads_nothing(job: Job, files: Files, trace: Seq<(News, Files)>)
    requires
        job.has_kernel(files),
        job.goes(job.start(), files, trace),
        trace.len() > 0 ==> trace[0].0 is Done,
    ensures
        files_after(files, trace) == files,
        !job.did(job.start(), trace, |deed: Deed| deed is Download),
        trace.len() >= 2 ==> job.gone(job.start(), trace) == Progress::Over(
            Ok::<BootPair, Refusal>(job.pair()),
        ),
        trace.len() <= 2,
{
    if trace.len() > 0 {
        let kind = |deed: Deed| deed is Download;
        let rest = trace.skip(1);
        let checking = job.advance(Phase::Making, trace[0].0);
        assert(checking == Progress::Next(Phase::Checking, Deed::Read(job.cached())));
        assert(job.goes(checking, trace[0].1, rest));
        if rest.len() > 0 {
            assert(rest[0] == trace[1]);
            let over = job.advance(Phase::Checking, rest[0].0);
            assert(over == Progress::Over(Ok::<BootPair, Refusal>(job.pair())));
            assert(job.goes(over, rest[0].1, rest.skip(1)));
            assert(rest.skip(1).len() == 0);
            assert(!job.did(over, rest.skip(1), kind));
            assert(!job.did(checking, rest, kind));
            assert(job.gone(over, rest.skip(1)) == over);
            assert(job.gone(checking, rest) == over);
        } else {
            assert(!job.did(checking, rest, kind));
        }
    }
}

/// After a job that succeeded, another one for the same kernel, whatever its temporary names,
/// gives the same pair and does not contact the registry.
pub proof fn a_second_job_downloads_nothing(
    job: Job,
    token: Seq<char>,
    files: Files,
    first: Seq<(News, Files)>,
    second: Seq<(News, Files)>,
)
    requires
        job.named(),
        job.goes(job.start(), files, first),
        job.gone(job.start(), first) is Over,
        job.gone(job.start(), first)->Over_0 is Ok,
        ({
            let again = Job { token, ..job };
            &&& again.goes(again.start(), files_after(files, first), second)
            &&& again.gone(again.start(), second) is Over
            &&& second.len() > 0 ==> second[0].0 is Done
        }),
    ensures
        ({
            let again = Job { token, ..job };
            &&& again.gone(again.start(), second) == job.gone(job.start(), first)
            &&& !again.did(again.start(), second, |deed: Deed| deed is Download)
            &&& files_after(files_after(files, first), second) == files_after(files, first)
        }),
{
    let again = Job { token, ..job };
    temporary_names_are_apart(job);
    a_job_stays_sane(job, job.start(), files, first);
    let between = files_after(files, first);
    assert(again.cached() == job.cached());
    assert(again.has_kernel(between));
    a_warm_job_downloads_nothing(again, between, second);
    if second.len() == 1 {
        assert(again.gone(again.start(), second) == again.gone(
            again.advance(Phase::Making, second[0].0),
            second.skip(1),
        ));
    }
}

/// What the cache holds where it is not the pinned kernel is not given out: a job that
/// succeeds put another in its place, from the operator's or from the registry's.
pub proof fn a_corrupted_kernel_is_replaced(job: Job, files: Files, trace: Seq<(News, Files)>)
    requires
        job.named(),
        !job.has_kernel(files),
        job.goes(job.start(), files, trace),
        job.gone(job.start(), trace) is Over,
        job.gone(job.start(), trace)->Over_0 is Ok,
    ensures
        job.has_kernel(files_after(files, trace)),
        job.did(job.start(), trace, |deed: Deed| deed is Download || deed is Copy),
{
    let kind = |deed: Deed| deed is Download || deed is Copy;
    temporary_names_are_apart(job);
    a_job_stays_sane(job, job.start(), files, trace);
    let rest = trace.skip(1);
    assert(trace.len() > 0);
    let checking = job.advance(Phase::Making, trace[0].0);
    assert(job.goes(checking, files, rest));
    assert(checking is Next) by {
        if checking is Over {
            assert(job.gone(checking, rest) == checking);
        }
    }
    assert(rest.len() > 0);
    let clearing = job.advance(Phase::Checking, rest[0].0);
    assert(clearing is Next && clearing->Next_0 is Clearing);
    let third = rest.skip(1);
    assert(job.goes(clearing, rest[0].1, third));
    assert(job.gone(checking, rest) == job.gone(clearing, third));
    assert(third.len() > 0);
    let staging = job.advance(Phase::Clearing, third[0].0);
    let fourth = third.skip(1);
    assert(staging == job.staging());
    assert(job.goes(staging, third[0].1, fourth));
    assert(job.gone(clearing, third) == job.gone(staging, fourth));
    if staging->Next_0 is Discarding {
        a_discarding_job_fails(job, staging, third[0].1, fourth);
    } else {
        assert(fourth.len() > 0);
        if staging->Next_1 is Inspect {
            let copying = job.advance(Phase::Inspecting, fourth[0].0);
            let fifth = fourth.skip(1);
            assert(job.goes(copying, fourth[0].1, fifth));
            assert(job.gone(staging, fourth) == job.gone(copying, fifth));
            if copying->Next_0 is Discarding {
                a_discarding_job_fails(job, copying, fourth[0].1, fifth);
            }
            assert(fifth.len() > 0);
            assert(kind(copying->Next_1));
            assert(job.did(copying, fifth, kind));
        }
        assert(job.did(staging, fourth, kind));
    }
    assert(job.did(clearing, third, kind));
    assert(job.did(checking, rest, kind));
}

proof fn a_discarding_job_fails(job: Job, at: Progress, files: Files, trace: Seq<(News, Files)>)
    requires
        at is Next,
        at->Next_0 is Discarding,
        job.goes(at, files, trace),
    ensures
        !(job.gone(at, trace) matches Progress::Over(Ok(_))),
{
    if trace.len() > 0 {
        let over = job.advance(at->Next_0, trace[0].0);
        assert(over is Over && over->Over_0 is Err);
        assert(job.gone(over, trace.skip(1)) == over);
    }
}

/// Where the operator named a kernel, no job contacts the registry.
pub proof fn the_operator_keeps_the_registry_out(
    job: Job,
    at: Progress,
    files: Files,
    trace: Seq<(News, Files)>,
)
    requires
        job.override_path is Some,
        at is Next ==> !(at->Next_1 is Download),
        job.goes(at, files, trace),
    ensures
        !job.did(at, trace, |deed: Deed| deed is Download),
    decreases trace.len(),
{
    if trace.len() > 0 {
        if let Progress::Next(phase, deed) = at {
            the_operator_keeps_the_registry_out(
                job,
                job.advance(phase, trace[0].0),
                trace[0].1,
                trace.skip(1),
            );
        }
    }
}

} // verus!
