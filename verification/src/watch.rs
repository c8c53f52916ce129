//! The decisions around fetching files: finding the size of a file the user
//! did not size from its peer's share listing, and watching one transfer to
//! a verdict. The session calls and the clock stay with the caller, which
//! reports what it heard and does what each step says.

use crate::output::{CliError, CliResult, DownloadRecord, Exit};
use crate::social::{full_path, spec_full_path};
use crate::text::{decimal, decimal_string, owned, str_eq};
use crate::transfer::{local_file, local_target, Request};
use crate::types::{DownloadStatus, SharedDirectory};
use vstd::prelude::*;

verus! {

/// The size the files of `d` give the file at `path`: that of the last
/// among the first `k` whose whole path it is.
pub open spec fn size_in_files(d: SharedDirectory, k: int, path: Seq<char>) -> Option<u64>
    decreases k,
{
    if k <= 0 || k > d.files@.len() {
        None
    } else if spec_full_path(d.name@, d.files@[k - 1].0@) == path {
        Some(d.files@[k - 1].1)
    } else {
        size_in_files(d, k - 1, path)
    }
}

/// The size a share listing gives the file at `path`: that of the last
/// listed file whose whole path it is, if any.
pub open spec fn listed_size(dirs: Seq<SharedDirectory>, path: Seq<char>) -> Option<u64>
    decreases dirs.len(),
{
    if dirs.len() == 0 {
        None
    } else {
        match size_in_files(dirs.last(), dirs.last().files@.len() as int, path) {
            Some(s) => Some(s),
            None => listed_size(dirs.drop_last(), path),
        }
    }
}

/// The size a share listing gives the file at `path` (see `listed_size`).
pub fn size_in_listing(dirs: &Vec<SharedDirectory>, path: &str) -> (r: Option<u64>)
    ensures
        r == listed_size(dirs@, path@),
{
    let mut i = dirs.len();
    assert(dirs@.take(i as int) =~= dirs@);
    while i > 0
        invariant
            i <= dirs@.len(),
            listed_size(dirs@, path@) == listed_size(dirs@.take(i as int), path@),
        decreases i,
    {
        let d = &dirs[i - 1];
        let mut j = d.files.len();
        assert(dirs@.take(i as int).drop_last() =~= dirs@.take(i - 1));
        assert(dirs@.take(i as int).last() == *d);
        while j > 0
            invariant
                0 < i <= dirs@.len(),
                *d == dirs@[i - 1],
                dirs@.take(i as int).last() == *d,
                listed_size(dirs@, path@) == listed_size(dirs@.take(i as int), path@),
                j <= d.files@.len(),
                size_in_files(*d, d.files@.len() as int, path@) == size_in_files(
                    *d,
                    j as int,
                    path@,
                ),
            decreases j,
        {
            let f = &d.files[j - 1];
            let whole = full_path(d.name.as_str(), f.0.as_str());
            if str_eq(whole.as_str(), path) {
                return Some(f.1);
            }
            j = j - 1;
        }
        i = i - 1;
    }
    None
}

/// The listing fetched for `user`, if any: the first kept for that user.
pub open spec fn listing_of(listings: Seq<(String, Vec<SharedDirectory>)>, user: Seq<char>) -> Option<
    Seq<SharedDirectory>,
>
    decreases listings.len(),
{
    if listings.len() == 0 {
        None
    } else if listings[0].0@ == user {
        Some(listings[0].1@)
    } else {
        listing_of(listings.drop_first(), user)
    }
}

fn find_listing<'a>(listings: &'a Vec<(String, Vec<SharedDirectory>)>, user: &str) -> (r: Option<
    &'a Vec<SharedDirectory>,
>)
    ensures
        match r {
            Some(l) => listing_of(listings@, user@) == Some(l@),
            None => listing_of(listings@, user@) is None,
        },
{
    let n = listings.len();
    let mut i: usize = 0;
    assert(listings@.skip(0) =~= listings@);
    while i < n
        invariant
            n == listings@.len(),
            i <= n,
            listing_of(listings@, user@) == listing_of(listings@.skip(i as int), user@),
        decreases n - i,
    {
        assert(listings@.skip(i as int)[0] == listings@[i as int]);
        assert(listings@.skip(i as int).drop_first() =~= listings@.skip(i + 1));
        if str_eq(listings[i].0.as_str(), user) {
            return Some(&listings[i].1);
        }
        i = i + 1;
    }
    None
}

/// Whose share listing to fetch next, if any: going through the requests
/// in order, the user of the first one without a size whose listing is not
/// fetched yet; none once every such request is sized, or as soon as one
/// fetched listing lacks its file (sizing stops there).
pub open spec fn lookup_needed(reqs: Seq<Request>, listings: Seq<(String, Vec<SharedDirectory>)>) -> Option<
    Seq<char>,
>
    decreases reqs.len(),
{
    if reqs.len() == 0 {
        None
    } else if reqs[0].size > 0 {
        lookup_needed(reqs.drop_first(), listings)
    } else {
        match listing_of(listings, reqs[0].user@) {
            None => Some(reqs[0].user@),
            Some(l) => match listed_size(l, reqs[0].path@) {
                Some(_) => lookup_needed(reqs.drop_first(), listings),
                None => None,
            },
        }
    }
}

/// Whose share listing to fetch next (see `lookup_needed`).
pub fn next_lookup(requests: &Vec<Request>, listings: &Vec<(String, Vec<SharedDirectory>)>) -> (r:
    Option<String>)
    ensures
        match r {
            Some(u) => lookup_needed(requests@, listings@) == Some(u@),
            None => lookup_needed(requests@, listings@) is None,
        },
{
    let n = requests.len();
    let mut i: usize = 0;
    assert(requests@.skip(0) =~= requests@);
    while i < n
        invariant
            n == requests@.len(),
            i <= n,
            lookup_needed(requests@, listings@) == lookup_needed(requests@.skip(i as int), listings@),
        decreases n - i,
    {
        let r = &requests[i];
        assert(requests@.skip(i as int)[0] == requests@[i as int]);
        assert(requests@.skip(i as int).drop_first() =~= requests@.skip(i + 1));
        if r.size == 0 {
            match find_listing(listings, r.user.as_str()) {
                None => {
                    return Some(r.user.clone());
                },
                Some(l) => {
                    if size_in_listing(l, r.path.as_str()).is_none() {
                        return None;
                    }
                },
            }
        }
        i = i + 1;
    }
    None
}

/// What to say when a peer's listing lacks the file asked for.
pub open spec fn unshared_message(user: Seq<char>, path: Seq<char>) -> Seq<char> {
    user + " does not share '"@ + path + "' \u{2014} pass --size to download it anyway"@
}

/// The requests with every missing size filled in from the fetched
/// listings, or the first request, in order, without a size whose file its
/// peer's listing lacks (or whose listing is missing).
pub open spec fn sized(reqs: Seq<Request>, listings: Seq<(String, Vec<SharedDirectory>)>) -> Result<
    Seq<(Seq<char>, Seq<char>, u64)>,
    (Seq<char>, Seq<char>),
>
    decreases reqs.len(),
{
    if reqs.len() == 0 {
        Ok(Seq::empty())
    } else {
        let r = reqs[0];
        let size = if r.size > 0 {
            Some(r.size)
        } else {
            match listing_of(listings, r.user@) {
                Some(l) => listed_size(l, r.path@),
                None => None,
            }
        };
        match size {
            None => Err((r.user@, r.path@)),
            Some(s) => match sized(reqs.drop_first(), listings) {
                Ok(rest) => Ok(seq![(r.user@, r.path@, s)] + rest),
                Err(e) => Err(e),
            },
        }
    }
}

/// Requests as values.
pub open spec fn requests_view(v: Seq<Request>) -> Seq<(Seq<char>, Seq<char>, u64)> {
    v.map_values(|r: Request| (r.user@, r.path@, r.size))
}

/// Fills in every missing size from the fetched listings (see `sized`): a
/// transfer of unknown size would be saved empty. A file its peer does not
/// share is the no-results verdict.
pub fn resolve_sizes(requests: Vec<Request>, listings: &Vec<(String, Vec<SharedDirectory>)>) -> (r:
    CliResult<Vec<Request>>)
    ensures
        match sized(requests@, listings@) {
            Ok(v) => r matches Ok(out) && requests_view(out@) == v,
            Err((u, p)) => r matches Err(e) && e.exit == Exit::NoResults && e.message@
                == unshared_message(u, p),
        },
{
    let ghost all = requests@;
    let n = requests.len();
    let mut out: Vec<Request> = Vec::new();
    let mut rest = requests;
    let mut i: usize = 0;
    assert(all.skip(0) =~= all);
    assert(requests_view(out@) =~= Seq::<(Seq<char>, Seq<char>, u64)>::empty());
    let mut remaining: Vec<Request> = Vec::new();
    while rest.len() > 0
        invariant
            remaining@.len() + rest@.len() == all.len(),
            forall|k: int| 0 <= k < remaining@.len() ==> #[trigger] remaining@[k] == all[all.len() - 1 - k],
            rest@ == all.take(rest@.len() as int),
        decreases rest.len(),
    {
        let x = rest.pop().unwrap();
        remaining.push(x);
    }
    assert(rest@.len() == 0);
    while i < n
        invariant
            n == all.len(),
            all == requests@,
            i <= n,
            remaining@.len() == n - i,
            forall|k: int| 0 <= k < remaining@.len() ==> #[trigger] remaining@[k] == all[all.len() - 1 - k],
            match sized(all, listings@) {
                Ok(v) => sized(all.skip(i as int), listings@) matches Ok(w) && v == requests_view(out@) + w,
                Err(e) => sized(all.skip(i as int), listings@) == Err::<
                    Seq<(Seq<char>, Seq<char>, u64)>,
                    (Seq<char>, Seq<char>),
                >(e),
            },
        decreases n - i,
    {
        let mut req = remaining.pop().unwrap();
        assert(req == all[i as int]);
        assert(all.skip(i as int)[0] == all[i as int]);
        assert(all.skip(i as int).drop_first() =~= all.skip(i + 1));
        let ghost before = out@;
        if req.size == 0 {
            let found = match find_listing(listings, req.user.as_str()) {
                Some(l) => size_in_listing(l, req.path.as_str()),
                None => None,
            };
            match found {
                Some(s) => {
                    req.size = s;
                },
                None => {
                    assert(sized(all.skip(i as int), listings@) == Err::<
                        Seq<(Seq<char>, Seq<char>, u64)>,
                        (Seq<char>, Seq<char>),
                    >((req.user@, req.path@)));
                    let mut message = req.user.clone();
                    message.append(" does not share '");
                    message.append(req.path.as_str());
                    message.append("' \u{2014} pass --size to download it anyway");
                    assert(sized(all, listings@) == Err::<
                        Seq<(Seq<char>, Seq<char>, u64)>,
                        (Seq<char>, Seq<char>),
                    >((req.user@, req.path@)));
                    assert(message@ == unshared_message(req.user@, req.path@));
                    return Err(CliError { exit: Exit::NoResults, message });
                },
            }
        }
        out.push(req);
        assert(requests_view(out@) =~= requests_view(before).push((req.user@, req.path@, req.size)));
        proof {
            match sized(all, listings@) {
                Ok(v) => {
                    let w = sized(all.skip(i as int), listings@)->Ok_0;
                    let w2 = sized(all.skip(i + 1), listings@)->Ok_0;
                    assert(w == seq![(req.user@, req.path@, req.size)] + w2);
                    assert(v =~= requests_view(out@) + w2);
                },
                Err(e) => {},
            }
        }
        i = i + 1;
    }
    assert(all.skip(n as int) =~= Seq::<Request>::empty());
    Ok(out)
}

/// What watching a transfer heard.
pub enum Watched {
    /// A status update.
    Status(DownloadStatus),
    /// Nothing this time round.
    Quiet,
    /// The status channel closed.
    Disconnected,
    /// The deadline passed.
    OutOfTime,
}

/// What to do about it.
pub enum WatchStep {
    /// The file is here.
    Done(DownloadRecord),
    /// Give up: remove the transfer, then fail with this.
    Abandon(CliError),
    /// Tell the user this and keep watching.
    Say(String),
    /// Bytes are arriving: report them if a second has passed since the
    /// last report, and keep watching.
    Progress,
    /// Keep watching.
    Wait,
}

/// What to tell the user as a transfer starts.
pub fn requesting_text(request: &Request) -> (r: String)
    ensures
        r@ == "requesting "@ + request.path@ + " from "@ + request.user@ + " ("@ + decimal(
            request.size as nat,
        ) + " bytes)\u{2026}"@,
{
    let mut r = owned("requesting ");
    r.append(request.path.as_str());
    r.append(" from ");
    r.append(request.user.as_str());
    r.append(" (");
    r.append(decimal_string(request.size).as_str());
    r.append(" bytes)\u{2026}");
    r
}

/// The verdict when the session refuses to start a transfer, given what it
/// said.
pub fn cannot_start(reason: &str) -> (e: CliError)
    ensures
        e.exit == Exit::Transfer,
        e.message@ == "cannot start: "@ + reason@,
{
    let mut message = owned("cannot start: ");
    message.append(reason);
    CliError { exit: Exit::Transfer, message }
}

/// One step of watching `request` to a verdict, the status channel being
/// the only thing worth believing: completed is the file at its place in
/// the download folder (`home` standing for a leading `~`); a failure, a
/// closed channel or the deadline abandon it; queued is said; the rest is
/// waited out.
pub fn watch_step(
    request: &Request,
    download_dir: &str,
    home: Option<&str>,
    timeout_secs: u64,
    heard: Watched,
) -> (r: WatchStep)
    ensures
        match heard {
            Watched::Status(DownloadStatus::Completed) => r matches WatchStep::Done(rec) && rec.user
                == request.user && rec.path == request.path && rec.size == request.size
                && rec.file@ == local_target(
                download_dir@,
                request.path@,
                match home {
                    Some(h) => Some(h@),
                    None => None,
                },
            ),
            Watched::Status(DownloadStatus::Failed(reason)) => r matches WatchStep::Abandon(e)
                && e.exit == Exit::Transfer && e.message@ == match reason {
                Some(m) => m@,
                None => "the transfer failed"@,
            },
            Watched::Status(DownloadStatus::Queued) => r matches WatchStep::Say(m) && m@
                == "queued behind "@ + request.user@ + "'s uploads"@,
            Watched::Status(DownloadStatus::InProgress) => r is Progress,
            Watched::Status(DownloadStatus::Paused) => r is Wait,
            Watched::Status(DownloadStatus::TimedOut) => r is Wait,
            Watched::Quiet => r is Wait,
            Watched::Disconnected => r matches WatchStep::Abandon(e) && e.exit == Exit::Transfer
                && e.message@ == "the transfer ended without reporting a result"@,
            Watched::OutOfTime => r matches WatchStep::Abandon(e) && e.exit == Exit::Timeout
                && e.message@ == "gave up after "@ + decimal(timeout_secs as nat) + "s"@,
        },
{
    match heard {
        Watched::Status(DownloadStatus::Completed) => {
            let file = local_file(download_dir, request.path.as_str(), home);
            WatchStep::Done(
                DownloadRecord {
                    user: request.user.clone(),
                    path: request.path.clone(),
                    size: request.size,
                    file,
                },
            )
        },
        Watched::Status(DownloadStatus::Failed(reason)) => {
            let message = match reason {
                Some(m) => m,
                None => owned("the transfer failed"),
            };
            WatchStep::Abandon(CliError { exit: Exit::Transfer, message })
        },
        Watched::Status(DownloadStatus::Queued) => {
            let mut m = owned("queued behind ");
            m.append(request.user.as_str());
            m.append("'s uploads");
            WatchStep::Say(m)
        },
        Watched::Status(DownloadStatus::InProgress) => WatchStep::Progress,
        Watched::Status(DownloadStatus::Paused) => WatchStep::Wait,
        Watched::Status(DownloadStatus::TimedOut) => WatchStep::Wait,
        Watched::Quiet => WatchStep::Wait,
        Watched::Disconnected => WatchStep::Abandon(
            CliError::transfer("the transfer ended without reporting a result"),
        ),
        Watched::OutOfTime => {
            let mut message = owned("gave up after ");
            message.append(decimal_string(timeout_secs).as_str());
            message.append("s");
            WatchStep::Abandon(CliError { exit: Exit::Timeout, message })
        },
    }
}

} // verus!
