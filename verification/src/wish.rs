//! Standing searches: which wishes a run covers, how the wishlist changes,
//! and when the next sweep is due.
//!
//! The server rate-limits wishlist searches to the interval it announces at
//! login, so the schedule is the server's to set; this only decides which
//! queries to send and what to report.

use crate::cli::{SortKey, WishRunArgs};
use crate::config::{wish_position, FileConfig};
use crate::output::{CliError, CliResult, Exit, WishRecord};
use crate::text::{decimal, decimal_string, owned, trim, trim_str};
use crate::transfer::{copy_strings, Filter};
use vstd::prelude::*;

verus! {

/// What `wish add` makes of the wishlist: the updated settings when the
/// query is new (trimmed), nothing when it is already there, and a usage
/// error for a blank query.
pub fn add(config: FileConfig, query: &str) -> (r: CliResult<Option<(FileConfig, WishRecord)>>)
    ensures
        ({
            let q = trim(query@);
            if q.len() == 0 {
                r matches Err(e) && e.exit == Exit::Usage && e.message@ == "a wish needs a query"@
            } else if wish_position(config.wish_seq(), q) is Some {
                r matches Ok(None)
            } else {
                r matches Ok(Some((updated, record))) && record.query@ == q
                    && updated.wish_seq().len() == config.wish_seq().len() + 1
                    && updated.wish_seq().drop_last() == config.wish_seq()
                    && updated.wish_seq().last()@ == q && updated.same_but(config, 12, 12)
            }
        }),
{
    let mut updated = config;
    if !updated.add_wish(query) {
        if trim_str(query).unicode_len() == 0 {
            return Err(CliError::usage("a wish needs a query"));
        }
        return Ok(None);
    }
    Ok(Some((updated, WishRecord { query: owned(trim_str(query)) })))
}

/// What `wish remove` makes of the wishlist: the updated settings, or the
/// no-results verdict when the query (trimmed, any case) is not on it.
pub fn remove(config: FileConfig, query: &str) -> (r: CliResult<FileConfig>)
    ensures
        match wish_position(config.wish_seq(), trim(query@)) {
            Some(i) => r matches Ok(updated) && updated.wish_seq() == config.wish_seq().remove(i)
                && updated.same_but(config, 12, 12),
            None => r matches Err(e) && e.exit == Exit::NoResults && e.message@ == "'"@ + trim(
                query@,
            ) + "' is not on the wishlist"@,
        },
{
    let mut updated = config;
    if !updated.remove_wish(query) {
        let mut message = owned("'");
        message.append(trim_str(query));
        message.append("' is not on the wishlist");
        return Err(CliError { exit: Exit::NoResults, message });
    }
    Ok(updated)
}

/// What `wish list` prints: every wish in the order added, or the
/// no-results verdict for an empty wishlist.
pub fn list(config: &FileConfig) -> (r: CliResult<Vec<WishRecord>>)
    ensures
        config.wish_seq().len() == 0 ==> (r matches Err(e) && e.exit == Exit::NoResults
            && e.message@ == "the wishlist is empty"@),
        config.wish_seq().len() > 0 ==> (r matches Ok(v) && v@.len() == config.wish_seq().len()
            && forall|k: int| 0 <= k < v@.len() ==> (#[trigger] v@[k]).query == config.wish_seq()[k]),
{
    let wishes = config.wishes();
    if wishes.len() == 0 {
        return Err(CliError::no_results("the wishlist is empty"));
    }
    let mut out: Vec<WishRecord> = Vec::new();
    let n = wishes.len();
    let mut i: usize = 0;
    while i < n
        invariant
            n == wishes@.len(),
            i <= n,
            out@.len() == i,
            forall|k: int| 0 <= k < i ==> (#[trigger] out@[k]).query == wishes@[k],
        decreases n - i,
    {
        out.push(WishRecord { query: wishes[i].clone() });
        i = i + 1;
    }
    Ok(out)
}

/// Which wishes a run covers. `--only` has to name a stored wish (trimmed,
/// any case), and what runs is the stored spelling: letting a typo through
/// would quietly search for something the user never asked to keep.
pub fn selected(config: &FileConfig, only: Option<&str>) -> (r: CliResult<Vec<String>>)
    ensures
        match only {
            None => if config.wish_seq().len() == 0 {
                r matches Err(e) && e.exit == Exit::NoResults && e.message@
                    == "the wishlist is empty — add one with `wish add QUERY`"@
            } else {
                r matches Ok(v) && v@ == config.wish_seq()
            },
            Some(q) => match wish_position(config.wish_seq(), trim(q@)) {
                Some(i) => r matches Ok(v) && v@ == seq![config.wish_seq()[i]],
                None => r matches Err(e) && e.exit == Exit::Usage && e.message@ == "'"@ + trim(q@)
                    + "' is not on the wishlist; `wish list` shows what is"@,
            },
        },
{
    match only {
        None => {
            let wishes = config.wishes();
            if wishes.len() == 0 {
                return Err(
                    CliError::no_results("the wishlist is empty — add one with `wish add QUERY`"),
                );
            }
            Ok(wishes)
        },
        Some(q) => match config.wish(q) {
            Some(w) => {
                let mut v: Vec<String> = Vec::new();
                v.push(w.clone());
                assert(v@ =~= seq![*w]);
                Ok(v)
            },
            None => {
                let mut message = owned("'");
                message.append(trim_str(q));
                message.append("' is not on the wishlist; `wish list` shows what is");
                Err(CliError { exit: Exit::Usage, message })
            },
        },
    }
}

/// The verdict on a run of the wishlist: whether any wish matched anything.
pub fn run(found_any: bool) -> (r: CliResult)
    ensures
        found_any ==> r is Ok,
        !found_any ==> (r matches Err(e) && e.exit == Exit::NoResults && e.message@
            == "no wish matched anything on the network"@),
{
    if found_any {
        Ok(())
    } else {
        Err(CliError::no_results("no wish matched anything on the network"))
    }
}

/// How to narrow and order what a sweep prints.
pub struct Sweep {
    pub filter: Filter,
    pub sort: SortKey,
    /// At most this many results per wish (0 for all).
    pub limit: usize,
}

impl Default for Sweep {
    /// Everything, best first, uncapped: what a sweep run by `serve` prints.
    fn default() -> (s: Self)
        ensures
            s.sort == SortKey::Best,
            s.limit == 0,
            s.filter.min_bitrate is None,
            !s.filter.free_slots_only,
            s.filter.exclude@.len() == 0,
            s.filter.extensions@.len() == 0,
            s.filter.min_size is None,
            s.filter.max_size is None,
    {
        Sweep { filter: Filter::default(), sort: SortKey::Best, limit: 0 }
    }
}

impl Sweep {
    /// The parts of `wish run`'s flags that shape a sweep.
    pub fn of(args: &WishRunArgs) -> (s: Sweep)
        ensures
            s.sort == args.sort,
            s.limit == args.limit,
            s.filter.min_bitrate == args.filter.min_bitrate,
            s.filter.free_slots_only == args.filter.free_slots,
            s.filter.exclude@ == args.filter.exclude@,
            s.filter.extensions@ == args.filter.extension@,
            s.filter.min_size == args.filter.min_size,
            s.filter.max_size == args.filter.max_size,
    {
        Sweep { filter: Filter::of(&args.filter), sort: args.sort, limit: args.limit }
    }
}

/// Re-runs the wishlist for as long as `serve` stays online, on the
/// interval the server set. Times are milliseconds on the caller's clock.
pub struct Sweeper {
    wishes: Vec<String>,
    /// When the next sweep is due.
    next: u64,
}

impl Sweeper {
    /// The wishes swept.
    pub closed spec fn wish_list(self) -> Seq<String> {
        self.wishes@
    }

    /// When the next sweep is due.
    pub closed spec fn due_at(self) -> u64 {
        self.next
    }

    /// A sweeper over `wishes`, or nothing when there is nothing to look
    /// for. The first sweep is due at once: a wishlist that waits a whole
    /// interval before its first look is indistinguishable from broken.
    pub fn new(wishes: Vec<String>) -> (r: Option<Sweeper>)
        ensures
            wishes@.len() == 0 <==> r is None,
            r matches Some(s) ==> s.wish_list() == wishes@ && s.due_at() == 0,
    {
        if wishes.len() == 0 {
            None
        } else {
            Some(Sweeper { wishes, next: 0 })
        }
    }

    /// The wishes a sweep due at `now` searches, or nothing when the
    /// interval has not elapsed yet, so the caller can poll as often as it
    /// likes.
    pub fn tick(&self, now: u64) -> (r: Option<Vec<String>>)
        ensures
            now < self.due_at() ==> r is None,
            now >= self.due_at() ==> (r matches Some(v) && v@ == self.wish_list()),
    {
        if now < self.next {
            return None;
        }
        Some(copy_strings(&self.wishes))
    }

    /// Schedules the next sweep `interval` milliseconds after `now`, and
    /// says when, as a status line in whole seconds.
    pub fn swept(&mut self, now: u64, interval: u64) -> (status: String)
        ensures
            final(self).wish_list() == old(self).wish_list(),
            final(self).due_at() == (if now + interval > u64::MAX {
                u64::MAX as int
            } else {
                now + interval
            }),
            status@ == "next wishlist sweep in "@ + decimal((interval / 1000) as nat) + "s"@,
    {
        self.next = if interval > u64::MAX - now {
            u64::MAX
        } else {
            now + interval
        };
        let mut status = owned("next wishlist sweep in ");
        status.append(decimal_string(interval / 1000).as_str());
        status.append("s");
        status
    }
}

} // verus!
