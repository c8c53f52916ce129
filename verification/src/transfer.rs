//! Finding files and deciding what to fetch: turning search answers into
//! candidate records, filtering and ranking them, and where a fetched file
//! lands.

use crate::cli::{DownloadArgs, FilterArgs, GetArgs, Pick, SearchArgs, SortKey};
use crate::output::SearchRecord;
use crate::paths::{expand_tilde_with, expanded, home_dir, join_path, joined, path_from, path_of};
use crate::rank::{is_ranked, ranked_copy, Duplicate, Ranked};
use crate::output::{CliError, Exit};
use crate::text::{
    contains_str, has_substring, lowercase, to_lowercase,
    lemma_seq_less_order, owned, parse_bounded, parse_uint, seq_less, split_char, split_on, str_eq,
    str_less, trim, trim_str, views,
};
use crate::output::CliResult;
use crate::types::{File, SearchResult};
use vstd::prelude::*;

verus! {

broadcast use vstd::std_specs::hash::group_hash_axioms;

/// The attribute code of a file's bitrate.
pub const ATTR_BITRATE: u32 = 0;

/// The attribute code of a file's duration.
pub const ATTR_DURATION: u32 = 1;

/// The attribute `code` of file `f`, when the peer gave one.
pub open spec fn attrib(f: File, code: u32) -> Option<u32> {
    if f.attribs@.contains_key(code) {
        Some(f.attribs@[code])
    } else {
        None
    }
}

fn get_attrib(f: &File, code: u32) -> (r: Option<u32>)
    ensures
        r == attrib(*f, code),
{
    assert(vstd::std_specs::hash::obeys_key_model::<u32>());
    match f.attribs.get(&code) {
        Some(v) => Some(*v),
        None => None,
    }
}

/// The record of file `f` from the answer `r`.
pub open spec fn record_for(r: SearchResult, f: File) -> SearchRecord {
    SearchRecord {
        user: r.username,
        path: f.name,
        size: f.size,
        bitrate: attrib(f, ATTR_BITRATE),
        duration: attrib(f, ATTR_DURATION),
        free_slot: r.slots > 0,
        slots: r.slots,
        speed: r.speed,
    }
}

/// The records of every file of one answer.
pub open spec fn records_of(r: SearchResult) -> Seq<SearchRecord> {
    r.files@.map_values(|f: File| record_for(r, f))
}

/// The records of every file of every answer, in order.
pub open spec fn all_records(results: Seq<SearchResult>) -> Seq<SearchRecord>
    decreases results.len(),
{
    if results.len() == 0 {
        Seq::empty()
    } else {
        all_records(results.drop_last()) + records_of(results.last())
    }
}

/// Which candidates a search keeps: the restrictions every command that
/// searches accepts.
pub struct Filter {
    /// Drop results below this bitrate (an unknown bitrate cannot meet it).
    pub min_bitrate: Option<u32>,
    /// Keep only peers advertising a free upload slot.
    pub free_slots_only: bool,
    /// Drop results whose path contains one of these terms.
    pub exclude: Vec<String>,
    /// Keep only these file extensions, written with or without a dot.
    pub extensions: Vec<String>,
    /// Drop results smaller than this many bytes.
    pub min_size: Option<u64>,
    /// Drop results larger than this many bytes.
    pub max_size: Option<u64>,
}

impl Default for Filter {
    /// Keep everything.
    fn default() -> (f: Self)
        ensures
            f.min_bitrate is None,
            !f.free_slots_only,
            f.exclude@.len() == 0,
            f.extensions@.len() == 0,
            f.min_size is None,
            f.max_size is None,
    {
        Filter {
            min_bitrate: None,
            free_slots_only: false,
            exclude: Vec::new(),
            extensions: Vec::new(),
            min_size: None,
            max_size: None,
        }
    }
}

/// `s` without one leading dot.
pub open spec fn without_dot(s: Seq<char>) -> Seq<char> {
    if s.len() > 0 && s[0] == '.' {
        s.drop_first()
    } else {
        s
    }
}

/// The extension of a file name: what follows its last dot, if it has one.
pub open spec fn extension_of(name: Seq<char>) -> Option<Seq<char>>
    decreases name.len(),
{
    if name.len() == 0 {
        None
    } else if name.last() == '.' {
        Some(Seq::empty())
    } else {
        match extension_of(name.drop_last()) {
            Some(e) => Some(e.push(name.last())),
            None => None,
        }
    }
}

proof fn lemma_extension_of(s: Seq<char>, i: int)
    requires
        0 <= i <= s.len(),
        i > 0 ==> s[i - 1] == '.',
        forall|k: int| i <= k < s.len() ==> #[trigger] s[k] != '.',
    ensures
        extension_of(s) == (if i == 0 {
            None
        } else {
            Some(s.subrange(i, s.len() as int))
        }),
    decreases s.len(),
{
    if s.len() > i {
        lemma_extension_of(s.drop_last(), i);
        if i > 0 {
            assert(s.drop_last().subrange(i, s.len() - 1).push(s.last()) =~= s.subrange(
                i,
                s.len() as int,
            ));
        }
    } else if s.len() > 0 && i > 0 {
        assert(s.subrange(i, s.len() as int) =~= Seq::<char>::empty());
    }
}

fn file_extension(name: &str) -> (r: Option<String>)
    ensures
        match r {
            Some(e) => extension_of(name@) == Some(e@),
            None => extension_of(name@) is None,
        },
{
    let n = name.unicode_len();
    let mut i = n;
    let mut found = false;
    while i > 0 && !found
        invariant
            n == name@.len(),
            i <= n,
            found ==> i > 0 && name@[i - 1] == '.',
            forall|k: int| i <= k < n ==> #[trigger] name@[k] != '.',
        decreases i + (if found {
            0int
        } else {
            1int
        }),
    {
        if name.get_char(i - 1) == '.' {
            found = true;
        } else {
            i = i - 1;
        }
    }
    proof {
        lemma_extension_of(name@, i as int);
    }
    if i == 0 {
        None
    } else {
        Some(owned(name.substring_char(i, n)))
    }
}

/// A copy of a list of strings.
pub fn copy_strings(v: &Vec<String>) -> (r: Vec<String>)
    ensures
        r@ == v@,
{
    let mut r: Vec<String> = Vec::new();
    let n = v.len();
    let mut i: usize = 0;
    while i < n
        invariant
            n == v@.len(),
            i <= n,
            r@ == v@.take(i as int),
        decreases n - i,
    {
        r.push(v[i].clone());
        assert(r@ =~= v@.take(i + 1));
        i = i + 1;
    }
    assert(v@.take(n as int) =~= v@);
    r
}

impl Filter {
    /// The restrictions the command line asked for.
    pub fn of(args: &FilterArgs) -> (f: Filter)
        ensures
            f.min_bitrate == args.min_bitrate,
            f.free_slots_only == args.free_slots,
            f.exclude@ == args.exclude@,
            f.extensions@ == args.extension@,
            f.min_size == args.min_size,
            f.max_size == args.max_size,
    {
        Filter {
            min_bitrate: args.min_bitrate,
            free_slots_only: args.free_slots,
            exclude: copy_strings(&args.exclude),
            extensions: copy_strings(&args.extension),
            min_size: args.min_size,
            max_size: args.max_size,
        }
    }

    /// Whether the path of `c` contains one of the excluded terms.
    pub open spec fn excludes(self, c: SearchRecord) -> bool {
        exists|k: int|
            0 <= k < self.exclude@.len() && has_substring(c.path@, (#[trigger] self.exclude@[k])@)
    }

    /// Whether the file of `c` has one of the wanted extensions (compared
    /// without case), or no extension is asked for.
    pub open spec fn extension_fits(self, c: SearchRecord) -> bool {
        self.extensions@.len() == 0 || match extension_of(last_segment(c.path@)) {
            Some(e) => exists|k: int|
                0 <= k < self.extensions@.len() && lowercase(without_dot(
                    (#[trigger] self.extensions@[k])@,
                )) == lowercase(e),
            None => false,
        }
    }

    /// A candidate survives when it has a free slot (if asked), a known
    /// bitrate at or above the floor (if there is one), a size within the
    /// bounds, no excluded term in its path, and a wanted extension.
    pub open spec fn spec_keeps(self, c: SearchRecord) -> bool {
        &&& (self.free_slots_only ==> c.free_slot)
        &&& match self.min_bitrate {
            Some(minimum) => match c.bitrate {
                Some(b) => b >= minimum,
                None => false,
            },
            None => true,
        }
        &&& (self.min_size matches Some(m) ==> c.size >= m)
        &&& (self.max_size matches Some(m) ==> c.size <= m)
        &&& !self.excludes(c)
        &&& self.extension_fits(c)
    }

    fn excluded(&self, candidate: &SearchRecord) -> (b: bool)
        ensures
            b == self.excludes(*candidate),
    {
        let n = self.exclude.len();
        let mut k: usize = 0;
        while k < n
            invariant
                n == self.exclude@.len(),
                k <= n,
                forall|j: int|
                    0 <= j < k ==> !has_substring(candidate.path@, (#[trigger] self.exclude@[j])@),
            decreases n - k,
        {
            if contains_str(candidate.path.as_str(), self.exclude[k].as_str()) {
                return true;
            }
            k = k + 1;
        }
        false
    }

    fn extension_ok(&self, candidate: &SearchRecord) -> (b: bool)
        ensures
            b == self.extension_fits(*candidate),
    {
        let n = self.extensions.len();
        if n == 0 {
            return true;
        }
        let name = file_name(candidate.path.as_str());
        let ext = match file_extension(name.as_str()) {
            Some(e) => e,
            None => return false,
        };
        let have = to_lowercase(ext.as_str());
        let mut k: usize = 0;
        while k < n
            invariant
                n == self.extensions@.len(),
                k <= n,
                have@ == lowercase(ext@),
                extension_of(last_segment(candidate.path@)) == Some(ext@),
                forall|j: int|
                    0 <= j < k ==> lowercase(without_dot((#[trigger] self.extensions@[j])@))
                        != have@,
            decreases n - k,
        {
            let wanted = self.extensions[k].as_str();
            let bare = if wanted.unicode_len() > 0 && wanted.get_char(0) == '.' {
                wanted.substring_char(1, wanted.unicode_len())
            } else {
                wanted
            };
            assert(bare@ == without_dot(self.extensions@[k as int]@));
            let lower = to_lowercase(bare);
            if str_eq(lower.as_str(), have.as_str()) {
                assert(lowercase(without_dot(self.extensions@[k as int]@)) == lowercase(ext@));
                return true;
            }
            k = k + 1;
        }
        false
    }

    fn keeps(&self, candidate: &SearchRecord) -> (b: bool)
        ensures
            b == self.spec_keeps(*candidate),
    {
        if self.free_slots_only && !candidate.free_slot {
            return false;
        }
        let bitrate_ok = match (self.min_bitrate, candidate.bitrate) {
            (Some(minimum), Some(bitrate)) => bitrate >= minimum,
            (Some(_), None) => false,
            (None, _) => true,
        };
        if !bitrate_ok {
            return false;
        }
        match self.min_size {
            Some(m) => if candidate.size < m {
                return false;
            },
            None => {},
        }
        match self.max_size {
            Some(m) => if candidate.size > m {
                return false;
            },
            None => {},
        }
        !self.excluded(candidate) && self.extension_ok(candidate)
    }
}

/// Flatten per-peer answers into individual files, dropping what `filter`
/// rejects.
pub fn candidates(results: &[SearchResult], filter: &Filter) -> (r: Vec<SearchRecord>)
    ensures
        r@ == all_records(results@).filter(|c: SearchRecord| filter.spec_keeps(c)),
{
    let ghost keep = |c: SearchRecord| filter.spec_keeps(c);
    let mut out: Vec<SearchRecord> = Vec::new();
    let n = results.len();
    let mut i: usize = 0;
    assert(results@.take(0) =~= Seq::<SearchResult>::empty());
    proof {
        reveal(Seq::filter);
    }
    while i < n
        invariant
            n == results@.len(),
            i <= n,
            keep == (|c: SearchRecord| filter.spec_keeps(c)),
            out@ == all_records(results@.take(i as int)).filter(keep),
        decreases n - i,
    {
        let result = &results[i];
        let ghost base = all_records(results@.take(i as int));
        let m = result.files.len();
        let mut j: usize = 0;
        assert(base + records_of(*result).take(0) =~= base);
        while j < m
            invariant
                n == results@.len(),
                i < n,
                *result == results@[i as int],
                m == result.files@.len(),
                j <= m,
                keep == (|c: SearchRecord| filter.spec_keeps(c)),
                base == all_records(results@.take(i as int)),
                out@ == (base + records_of(*result).take(j as int)).filter(keep),
            decreases m - j,
        {
            let file = &result.files[j];
            let candidate = SearchRecord {
                user: result.username.clone(),
                path: file.name.clone(),
                size: file.size,
                bitrate: get_attrib(file, ATTR_BITRATE),
                duration: get_attrib(file, ATTR_DURATION),
                free_slot: result.slots > 0,
                slots: result.slots,
                speed: result.speed,
            };
            assert(candidate == record_for(*result, *file));
            assert((base + records_of(*result).take(j + 1)).drop_last() =~= base + records_of(
                *result,
            ).take(j as int));
            assert((base + records_of(*result).take(j + 1)).last() == candidate);
            proof {
                reveal(Seq::filter);
            }
            if filter.keeps(&candidate) {
                out.push(candidate);
            }
            j = j + 1;
        }
        assert(results@.take(i + 1).drop_last() =~= results@.take(i as int));
        assert(results@.take(i + 1).last() == *result);
        assert(records_of(*result).take(m as int) =~= records_of(*result));
        i = i + 1;
    }
    assert(results@.take(n as int) =~= results@);
    out
}

/// `a` beats `b` on the first number where they differ, larger first.
pub open spec fn greater_first(a: Seq<int>, b: Seq<int>) -> bool
    decreases a.len(),
{
    if a.len() == 0 || b.len() == 0 {
        false
    } else if a[0] != b[0] {
        a[0] > b[0]
    } else {
        greater_first(a.drop_first(), b.drop_first())
    }
}

proof fn lemma_greater_first(a: Seq<int>, b: Seq<int>, c: Seq<int>)
    requires
        a.len() == b.len(),
        b.len() == c.len(),
    ensures
        greater_first(a, b) ==> !greater_first(b, a),
        greater_first(a, b) && greater_first(b, c) ==> greater_first(a, c),
        !greater_first(a, b) && !greater_first(b, a) ==> a == b,
        greater_first(a, b) && b == c ==> greater_first(a, c),
    decreases a.len(),
{
    if a.len() > 0 {
        lemma_greater_first(a.drop_first(), b.drop_first(), c.drop_first());
        if a[0] == b[0] && a.drop_first() == b.drop_first() {
            assert(a =~= b) by {
                assert(a =~= seq![a[0]] + a.drop_first());
                assert(b =~= seq![b[0]] + b.drop_first());
            }
        }
    } else {
        assert(a =~= b);
    }
}

proof fn lemma_greater_first_1(a: int, b: int)
    ensures
        greater_first(seq![a], seq![b]) == (a > b),
        (seq![a] == seq![b]) == (a == b),
{
    reveal_with_fuel(greater_first, 2);
    assert(seq![a].drop_first() =~= Seq::<int>::empty());
    assert(seq![b].drop_first() =~= Seq::<int>::empty());
    if a == b {
        assert(seq![a] =~= seq![b]);
    } else {
        assert(seq![a][0] != seq![b][0]);
    }
}

proof fn lemma_greater_first_4(a0: int, a1: int, a2: int, a3: int, b0: int, b1: int, b2: int, b3: int)
    ensures
        greater_first(seq![a0, a1, a2, a3], seq![b0, b1, b2, b3]) == (a0 > b0 || (a0 == b0 && (a1
            > b1 || (a1 == b1 && (a2 > b2 || (a2 == b2 && a3 > b3)))))),
        (seq![a0, a1, a2, a3] == seq![b0, b1, b2, b3]) == (a0 == b0 && a1 == b1 && a2 == b2 && a3
            == b3),
{
    reveal_with_fuel(greater_first, 5);
    let x = seq![a0, a1, a2, a3];
    let y = seq![b0, b1, b2, b3];
    assert(x.drop_first() =~= seq![a1, a2, a3]);
    assert(y.drop_first() =~= seq![b1, b2, b3]);
    assert(seq![a1, a2, a3].drop_first() =~= seq![a2, a3]);
    assert(seq![b1, b2, b3].drop_first() =~= seq![b2, b3]);
    assert(seq![a2, a3].drop_first() =~= seq![a3]);
    assert(seq![b2, b3].drop_first() =~= seq![b3]);
    assert(seq![a3].drop_first() =~= Seq::<int>::empty());
    assert(seq![b3].drop_first() =~= Seq::<int>::empty());
    if a0 == b0 && a1 == b1 && a2 == b2 && a3 == b3 {
        assert(x =~= y);
    } else if x == y {
        assert(x[0] == y[0] && x[1] == y[1] && x[2] == y[2] && x[3] == y[3]);
    }
}

/// The numbers a sort order compares first, larger first.
pub open spec fn sort_numbers(c: SearchRecord, sort: SortKey) -> Seq<int> {
    let bitrate = match c.bitrate {
        Some(b) => b as int,
        None => 0,
    };
    match sort {
        SortKey::Best => seq![if c.free_slot {
            1int
        } else {
            0int
        }, bitrate, c.speed as int, c.size as int],
        SortKey::Size => seq![c.size as int],
        SortKey::Bitrate => seq![bitrate],
        SortKey::Speed => seq![c.speed as int],
    }
}

impl Ranked<SortKey> for SearchRecord {
    /// The sort order's own keys first, then user and path so that two
    /// identical runs list identically.
    open spec fn before(self, other: Self, by: SortKey) -> bool {
        let a = sort_numbers(self, by);
        let b = sort_numbers(other, by);
        ||| greater_first(a, b)
        ||| a == b && seq_less(self.user@, other.user@)
        ||| a == b && self.user@ == other.user@ && seq_less(self.path@, other.path@)
    }

    proof fn lemma_before_asymmetric(x: Self, y: Self, by: SortKey) {
        lemma_greater_first(sort_numbers(x, by), sort_numbers(y, by), sort_numbers(y, by));
        lemma_seq_less_order(x.user@, y.user@, y.user@);
        lemma_seq_less_order(x.path@, y.path@, y.path@);
    }

    proof fn lemma_before_transitive(x: Self, y: Self, z: Self, by: SortKey) {
        let (a, b, c) = (sort_numbers(x, by), sort_numbers(y, by), sort_numbers(z, by));
        lemma_greater_first(a, b, c);
        lemma_greater_first(a, a, b);
        lemma_greater_first(b, c, c);
        lemma_seq_less_order(x.user@, y.user@, z.user@);
        lemma_seq_less_order(x.path@, y.path@, z.path@);
    }

    fn precedes(&self, other: &Self, by: &SortKey) -> (r: bool) {
        let a = self;
        let b = other;
        let sa = match a.bitrate {
            Some(v) => v,
            None => 0,
        };
        let sb = match b.bitrate {
            Some(v) => v,
            None => 0,
        };
        let (primary_before, primary_equal) = match by {
            SortKey::Best => {
                let fa: u8 = if a.free_slot { 1 } else { 0 };
                let fb: u8 = if b.free_slot { 1 } else { 0 };
                if fa != fb {
                    (fa > fb, false)
                } else if sa != sb {
                    (sa > sb, false)
                } else if a.speed != b.speed {
                    (a.speed > b.speed, false)
                } else if a.size != b.size {
                    (a.size > b.size, false)
                } else {
                    (false, true)
                }
            },
            SortKey::Size => (a.size > b.size, a.size == b.size),
            SortKey::Bitrate => (sa > sb, sa == sb),
            SortKey::Speed => (a.speed > b.speed, a.speed == b.speed),
        };
        proof {
            let x = sort_numbers(*a, *by);
            let y = sort_numbers(*b, *by);
            if x.len() == 4 {
                lemma_greater_first_4(x[0], x[1], x[2], x[3], y[0], y[1], y[2], y[3]);
                assert(x =~= seq![x[0], x[1], x[2], x[3]]);
                assert(y =~= seq![y[0], y[1], y[2], y[3]]);
            } else {
                lemma_greater_first_1(x[0], y[0]);
                assert(x =~= seq![x[0]]);
                assert(y =~= seq![y[0]]);
            }
            assert(primary_before == greater_first(x, y));
            assert(primary_equal == (x == y));
        }
        if primary_before {
            return true;
        }
        if !primary_equal {
            return false;
        }
        if str_less(a.user.as_str(), b.user.as_str()) {
            return true;
        }
        if !crate::text::str_eq(a.user.as_str(), b.user.as_str()) {
            return false;
        }
        str_less(a.path.as_str(), b.path.as_str())
    }
}

/// How `best` ranks two results: a free upload slot first; then the higher
/// bitrate (an unknown one counting as 0); then the faster peer; then the
/// larger file. Each of the other orders puts the larger of its one
/// measure first.
pub proof fn lemma_sort_orders(a: SearchRecord, b: SearchRecord)
    ensures
        ({
            let ra: int = match a.bitrate {
                Some(v) => v as int,
                None => 0,
            };
            let rb: int = match b.bitrate {
                Some(v) => v as int,
                None => 0,
            };
            &&& a.free_slot && !b.free_slot ==> a.before(b, SortKey::Best)
            &&& a.free_slot == b.free_slot && ra > rb ==> a.before(b, SortKey::Best)
            &&& a.free_slot == b.free_slot && ra == rb && a.speed > b.speed ==> a.before(
                b,
                SortKey::Best,
            )
            &&& a.free_slot == b.free_slot && ra == rb && a.speed == b.speed && a.size > b.size
                ==> a.before(b, SortKey::Best)
            &&& a.size > b.size ==> a.before(b, SortKey::Size)
            &&& ra > rb ==> a.before(b, SortKey::Bitrate)
            &&& a.speed > b.speed ==> a.before(b, SortKey::Speed)
        }),
{
    let fa: int = if a.free_slot {
        1
    } else {
        0
    };
    let fb: int = if b.free_slot {
        1
    } else {
        0
    };
    let ra: int = match a.bitrate {
        Some(v) => v as int,
        None => 0,
    };
    let rb: int = match b.bitrate {
        Some(v) => v as int,
        None => 0,
    };
    lemma_greater_first_4(fa, ra, a.speed as int, a.size as int, fb, rb, b.speed as int, b.size as int);
    assert(sort_numbers(a, SortKey::Best) =~= seq![fa, ra, a.speed as int, a.size as int]);
    assert(sort_numbers(b, SortKey::Best) =~= seq![fb, rb, b.speed as int, b.size as int]);
    lemma_greater_first_1(a.size as int, b.size as int);
    lemma_greater_first_1(ra, rb);
    lemma_greater_first_1(a.speed as int, b.speed as int);
    assert(sort_numbers(a, SortKey::Size) =~= seq![a.size as int]);
    assert(sort_numbers(b, SortKey::Size) =~= seq![b.size as int]);
    assert(sort_numbers(a, SortKey::Bitrate) =~= seq![ra]);
    assert(sort_numbers(b, SortKey::Bitrate) =~= seq![rb]);
    assert(sort_numbers(a, SortKey::Speed) =~= seq![a.speed as int]);
    assert(sort_numbers(b, SortKey::Speed) =~= seq![b.speed as int]);
}

/// What the filter drops: a result whose path holds any one of the
/// excluded terms, wherever the term stands in the list; one without a free
/// slot when free slots are asked for; one under the bitrate floor or of
/// unknown bitrate when there is a floor; one outside the size bounds. A
/// kept result holds none of the excluded terms.
pub proof fn lemma_filter_drops(f: Filter, c: SearchRecord)
    ensures
        forall|k: int|
            0 <= k < f.exclude@.len() && has_substring(c.path@, (#[trigger] f.exclude@[k])@)
                ==> !f.spec_keeps(c),
        f.spec_keeps(c) ==> forall|k: int|
            0 <= k < f.exclude@.len() ==> !has_substring(c.path@, (#[trigger] f.exclude@[k])@),
        f.free_slots_only && !c.free_slot ==> !f.spec_keeps(c),
        f.min_bitrate matches Some(m) && (c.bitrate is None || c.bitrate->0 < m) ==> !f.spec_keeps(
            c,
        ),
        f.min_size matches Some(m) && c.size < m ==> !f.spec_keeps(c),
        f.max_size matches Some(m) && c.size > m ==> !f.spec_keeps(c),
{
    assert forall|k: int|
        0 <= k < f.exclude@.len() && has_substring(c.path@, (#[trigger] f.exclude@[k])@) implies !f.spec_keeps(c) by {
        assert(f.excludes(c));
    }
}

impl Duplicate for SearchRecord {
    fn duplicate(&self) -> (r: Self) {
        SearchRecord {
            user: self.user.clone(),
            path: self.path.clone(),
            size: self.size,
            bitrate: self.bitrate,
            duration: self.duration,
            free_slot: self.free_slot,
            slots: self.slots,
            speed: self.speed,
        }
    }
}

/// Order results. Every mode ends with the same user/path tiebreak so the
/// output of two identical runs is identical.
pub fn rank(items: &mut Vec<SearchRecord>, sort: SortKey)
    ensures
        final(items)@.to_multiset() == old(items)@.to_multiset(),
        is_ranked(final(items)@, sort),
{
    let sorted = ranked_copy(items, &sort);
    *items = sorted;
}

/// A separator of a remote path: peers write `\\`, some write `/`.
pub open spec fn is_path_separator(c: char) -> bool {
    c == '/' || c == '\\'
}

/// What follows the last separator of a remote path: the file's own name.
pub open spec fn last_segment(s: Seq<char>) -> Seq<char>
    decreases s.len(),
{
    if s.len() == 0 {
        s
    } else if is_path_separator(s.last()) {
        Seq::empty()
    } else {
        last_segment(s.drop_last()).push(s.last())
    }
}

proof fn lemma_last_segment(s: Seq<char>, i: int)
    requires
        0 <= i <= s.len(),
        i == 0 || is_path_separator(s[i - 1]),
        forall|k: int| i <= k < s.len() ==> !is_path_separator(#[trigger] s[k]),
    ensures
        last_segment(s) == s.subrange(i, s.len() as int),
    decreases s.len(),
{
    if s.len() > i {
        lemma_last_segment(s.drop_last(), i);
        assert(s.drop_last().subrange(i, s.len() - 1).push(s.last()) =~= s.subrange(
            i,
            s.len() as int,
        ));
    } else if s.len() > 0 {
        assert(s.subrange(i, s.len() as int) =~= Seq::<char>::empty());
    }
}

/// The name a remote file is saved under.
pub fn file_name(remote_path: &str) -> (r: String)
    ensures
        r@ == last_segment(remote_path@),
{
    let n = remote_path.unicode_len();
    let mut i = n;
    let mut found = false;
    while i > 0 && !found
        invariant
            n == remote_path@.len(),
            i <= n,
            found ==> i > 0 && is_path_separator(remote_path@[i - 1]),
            forall|k: int| i <= k < n ==> !is_path_separator(#[trigger] remote_path@[k]),
        decreases i + (if found { 0int } else { 1int }),
    {
        let c = remote_path.get_char(i - 1);
        if c == '/' || c == '\\' {
            found = true;
        } else {
            i = i - 1;
        }
    }
    proof {
        lemma_last_segment(remote_path@, i as int);
    }
    owned(remote_path.substring_char(i, n))
}

/// Where the remote file `remote` lands in the folder `dir`, with `home`
/// standing for a leading `~`.
pub open spec fn local_target(dir: Seq<char>, remote: Seq<char>, home: Option<Seq<char>>) -> Seq<
    char,
> {
    joined(expanded(dir, home), last_segment(remote))
}

/// Where a remote file lands locally, given the home folder.
pub fn local_file(download_dir: &str, remote_path: &str, home: Option<&str>) -> (r: String)
    ensures
        r@ == local_target(
            download_dir@,
            remote_path@,
            match home {
                Some(h) => Some(h@),
                None => None,
            },
        ),
{
    let dir = expand_tilde_with(download_dir, home);
    let name = file_name(remote_path);
    join_path(dir.as_str(), name.as_str())
}

/// Where a remote file lands locally: its last segment inside the download
/// folder, so the path reported is the path that gets written.
pub fn local_path(download_dir: &str, remote_path: &str) -> (r: std::path::PathBuf)
    ensures
        exists|h: Option<Seq<char>>| r == path_of(local_target(download_dir@, remote_path@, h)),
        !(download_dir@.len() > 0 && download_dir@[0] == '~') ==> r == path_of(
            joined(download_dir@, last_segment(remote_path@)),
        ),
{
    let home = home_dir();
    let file = match &home {
        Some(h) => local_file(download_dir, remote_path, Some(h.as_str())),
        None => local_file(download_dir, remote_path, None),
    };
    let r = path_from(file.as_str());
    proof {
        let h = match home {
            Some(h) => Some(h@),
            None => None,
        };
        assert(r == path_of(local_target(download_dir@, remote_path@, h)));
    }
    r
}

/// One file to fetch.
#[derive(Debug, Clone, PartialEq, Eq)]
pub struct Request {
    pub user: String,
    pub path: String,
    pub size: u64,
}

impl Request {
    /// A copy of the request.
    pub fn duplicate(&self) -> (r: Request)
        ensures
            r == *self,
    {
        Request { user: self.user.clone(), path: self.path.clone(), size: self.size }
    }
}

impl<'a> From<&'a SearchRecord> for Request {
    /// The file a search record names.
    fn from(candidate: &'a SearchRecord) -> (r: Self) {
        Request { user: candidate.user.clone(), path: candidate.path.clone(), size: candidate.size }
    }
}

impl<'a> vstd::std_specs::convert::FromSpecImpl<&'a SearchRecord> for Request {
    open spec fn obeys_from_spec() -> bool {
        true
    }

    open spec fn from_spec(v: &'a SearchRecord) -> Self {
        Request { user: v.user, path: v.path, size: v.size }
    }
}

/// Why a request was not queued.
#[derive(Debug, Clone, Copy, PartialEq, Eq, Structural)]
pub enum Clash {
    /// The same remote path is already queued (from another peer): the
    /// store keys transfers by remote path, so one would shadow the other.
    SamePath,
    /// Another remote path with the same file name is queued: both would be
    /// written to the same local file.
    SameFile,
}

/// A request left out, the peer of the queued one it collides with, and why.
#[derive(Debug, Clone, PartialEq, Eq)]
pub struct Skip {
    pub request: Request,
    pub queued_from: String,
    pub clash: Clash,
}

impl Skip {
    /// The warning that reports the skip.
    pub open spec fn spec_message(self) -> Seq<char> {
        "skipping "@ + self.request.path@ + " from "@ + self.request.user@ + match self.clash {
            Clash::SamePath => ": same remote path already queued from "@,
            Clash::SameFile => ": would overwrite the file already queued from "@,
        } + self.queued_from@
    }

    /// The warning that reports the skip.
    pub fn message(&self) -> (r: String)
        ensures
            r@ == self.spec_message(),
    {
        let mut r = owned("skipping ");
        r.append(self.request.path.as_str());
        r.append(" from ");
        r.append(self.request.user.as_str());
        match self.clash {
            Clash::SamePath => r.append(": same remote path already queued from "),
            Clash::SameFile => r.append(": would overwrite the file already queued from "),
        }
        r.append(self.queued_from.as_str());
        r
    }
}

/// The position of the queued request whose file name `r` shares, if any.
pub open spec fn clash_index(kept: Seq<Request>, r: Request) -> Option<int> {
    if exists|i: int|
        0 <= i < kept.len() && last_segment(#[trigger] kept[i].path@) == last_segment(r.path@) {
        Some(
            choose|i: int|
                0 <= i < kept.len() && last_segment(#[trigger] kept[i].path@) == last_segment(
                    r.path@,
                ),
        )
    } else {
        None
    }
}

/// One more request offered to the queue `acc.0`, with the skips so far in
/// `acc.1`.
pub open spec fn dedupe_step(acc: (Seq<Request>, Seq<Skip>), r: Request) -> (
    Seq<Request>,
    Seq<Skip>,
) {
    match clash_index(acc.0, r) {
        Some(i) => (
            acc.0,
            acc.1.push(
                Skip {
                    request: r,
                    queued_from: acc.0[i].user,
                    clash: if acc.0[i].path@ == r.path@ {
                        Clash::SamePath
                    } else {
                        Clash::SameFile
                    },
                },
            ),
        ),
        None => (acc.0.push(r), acc.1),
    }
}

/// The queue and the skips after offering `rs` in order: each request is
/// queued unless one already queued has its file name.
pub open spec fn deduped(rs: Seq<Request>) -> (Seq<Request>, Seq<Skip>)
    decreases rs.len(),
{
    if rs.len() == 0 {
        (Seq::empty(), Seq::empty())
    } else {
        dedupe_step(deduped(rs.drop_last()), rs.last())
    }
}

/// No two queued requests share a file name.
pub open spec fn distinct_names(k: Seq<Request>) -> bool {
    forall|i: int, j: int|
        0 <= i < j < k.len() ==> last_segment(#[trigger] k[i].path@) != last_segment(
            #[trigger] k[j].path@,
        )
}

/// Drops requests that would collide with one already queued, keeping the
/// first (best-ranked) of each, and says what was dropped and why.
///
/// Two collisions lose data silently: the same remote path from two peers
/// shadows itself in the store, and two paths with the same file name would
/// be written to the same local file (the download folder is the same for
/// all, so only the names matter).
pub fn dedupe(requests: &Vec<Request>) -> (r: (Vec<Request>, Vec<Skip>))
    ensures
        r.0@ == deduped(requests@).0,
        r.1@ == deduped(requests@).1,
        distinct_names(r.0@),
{
    let mut kept: Vec<Request> = Vec::new();
    let mut names: Vec<String> = Vec::new();
    let mut skipped: Vec<Skip> = Vec::new();
    let n = requests.len();
    let mut i: usize = 0;
    assert(requests@.take(0) =~= Seq::<Request>::empty());
    while i < n
        invariant
            n == requests@.len(),
            i <= n,
            (kept@, skipped@) == deduped(requests@.take(i as int)),
            names@.len() == kept@.len(),
            forall|k: int| 0 <= k < kept@.len() ==> #[trigger] names@[k]@ == last_segment(kept@[k].path@),
            distinct_names(kept@),
        decreases n - i,
    {
        let request = requests[i].duplicate();
        let name = file_name(request.path.as_str());
        assert(requests@.take(i + 1).drop_last() =~= requests@.take(i as int));
        let mut j: usize = 0;
        let mut found = false;
        while j < names.len() && !found
            invariant
                names@.len() == kept@.len(),
                j <= names@.len(),
                found ==> j < names@.len() && names@[j as int]@ == name@,
                forall|k: int| 0 <= k < j ==> names@[k]@ != name@,
            decreases names@.len() - j + (if found { 0int } else { 1int }),
        {
            if str_eq(names[j].as_str(), name.as_str()) {
                found = true;
            } else {
                j = j + 1;
            }
        }
        if found {
            proof {
                let c = choose|x: int|
                    0 <= x < kept@.len() && last_segment(#[trigger] kept@[x].path@)
                        == last_segment(request.path@);
                assert(last_segment(kept@[j as int].path@) == last_segment(request.path@));
                assert(c == j) by {
                    if c < j {
                        assert(last_segment(kept@[c].path@) != last_segment(kept@[j as int].path@));
                    } else if c > j {
                        assert(last_segment(kept@[j as int].path@) != last_segment(kept@[c].path@));
                    }
                }
            }
            let same = str_eq(kept[j].path.as_str(), request.path.as_str());
            let clash = if same {
                Clash::SamePath
            } else {
                Clash::SameFile
            };
            let queued_from = kept[j].user.clone();
            skipped.push(Skip { request, queued_from, clash });
        } else {
            proof {
                assert forall|x: int| 0 <= x < kept@.len() implies last_segment(
                    #[trigger] kept@[x].path@,
                ) != last_segment(request.path@) by {
                    assert(names@[x]@ != name@);
                }
            }
            names.push(name);
            kept.push(request);
        }
        i = i + 1;
    }
    assert(requests@.take(n as int) =~= requests@);
    (kept, skipped)
}

/// How many downloads run at once for `requests` files: the configured
/// limit, but at least one and no more than there are files (one when there
/// are none).
pub fn worker_count(max_concurrent: usize, requests: usize) -> (r: usize)
    ensures
        r == (if max_concurrent < 1 {
            1
        } else if max_concurrent > (if requests < 1 { 1 } else { requests }) {
            if requests < 1 { 1 } else { requests }
        } else {
            max_concurrent
        }),
        1 <= r,
        r <= (if requests < 1 { 1 } else { requests }),
{
    let most = if requests < 1 {
        1
    } else {
        requests
    };
    if max_concurrent < 1 {
        1
    } else if max_concurrent > most {
        most
    } else {
        max_concurrent
    }
}

/// The verdict on a batch of downloads, given the failures in the order
/// they landed: a single failure is reported as is; several are counted,
/// as a timeout when every one timed out.
pub fn downloads_verdict(failures: Vec<CliError>) -> (r: CliResult)
    ensures
        failures@.len() == 0 ==> r is Ok,
        failures@.len() == 1 ==> r == Err::<(), CliError>(failures@[0]),
        failures@.len() > 1 ==> (r matches Err(e) && (if (forall|k: int|
            0 <= k < failures@.len() ==> (#[trigger] failures@[k]).exit == Exit::Timeout) {
            e.exit == Exit::Timeout && e.message@ == crate::text::decimal(failures@.len())
                + " downloads timed out"@
        } else {
            e.exit == Exit::Transfer && e.message@ == crate::text::decimal(failures@.len())
                + " downloads failed"@
        })),
{
    let mut failures = failures;
    let n = failures.len();
    if n == 0 {
        return Ok(());
    }
    if n == 1 {
        return Err(failures.remove(0));
    }
    let mut all_timeouts = true;
    let mut k: usize = 0;
    while k < n
        invariant
            n == failures@.len(),
            k <= n,
            all_timeouts == (forall|x: int| 0 <= x < k ==> (#[trigger] failures@[x]).exit == Exit::Timeout),
        decreases n - k,
    {
        if failures[k].exit != Exit::Timeout {
            all_timeouts = false;
        }
        k = k + 1;
    }
    let mut message = crate::text::decimal_string(n as u64);
    if all_timeouts {
        message.append(" downloads timed out");
        Err(CliError { exit: Exit::Timeout, message })
    } else {
        message.append(" downloads failed");
        Err(CliError { exit: Exit::Transfer, message })
    }
}

/// Filters, ranks and caps a raw result set (a `limit` of 0 keeps every
/// result), failing when nothing survives.
pub fn ranked(
    results: &[SearchResult],
    filter: &Filter,
    sort: SortKey,
    limit: usize,
    query: &str,
) -> (r: CliResult<Vec<SearchRecord>>)
    ensures
        ({
            let found = all_records(results@).filter(|c: SearchRecord| filter.spec_keeps(c));
            let kept = if limit > 0 && limit < found.len() {
                limit as int
            } else {
                found.len() as int
            };
            match r {
                Ok(v) => kept > 0 && v@.len() == kept && is_ranked(v@, sort) && (exists|all: Seq<
                    SearchRecord,
                >|
                    all.to_multiset() == found.to_multiset() && is_ranked(all, sort) && v@
                        == all.take(kept)),
                Err(e) => kept == 0 && e.exit == Exit::NoResults && e.message@ == "no results for '"@
                    + query@ + "'"@,
            }
        }),
{
    let mut found = candidates(results, filter);
    let ghost cand = found@;
    rank(&mut found, sort);
    let ghost all = found@;
    proof {
        cand.to_multiset_ensures();
        all.to_multiset_ensures();
        assert(all.len() == cand.len());
    }
    if limit > 0 && limit < found.len() {
        found.truncate(limit);
    }
    assert(found@ == all.take(found@.len() as int));
    if found.len() == 0 {
        let mut message = owned("no results for '");
        message.append(query);
        message.append("'");
        return Err(CliError { exit: Exit::NoResults, message });
    }
    assert(all.to_multiset() == cand.to_multiset() && is_ranked(all, sort) && found@ == all.take(
        found@.len() as int,
    ));
    proof {
        assert forall|a: int, b: int| 0 <= a < b < found@.len() implies !(#[trigger] found@[b]).before(
            #[trigger] found@[a],
            sort,
        ) by {
            assert(found@[a] == all[a] && found@[b] == all[b]);
        }
    }
    Ok(found)
}

/// `s` without the line-break characters at its end.
pub open spec fn without_line_break(s: Seq<char>) -> Seq<char>
    decreases s.len(),
{
    if s.len() > 0 && (s.last() == '\r' || s.last() == '\n') {
        without_line_break(s.drop_last())
    } else {
        s
    }
}

fn strip_line_break(line: &str) -> (r: &str)
    ensures
        r@ == without_line_break(line@),
{
    let mut j = line.unicode_len();
    assert(line@.take(j as int) =~= line@);
    while j > 0 && (line.get_char(j - 1) == '\r' || line.get_char(j - 1) == '\n')
        invariant
            j <= line@.len(),
            without_line_break(line@) == without_line_break(line@.take(j as int)),
        decreases j,
    {
        assert(line@.take(j as int).drop_last() =~= line@.take(j - 1));
        j = j - 1;
    }
    assert(line@.take(j as int) =~= line@.subrange(0, j as int));
    line.substring_char(0, j)
}

/// The shape of a line of `download --stdin` input.
#[derive(Debug, Clone, Copy, PartialEq, Eq, Structural)]
pub enum LineForm {
    /// Nothing but white space.
    Blank,
    /// A JSON record, as `--json` output writes one.
    Json,
    /// Tab-separated fields, as text output writes them.
    Text,
}

/// The shape of `line` once its line break is cut off.
pub open spec fn spec_line_form(line: Seq<char>) -> LineForm {
    let t = trim(without_line_break(line));
    if t.len() == 0 {
        LineForm::Blank
    } else if t[0] == '{' {
        LineForm::Json
    } else {
        LineForm::Text
    }
}

/// Tells a blank line, a JSON record and tab-separated text apart.
pub fn line_form(line: &str) -> (f: LineForm)
    ensures
        f == spec_line_form(line@),
{
    let t = trim_str(strip_line_break(line));
    if t.unicode_len() == 0 {
        LineForm::Blank
    } else if t.get_char(0) == '{' {
        LineForm::Json
    } else {
        LineForm::Text
    }
}

/// The text of a JSON record line, without the surrounding white space.
pub fn json_text(line: &str) -> (r: &str)
    ensures
        r@ == trim(without_line_break(line@)),
{
    trim_str(strip_line_break(line))
}

/// A request from its fields, refused when the user or the path is empty.
pub fn checked_request(user: String, path: String, size: u64) -> (r: Result<Request, String>)
    ensures
        r matches Ok(q) ==> q.user == user && q.path == path && q.size == size,
        r is Ok <==> user@.len() > 0 && path@.len() > 0,
        r matches Err(m) ==> m@ == "user and path must not be empty"@,
{
    if user.unicode_len() == 0 || path.unicode_len() == 0 {
        return Err(owned("user and path must not be empty"));
    }
    Ok(Request { user, path, size })
}

/// What the tab-separated fields of a line ask for: the first field is the
/// user and the last the remote path, with the size second when there are
/// three fields or more (an unreadable size counts as unknown, 0).
pub open spec fn text_fields(line: Seq<char>) -> Result<(Seq<char>, Seq<char>, u64), Seq<char>> {
    let fields = split_on(without_line_break(line), '\t');
    if fields.len() < 2 {
        Err("expected tab-separated USER…PATH or a JSON record"@)
    } else {
        let size: u64 = if fields.len() >= 3 {
            match parse_bounded(trim(fields[1]), u64::MAX as nat) {
                Some(v) => v as u64,
                None => 0,
            }
        } else {
            0
        };
        Ok((trim(fields[0]), trim(fields.last()), size))
    }
}

/// Reads a request from a line of tab-separated text, as `search` and
/// `browse` print them.
pub fn text_request(line: &str) -> (r: Result<Request, String>)
    ensures
        match text_fields(line@) {
            Ok((user, path, size)) => if user.len() > 0 && path.len() > 0 {
                r matches Ok(q) && q.user@ == user && q.path@ == path && q.size == size
            } else {
                r matches Err(m) && m@ == "user and path must not be empty"@
            },
            Err(m) => r matches Err(e) && e@ == m,
        },
{
    let fields = split_char(strip_line_break(line), '\t');
    let n = fields.len();
    if n < 2 {
        return Err(owned("expected tab-separated USER…PATH or a JSON record"));
    }
    assert(views(fields@)[0] == fields@[0]@);
    assert(views(fields@)[n - 1] == fields@[n - 1]@);
    let size: u64 = if n >= 3 {
        assert(views(fields@)[1] == fields@[1]@);
        match parse_uint(trim_str(fields[1].as_str()), u64::MAX) {
            Some(v) => v,
            None => 0,
        }
    } else {
        0
    };
    let user = owned(trim_str(fields[0].as_str()));
    let path = owned(trim_str(fields[n - 1].as_str()));
    checked_request(user, path, size)
}

/// What `search` prints for the answers a search collected: the filtered
/// candidates in rank order, capped, or the no-results verdict.
pub fn search(results: &[SearchResult], args: &SearchArgs) -> (r: CliResult<Vec<SearchRecord>>)
    ensures
        ({
            let f = Filter {
                min_bitrate: args.filter.min_bitrate,
                free_slots_only: args.filter.free_slots,
                exclude: args.filter.exclude,
                extensions: args.filter.extension,
                min_size: args.filter.min_size,
                max_size: args.filter.max_size,
            };
            let found = all_records(results@).filter(|c: SearchRecord| f.spec_keeps(c));
            let kept = if args.limit > 0 && args.limit < found.len() {
                args.limit as int
            } else {
                found.len() as int
            };
            match r {
                Ok(v) => kept > 0 && v@.len() == kept && is_ranked(v@, args.sort) && (exists|
                    all: Seq<SearchRecord>,
                |
                    all.to_multiset() == found.to_multiset() && is_ranked(all, args.sort) && v@
                        == all.take(kept)),
                Err(e) => kept == 0 && e.exit == Exit::NoResults && e.message@
                    == "no results for '"@ + args.query@ + "'"@,
            }
        }),
{
    let filter = Filter::of(&args.filter);
    proof {
        let f = Filter {
            min_bitrate: args.filter.min_bitrate,
            free_slots_only: args.filter.free_slots,
            exclude: args.filter.exclude,
            extensions: args.filter.extension,
            min_size: args.filter.min_size,
            max_size: args.filter.max_size,
        };
        assert forall|c: SearchRecord| f.spec_keeps(c) == filter.spec_keeps(c) by {
            assert(f.exclude@ == filter.exclude@);
            assert(f.extensions@ == filter.extensions@);
        }
        assert((|c: SearchRecord| f.spec_keeps(c)) =~= (|c: SearchRecord| filter.spec_keeps(c)));
    }
    ranked(results, &filter, args.sort, args.limit, args.query.as_str())
}

/// The download request for the file a search record names.
pub open spec fn request_of(c: SearchRecord) -> Request {
    Request { user: c.user, path: c.path, size: c.size }
}

/// How many results `get` fetches: one for `best` and `first`, the limit
/// (0 for all) for `all`.
pub open spec fn get_limit(args: GetArgs) -> usize {
    match args.pick {
        Pick::Best | Pick::First => 1,
        Pick::All => args.limit,
    }
}

/// What `get` fetches from the answers a search collected: the best-ranked
/// candidates, as many as the pick allows, or the no-results verdict.
pub fn get(results: &[SearchResult], args: &GetArgs) -> (r: CliResult<Vec<Request>>)
    ensures
        ({
            let f = Filter {
                min_bitrate: args.filter.min_bitrate,
                free_slots_only: args.filter.free_slots,
                exclude: args.filter.exclude,
                extensions: args.filter.extension,
                min_size: args.filter.min_size,
                max_size: args.filter.max_size,
            };
            let found = all_records(results@).filter(|c: SearchRecord| f.spec_keeps(c));
            let limit = get_limit(*args);
            let kept = if limit > 0 && limit < found.len() {
                limit as int
            } else {
                found.len() as int
            };
            match r {
                Ok(v) => kept > 0 && v@.len() == kept && (exists|all: Seq<SearchRecord>|
                    all.to_multiset() == found.to_multiset() && is_ranked(all, SortKey::Best)
                        && forall|k: int| 0 <= k < kept ==> #[trigger] v@[k] == request_of(all[k])),
                Err(e) => kept == 0 && e.exit == Exit::NoResults && e.message@
                    == "no results for '"@ + args.query@ + "'"@,
            }
        }),
{
    let filter = Filter::of(&args.filter);
    proof {
        let f = Filter {
            min_bitrate: args.filter.min_bitrate,
            free_slots_only: args.filter.free_slots,
            exclude: args.filter.exclude,
            extensions: args.filter.extension,
            min_size: args.filter.min_size,
            max_size: args.filter.max_size,
        };
        assert forall|c: SearchRecord| f.spec_keeps(c) == filter.spec_keeps(c) by {
            assert(f.exclude@ == filter.exclude@);
            assert(f.extensions@ == filter.extensions@);
        }
        assert((|c: SearchRecord| f.spec_keeps(c)) =~= (|c: SearchRecord| filter.spec_keeps(c)));
    }
    let limit: usize = match args.pick {
        Pick::Best | Pick::First => 1,
        Pick::All => args.limit,
    };
    let found = ranked(results, &filter, SortKey::Best, limit, args.query.as_str())?;
    let mut out: Vec<Request> = Vec::new();
    let n = found.len();
    let mut i: usize = 0;
    while i < n
        invariant
            n == found@.len(),
            i <= n,
            out@.len() == i,
            forall|k: int| 0 <= k < i ==> #[trigger] out@[k] == request_of(found@[k]),
        decreases n - i,
    {
        out.push(Request::from(&found[i]));
        i = i + 1;
    }
    proof {
        let f = Filter {
            min_bitrate: args.filter.min_bitrate,
            free_slots_only: args.filter.free_slots,
            exclude: args.filter.exclude,
            extensions: args.filter.extension,
            min_size: args.filter.min_size,
            max_size: args.filter.max_size,
        };
        let fnd = all_records(results@).filter(|c: SearchRecord| filter.spec_keeps(c));
        let all = choose|all: Seq<SearchRecord>|
            all.to_multiset() == fnd.to_multiset() && is_ranked(all, SortKey::Best) && found@
                == all.take(n as int);
        all.to_multiset_ensures();
        fnd.to_multiset_ensures();
        assert(all.len() == fnd.len());
        assert forall|k: int| 0 <= k < n implies #[trigger] out@[k] == request_of(all[k]) by {
            assert(found@[k] == all.take(n as int)[k]);
        }
    }
    Ok(out)
}

/// The requests `download` was given on its command line: the one file
/// named there, or the ones read from standard input with `--stdin`; a usage
/// error when neither names a file, the no-results verdict when nothing is
/// left to fetch.
pub fn download_requests(args: &DownloadArgs, from_stdin: Vec<Request>) -> (r: CliResult<
    Vec<Request>,
>)
    ensures
        args.stdin ==> match r {
            Ok(v) => v@ == from_stdin@ && v@.len() > 0,
            Err(e) => from_stdin@.len() == 0 && e.exit == Exit::NoResults && e.message@
                == "no files to download"@,
        },
        !args.stdin ==> match (args.user, args.path) {
            (Some(u), Some(p)) => r matches Ok(v) && v@.len() == 1 && v@[0].user == u && v@[0].path
                == p && v@[0].size == match args.size {
                Some(s) => s,
                None => 0,
            },
            _ => r matches Err(e) && e.exit == Exit::Usage && e.message@
                == "download needs USER and PATH, or --stdin"@,
        },
{
    if args.stdin {
        if from_stdin.len() == 0 {
            return Err(CliError::no_results("no files to download"));
        }
        return Ok(from_stdin);
    }
    match (&args.user, &args.path) {
        (Some(u), Some(p)) => {
            let size = match args.size {
                Some(s) => s,
                None => 0,
            };
            let mut v: Vec<Request> = Vec::new();
            v.push(Request { user: u.clone(), path: p.clone(), size });
            Ok(v)
        },
        _ => Err(CliError::usage("download needs USER and PATH, or --stdin")),
    }
}

} // verus!
