//! Which Codex usage reading is shown: readings from the CodexMate quota store and from
//! the Codex session transcripts are compared by their limit and time, and the latest
//! reading is cached for a few seconds. The readings themselves (with their percentages)
//! stay with the caller, who refers to them by an index.
use vstd::prelude::*;
use crate::text::{chars_of, contains, contains_str, str_eq};

verus! {

/// What the selection reads of a usage reading: the limit it describes and when it was
/// taken (nanoseconds since the epoch).
#[derive(Debug)]
pub struct UsageKey {
    pub limit_id: String,
    pub updated_at: i64,
}

/// A copy of a key.
pub fn copy_key(k: &UsageKey) -> (r: UsageKey)
    ensures
        r == *k,
{
    UsageKey { limit_id: k.limit_id.clone(), updated_at: k.updated_at }
}

/// A transcript line is read for usage only when it mentions `"rate_limits"`.
pub fn may_hold_usage(line: &str) -> (r: bool)
    ensures
        r == contains(line@, "\"rate_limits\""@),
{
    let c = chars_of(line);
    contains_str(&c, "\"rate_limits\"")
}

/// A general reading is stale when the other reading is more than two minutes newer.
pub const GENERAL_LIMIT_STALE_AFTER_NANOS: i64 = 120_000_000_000;

/// How long a cached reading is served, in nanoseconds.
pub const CACHE_TTL_NANOS: i64 = 5_000_000_000;

pub open spec fn stale(codex_at: i64, latest_at: i64) -> bool {
    latest_at - codex_at > GENERAL_LIMIT_STALE_AFTER_NANOS
}

pub open spec fn is_general(k: UsageKey) -> bool {
    k.limit_id@ == "codex"@
}

fn is_general_exec(k: &UsageKey) -> (r: bool)
    ensures
        r == is_general(*k),
{
    let c = chars_of(k.limit_id.as_str());
    str_eq(&c, "codex")
}

/// Whether the general reading `codex` is older than `latest` by more than two minutes.
pub fn is_general_limit_stale(codex: &UsageKey, latest: &UsageKey) -> (r: bool)
    ensures
        r == stale(codex.updated_at, latest.updated_at),
{
    (latest.updated_at as i128) - (codex.updated_at as i128) > GENERAL_LIMIT_STALE_AFTER_NANOS as i128
}

pub open spec fn newer(k: UsageKey, current: Option<(UsageKey, usize)>) -> bool {
    match current {
        Some((c, _)) => k.updated_at > c.updated_at,
        None => true,
    }
}

/// The newest reading seen, and the newest general (`codex`) one, with their indices.
#[derive(Debug)]
pub struct UsageCandidates {
    pub latest_codex: Option<(UsageKey, usize)>,
    pub latest_any: Option<(UsageKey, usize)>,
}

/// The reading shown from the transcripts: the newest general reading, unless a reading of
/// another limit is more than two minutes newer; the newest reading when there is no
/// general one.
pub open spec fn latest_of(c: UsageCandidates) -> Option<usize> {
    match (c.latest_codex, c.latest_any) {
        (Some((codex, i)), Some((any, j))) => if stale(codex.updated_at, any.updated_at) {
            Some(j)
        } else {
            Some(i)
        },
        (Some((_, i)), None) => Some(i),
        (None, Some((_, j))) => Some(j),
        (None, None) => None,
    }
}

/// A reading becomes the newest reading (and the newest general one, if general) when
/// strictly newer than the one held.
pub open spec fn record_step(c: UsageCandidates, key: UsageKey, index: usize) -> UsageCandidates {
    UsageCandidates {
        latest_codex: if is_general(key) && newer(key, c.latest_codex) {
            Some((key, index))
        } else {
            c.latest_codex
        },
        latest_any: if newer(key, c.latest_any) {
            Some((key, index))
        } else {
            c.latest_any
        },
    }
}

/// The candidates after recording `keys` in order, each with its position.
pub open spec fn recorded(keys: Seq<UsageKey>) -> UsageCandidates
    decreases keys.len(),
{
    if keys.len() == 0 {
        UsageCandidates { latest_codex: None, latest_any: None }
    } else {
        record_step(recorded(keys.drop_last()), keys.last(), (keys.len() - 1) as usize)
    }
}

/// The readings that count: all of them, or the general ones only.
pub open spec fn counts(k: UsageKey, general_only: bool) -> bool {
    !general_only || is_general(k)
}

/// `r` holds the first of the newest readings of `keys` that count, with its position, and
/// nothing when none counts.
pub open spec fn first_newest(keys: Seq<UsageKey>, general_only: bool, r: Option<(UsageKey, usize)>) -> bool {
    match r {
        Some((k, i)) => {
            &&& i < keys.len()
            &&& keys[i as int] == k
            &&& counts(k, general_only)
            &&& forall|j: int| 0 <= j < keys.len() && counts(#[trigger] keys[j], general_only) ==> keys[j].updated_at <= k.updated_at
            &&& forall|j: int| 0 <= j < i && counts(#[trigger] keys[j], general_only) ==> keys[j].updated_at < k.updated_at
        },
        None => forall|j: int| 0 <= j < keys.len() ==> !counts(#[trigger] keys[j], general_only),
    }
}

/// Recording readings one by one keeps the first of the newest readings, and the first of
/// the newest general readings, whatever the order they come in.
pub proof fn law_candidates_keep_first_newest(keys: Seq<UsageKey>)
    requires
        keys.len() <= usize::MAX,
    ensures
        first_newest(keys, false, recorded(keys).latest_any),
        first_newest(keys, true, recorded(keys).latest_codex),
    decreases keys.len(),
{
    if keys.len() > 0 {
        let d = keys.drop_last();
        law_candidates_keep_first_newest(d);
        assert(keys =~= d.push(keys.last()));
        lemma_first_newest_step(d, keys.last(), false, recorded(d).latest_any);
        lemma_first_newest_step(d, keys.last(), true, recorded(d).latest_codex);
    }
}

proof fn lemma_first_newest_step(d: Seq<UsageKey>, k: UsageKey, general_only: bool, r: Option<(UsageKey, usize)>)
    requires
        first_newest(d, general_only, r),
        d.len() < usize::MAX,
    ensures
        first_newest(
            d.push(k),
            general_only,
            if counts(k, general_only) && newer(k, r) {
                Some((k, d.len() as usize))
            } else {
                r
            },
        ),
{
    let keys = d.push(k);
    assert forall|j: int| 0 <= j < d.len() implies #[trigger] keys[j] == d[j] by {}
    assert(keys[d.len() as int] == k);
    match r {
        Some((pk, i)) => {
            assert(d[i as int] == pk);
            if counts(k, general_only) && newer(k, r) {
                assert forall|j: int| 0 <= j < keys.len() && counts(#[trigger] keys[j], general_only) implies keys[j].updated_at <= k.updated_at by {
                    if j < d.len() {
                        assert(counts(d[j], general_only));
                    }
                }
                assert forall|j: int| 0 <= j < d.len() && counts(#[trigger] keys[j], general_only) implies keys[j].updated_at < k.updated_at by {
                    assert(counts(d[j], general_only));
                }
            } else {
                assert forall|j: int| 0 <= j < keys.len() && counts(#[trigger] keys[j], general_only) implies keys[j].updated_at <= pk.updated_at by {
                    if j < d.len() {
                        assert(counts(d[j], general_only));
                    }
                }
                assert forall|j: int| 0 <= j < i && counts(#[trigger] keys[j], general_only) implies keys[j].updated_at < pk.updated_at by {
                    assert(counts(d[j], general_only));
                }
            }
        },
        None => {
            assert forall|j: int| 0 <= j < d.len() implies !counts(#[trigger] keys[j], general_only) by {
                assert(!counts(d[j], general_only));
            }
        },
    }
}

impl UsageCandidates {
    pub fn new() -> (r: UsageCandidates)
        ensures
            r.latest_codex is None,
            r.latest_any is None,
    {
        UsageCandidates { latest_codex: None, latest_any: None }
    }

    /// Takes a reading into account (see `record_step`).
    pub fn record(&mut self, key: UsageKey, index: usize)
        ensures
            *final(self) == record_step(*old(self), key, index),
    {
        let newer_any = match &self.latest_any {
            Some((c, _)) => key.updated_at > c.updated_at,
            None => true,
        };
        let newer_codex = match &self.latest_codex {
            Some((c, _)) => key.updated_at > c.updated_at,
            None => true,
        };
        let general = is_general_exec(&key);
        if newer_any {
            self.latest_any = Some((copy_key(&key), index));
        }
        if general && newer_codex {
            self.latest_codex = Some((key, index));
        }
    }

    /// The index of the reading to show (see `latest_of`).
    pub fn into_latest(self) -> (r: Option<usize>)
        ensures
            r == latest_of(self),
    {
        match (self.latest_codex, self.latest_any) {
            (Some((codex, i)), Some((any, j))) => if is_general_limit_stale(&codex, &any) {
                Some(j)
            } else {
                Some(i)
            },
            (Some((_, i)), None) => Some(i),
            (None, Some((_, j))) => Some(j),
            (None, None) => None,
        }
    }
}

/// Which source's reading is shown.
#[derive(Debug, Clone, Copy, PartialEq, Eq, Structural)]
pub enum UsageSource {
    CodexMate,
    Transcript,
    Neither,
}

/// The CodexMate reading is shown unless the transcripts hold a general reading more than
/// two minutes newer; the transcript reading when CodexMate has none.
pub open spec fn source_of(codexmate: Option<UsageKey>, transcript: Option<UsageKey>) -> UsageSource {
    match (codexmate, transcript) {
        (Some(c), Some(t)) => if is_general(t) && stale(c.updated_at, t.updated_at) {
            UsageSource::Transcript
        } else {
            UsageSource::CodexMate
        },
        (Some(_), None) => UsageSource::CodexMate,
        (None, Some(_)) => UsageSource::Transcript,
        (None, None) => UsageSource::Neither,
    }
}

/// A reading is shown whenever one exists: nothing is shown only when neither source has a
/// reading; a CodexMate reading is shown when the transcripts have none, and is set aside
/// only for a general transcript reading taken more than two minutes after it; the
/// transcript reading is shown when CodexMate has none.
pub proof fn law_usage_shown_when_available(codexmate: Option<UsageKey>, transcript: Option<UsageKey>)
    ensures
        (source_of(codexmate, transcript) == UsageSource::Neither) == (codexmate is None && transcript is None),
        codexmate is Some ==> source_of(codexmate, transcript) != UsageSource::Neither,
        codexmate is Some && transcript is None ==> source_of(codexmate, transcript) == UsageSource::CodexMate,
        codexmate is None && transcript is Some ==> source_of(codexmate, transcript) == UsageSource::Transcript,
        source_of(codexmate, transcript) == UsageSource::Transcript ==> (transcript matches Some(t) && (
            codexmate matches Some(c) ==> t.limit_id@ == "codex"@ && t.updated_at - c.updated_at
                > 120_000_000_000)),
        source_of(codexmate, transcript) == UsageSource::CodexMate ==> codexmate is Some,
{
}

pub fn select_usage_source(codexmate: Option<&UsageKey>, transcript: Option<&UsageKey>) -> (r: UsageSource)
    ensures
        (r == UsageSource::Neither) == (codexmate is None && transcript is None),
        codexmate is Some && transcript is None ==> r == UsageSource::CodexMate,
        codexmate is None && transcript is Some ==> r == UsageSource::Transcript,
        r == source_of(
            match codexmate {
                Some(c) => Some(*c),
                None => None,
            },
            match transcript {
                Some(t) => Some(*t),
                None => None,
            },
        ),
{
    match (codexmate, transcript) {
        (Some(c), Some(t)) => if is_general_exec(t) && is_general_limit_stale(c, t) {
            UsageSource::Transcript
        } else {
            UsageSource::CodexMate
        },
        (Some(_), None) => UsageSource::CodexMate,
        (None, Some(_)) => UsageSource::Transcript,
        (None, None) => UsageSource::Neither,
    }
}

/// When a CodexMate account reading was taken, in seconds: the capture time, else the time
/// of the last usage, else the time of the last use.
pub open spec fn reading_time(captured_at: Option<i64>, last_usage_at: Option<i64>, last_used_at: Option<i64>) -> Option<i64> {
    match captured_at {
        Some(t) => Some(t),
        None => match last_usage_at {
            Some(t) => Some(t),
            None => last_used_at,
        },
    }
}

/// The time a CodexMate account reading reports (see `reading_time`), or `None` when it
/// has no time or holds neither usage window, so that it is no reading at all.
pub fn account_reading_time(
    captured_at: Option<i64>,
    last_usage_at: Option<i64>,
    last_used_at: Option<i64>,
    has_primary: bool,
    has_secondary: bool,
) -> (r: Option<i64>)
    ensures
        r == (if has_primary || has_secondary { reading_time(captured_at, last_usage_at, last_used_at) } else { None }),
{
    if !has_primary && !has_secondary {
        return None;
    }
    match captured_at {
        Some(t) => Some(t),
        None => match last_usage_at {
            Some(t) => Some(t),
            None => last_used_at,
        },
    }
}

/// An entry of the CodexMate quota store as the selection reads it: its account, and when
/// its reading was taken (absent when the entry holds no usable reading).
#[derive(Debug, Clone)]
pub struct QuotaItem {
    pub account_key: Option<String>,
    pub updated_at: Option<i64>,
}

pub open spec fn eligible(item: QuotaItem, account: Option<Seq<char>>) -> bool {
    &&& item.updated_at is Some
    &&& match account {
        Some(a) => item.account_key matches Some(k) && k@ == a,
        None => true,
    }
}

/// `Some(i)` is the newest eligible entry, the last of equally new ones (as
/// `Iterator::max_by_key` picks); `None` when no entry is eligible.
pub open spec fn newest_index(items: Seq<QuotaItem>, account: Option<Seq<char>>, r: Option<usize>) -> bool {
    match r {
        Some(i) => {
            &&& i < items.len()
            &&& eligible(items[i as int], account)
            &&& forall|j: int| 0 <= j < items.len() && eligible(#[trigger] items[j], account)
                ==> items[j].updated_at->0 <= items[i as int].updated_at->0
            &&& forall|j: int| i < j < items.len() && eligible(#[trigger] items[j], account)
                ==> items[j].updated_at->0 < items[i as int].updated_at->0
        },
        None => forall|j: int| 0 <= j < items.len() ==> !eligible(#[trigger] items[j], account),
    }
}

fn newest_eligible(items: &Vec<QuotaItem>, account: Option<&str>) -> (r: Option<usize>)
    ensures
        newest_index(items@, match account {
            Some(a) => Some(a@),
            None => None,
        }, r),
{
    let ghost acc = match account {
        Some(a) => Some(a@),
        None => None::<Seq<char>>,
    };
    let mut best: Option<usize> = None;
    let mut i: usize = 0;
    while i < items.len()
        invariant
            i <= items.len(),
            acc == match account {
                Some(a) => Some(a@),
                None => None,
            },
            match best {
                Some(b) => b < i && eligible(items@[b as int], acc)
                    && (forall|j: int| 0 <= j < i && eligible(#[trigger] items@[j], acc) ==> items@[j].updated_at->0 <= items@[b as int].updated_at->0)
                    && (forall|j: int| b < j < i && eligible(#[trigger] items@[j], acc) ==> items@[j].updated_at->0 < items@[b as int].updated_at->0),
                None => forall|j: int| 0 <= j < i ==> !eligible(#[trigger] items@[j], acc),
            },
        decreases items.len() - i,
    {
        let item = &items[i];
        let matches_account = match account {
            Some(a) => match &item.account_key {
                Some(k) => {
                    let kc = chars_of(k.as_str());
                    str_eq(&kc, a)
                },
                None => false,
            },
            None => true,
        };
        if matches_account {
            if let Some(t) = item.updated_at {
                match best {
                    Some(b) => {
                        if let Some(bt) = items[b].updated_at {
                            if t >= bt {
                                best = Some(i);
                            }
                        }
                    },
                    None => {
                        best = Some(i);
                    },
                }
            }
        }
        i = i + 1;
    }
    best
}

/// The entry of the quota store to show: the newest entry of the active account, when
/// there is an active account with a usable entry; otherwise the newest entry of all.
pub fn select_quota_item(items: &Vec<QuotaItem>, active_account: Option<&str>) -> (r: Option<usize>)
    ensures
        match active_account {
            Some(a) => {
                ||| (r is Some && newest_index(items@, Some(a@), r))
                ||| (newest_index(items@, Some(a@), None) && newest_index(items@, None, r))
            },
            None => newest_index(items@, None, r),
        },
{
    if let Some(a) = active_account {
        let r = newest_eligible(items, Some(a));
        if r.is_some() {
            return r;
        }
    }
    newest_eligible(items, None)
}

/// The last reading with the time it was loaded.
#[derive(Debug)]
pub struct UsageCache<T> {
    pub entry: Option<(i64, T)>,
}

pub open spec fn fresh_at(loaded_at: i64, now: i64) -> bool {
    now - loaded_at <= CACHE_TTL_NANOS
}

impl<T> UsageCache<T> {
    pub fn new() -> (r: UsageCache<T>)
        ensures
            r.entry is None,
    {
        UsageCache { entry: None }
    }

    /// Remembers `value` as loaded at `now`.
    pub fn store(&mut self, now: i64, value: T)
        ensures
            final(self).entry == Some((now, value)),
    {
        self.entry = Some((now, value));
    }

    /// The cached value, while it is at most `CACHE_TTL_NANOS` old.
    pub fn cached_value(&self, now: i64) -> (r: Option<&T>)
        ensures
            match self.entry {
                Some((at, v)) => if fresh_at(at, now) {
                    r matches Some(x) && *x == v
                } else {
                    r is None
                },
                None => r is None,
            },
    {
        match &self.entry {
            Some((at, v)) => if (now as i128) - (*at as i128) <= CACHE_TTL_NANOS as i128 {
                Some(v)
            } else {
                None
            },
            None => None,
        }
    }
}

/// Forgets the cached reading, so that the next request loads a new one.
pub fn invalidate_cache<T>(cache: &mut UsageCache<T>)
    ensures
        final(cache).entry is None,
{
    cache.entry = None;
}

} // verus!
