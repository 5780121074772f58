//! Logs kept by the app: the per-distro bridge health history (a bounded ring) and
//! the audit log, and the queries the UI makes of them.
use vstd::prelude::*;

use crate::bridge::BridgeHistoryEvent;
use crate::profile::Provider;
use crate::error::MazeSshError;
use crate::security::{ensure_unlocked, AuditEntry, SecurityState};

verus! {

/// An entry of the activity log.
#[derive(Debug, Clone)]
pub struct LogEntry {
    pub id: String,
    pub action: String,
    pub profile_name: String,
    pub provider: Provider,
    pub detail: String,
    pub timestamp: String,
}

/// Events kept per distro; older ones are dropped.
pub const MAX_HISTORY_ENTRIES: usize = 200;

pub open spec fn history_char(c: char) -> char {
    if c == '/' || c == '\\' || c == ':' || c == '*' || c == '?' || c == '"' || c == '<' || c == '>'
        || c == '|' || c == ' ' {
        '_'
    } else {
        c
    }
}

/// The history file name of a distro: unsafe filename characters become `_`.
pub open spec fn history_file(distro: Seq<char>) -> Seq<char> {
    "bridge-history-"@ + distro.map_values(|c: char| history_char(c)) + ".json"@
}

pub fn history_file_name(distro: &str) -> (r: String)
    ensures
        r@ == history_file(distro@),
{
    let c = crate::text::chars_of(distro);
    let mut r = "bridge-history-".to_string();
    let ghost head = r@;
    let mut i: usize = 0;
    while i < c.len()
        invariant
            i <= c@.len(),
            c@ == distro@,
            head == "bridge-history-"@,
            r@ == head + c@.take(i as int).map_values(|x: char| history_char(x)),
        decreases c@.len() - i,
    {
        let x = c[i];
        let y = if x == '/' || x == '\\' || x == ':' || x == '*' || x == '?' || x == '"' || x == '<'
            || x == '>' || x == '|' || x == ' ' {
            '_'
        } else {
            x
        };
        crate::text::push_char(&mut r, y);
        assert(c@.take(i + 1).map_values(|x: char| history_char(x)) =~= c@.take(i as int).map_values(
            |x: char| history_char(x),
        ).push(history_char(x)));
        i = i + 1;
    }
    assert(c@.take(c@.len() as int) =~= c@);
    r.append(".json");
    r
}

/// The last `n` items of `s` (all of them when there are fewer).
pub open spec fn last_n<T>(s: Seq<T>, n: nat) -> Seq<T> {
    if s.len() > n {
        s.skip(s.len() - n)
    } else {
        s
    }
}

/// Appends an event to a distro's history, keeping only the newest
/// `MAX_HISTORY_ENTRIES`.
pub fn append_event(events: Vec<BridgeHistoryEvent>, entry: BridgeHistoryEvent) -> (r: Vec<BridgeHistoryEvent>)
    ensures
        r@ == last_n(events@.push(entry), MAX_HISTORY_ENTRIES as nat),
        r@.len() <= MAX_HISTORY_ENTRIES,
        r@.last() == entry,
{
    let mut events = events;
    events.push(entry);
    if events.len() > MAX_HISTORY_ENTRIES {
        let overflow = events.len() - MAX_HISTORY_ENTRIES;
        let kept = events.split_off(overflow);
        return kept;
    }
    events
}

/// The `n` first items of `s` in reverse order of `s`'s end: the newest first.
pub open spec fn newest_first<T>(s: Seq<T>, n: nat) -> Seq<T> {
    let r = s.reverse();
    if r.len() > n {
        r.take(n as int)
    } else {
        r
    }
}

/// Up to `limit` most recent events, newest first.
pub fn read_events(events: Vec<BridgeHistoryEvent>, limit: usize) -> (r: Vec<BridgeHistoryEvent>)
    ensures
        r@ == newest_first(events@, limit as nat),
{
    let mut src = events;
    let ghost all = src@;
    let mut out: Vec<BridgeHistoryEvent> = Vec::new();
    while out.len() < limit && src.len() > 0
        invariant
            src@.len() + out@.len() == all.len(),
            out@.len() <= limit,
            src@ == all.take(src@.len() as int),
            out@ == all.reverse().take(out@.len() as int),
        decreases src@.len(),
    {
        let ghost before = src@;
        let e = src.pop().unwrap();
        assert(before.drop_last() =~= src@);
        assert(src@ =~= all.take(src@.len() as int));
        assert(all.reverse()[out@.len() as int] == e);
        out.push(e);
        assert(out@ =~= all.reverse().take(out@.len() as int));
    }
    proof {
        assert(all.reverse().len() == all.len());
        if out@.len() == all.len() {
            assert(all.reverse().take(all.len() as int) =~= all.reverse());
        }
    }
    out
}

/// The audit entries whose action is `filter` (all of them without a filter).
pub open spec fn with_action(es: Seq<AuditEntry>, filter: Option<Seq<char>>) -> Seq<AuditEntry>
    decreases es.len(),
{
    if es.len() == 0 {
        Seq::empty()
    } else {
        let p = with_action(es.drop_last(), filter);
        match filter {
            Some(f) => if es.last().action@ == f {
                p.push(es.last())
            } else {
                p
            },
            None => p.push(es.last()),
        }
    }
}

/// A page of `s`: `limit` items from `offset` on.
pub open spec fn page<T>(s: Seq<T>, offset: nat, limit: nat) -> Seq<T> {
    let rest = if offset < s.len() {
        s.skip(offset as int)
    } else {
        Seq::empty()
    };
    if rest.len() > limit {
        rest.take(limit as int)
    } else {
        rest
    }
}

/// A page of the audit log, newest first, optionally only one action.
pub fn read_logs(entries: Vec<AuditEntry>, limit: usize, offset: usize, action_filter: Option<&str>) -> (r: Vec<AuditEntry>)
    ensures
        r@ == page(
            with_action(
                entries@,
                match action_filter {
                    Some(f) => Some(f@),
                    None => None,
                },
            ).reverse(),
            offset as nat,
            limit as nat,
        ),
{
    let ghost filt = match action_filter {
        Some(f) => Some(f@),
        None => None::<Seq<char>>,
    };
    let f: Option<String> = match action_filter {
        Some(x) => Some(x.to_string()),
        None => None,
    };
    let mut src = entries;
    let ghost all = src@;
    let mut newest: Vec<AuditEntry> = Vec::new();
    while src.len() > 0
        invariant
            src@.len() <= all.len(),
            src@ == all.take(src@.len() as int),
            f matches Some(x) ==> filt == Some(x@),
            f is None ==> filt is None,
            with_action(all, filt).reverse() == newest@ + with_action(src@, filt).reverse(),
        decreases src@.len(),
    {
        let ghost before = src@;
        let e = src.pop().unwrap();
        assert(before.drop_last() =~= src@);
        assert(src@ =~= all.take(src@.len() as int));
        let keep = match &f {
            Some(x) => e.action == *x,
            None => true,
        };
        let ghost prev = with_action(src@, filt);
        if keep {
            assert(with_action(before, filt) == prev.push(e));
            assert(prev.push(e).reverse() =~= seq![e] + prev.reverse());
            newest.push(e);
        } else {
            assert(with_action(before, filt) == prev);
        }
    }
    assert(with_action(src@, filt).reverse() =~= Seq::<AuditEntry>::empty());
    assert(newest@ =~= with_action(all, filt).reverse());
    let mut out: Vec<AuditEntry> = Vec::new();
    let n = newest.len();
    let mut rest = if offset < n {
        newest.split_off(offset)
    } else {
        Vec::new()
    };
    if rest.len() > limit {
        rest.truncate(limit);
    }
    out.append(&mut rest);
    out
}

/// A page of the audit log `entries` (oldest first, as read from the log file),
/// newest first and optionally only one action; refused while the app is locked.
pub fn get_audit_logs(
    security: &mut SecurityState,
    entries: Vec<AuditEntry>,
    limit: u32,
    offset: u32,
    action_filter: Option<&str>,
    now: u64,
) -> (r: Result<Vec<AuditEntry>, MazeSshError>)
    ensures
        old(security).is_locked ==> (r matches Err(MazeSshError::AppLocked)) && *final(security) == *old(security),
        !old(security).is_locked ==> *final(security) == (SecurityState { last_activity: now, ..*old(security) }),
        !old(security).is_locked ==> (r matches Ok(v) && v@ == page(
            with_action(
                entries@,
                match action_filter {
                    Some(f) => Some(f@),
                    None => None,
                },
            ).reverse(),
            offset as nat,
            limit as nat,
        )),
{
    match ensure_unlocked(security, now) {
        Err(e) => Err(e),
        Ok(()) => Ok(read_logs(entries, limit as usize, offset as usize, action_filter)),
    }
}

} // verus!

