//! Live-stream bookkeeping: the WebSocket address, and the capped histories
//! of log lines (newest first) and of the aggregate message rate.
use crate::text::{concat, str_equal};
use vstd::prelude::*;

verus! {

/// Log lines kept on the console.
pub const LOG_CAP: usize = 200;

/// Points kept in the throughput chart.
pub const SERIES_CAP: usize = 60;

/// The WebSocket address for a page served over `protocol` from `host`:
/// secure when the page is.
pub fn ws_url(protocol: &str, host: &str) -> (r: String)
    ensures
        r@ == (if protocol@ == "https:"@ {
            "wss"@
        } else {
            "ws"@
        }) + "://"@ + host@ + "/api/ws"@,
{
    let scheme = if str_equal(protocol, "https:") {
        "wss"
    } else {
        "ws"
    };
    let mut r = concat(scheme, "://");
    r.append(host);
    r.append("/api/ws");
    r
}

/// The last `cap` items of `s`, or all of them when there are fewer.
pub open spec fn keep_last<T>(s: Seq<T>, cap: nat) -> Seq<T> {
    if s.len() > cap {
        s.skip(s.len() - cap)
    } else {
        s
    }
}

/// Appends `x` and drops the oldest items beyond `cap`.
pub fn push_capped<T>(v: &mut Vec<T>, x: T, cap: usize)
    ensures
        final(v)@ == keep_last(old(v)@.push(x), cap as nat),
        final(v)@.len() == if old(v)@.len() + 1 > cap {
            cap as int
        } else {
            old(v)@.len() + 1 as int
        },
{
    v.push(x);
    let n = v.len();
    if n > cap {
        let tail = v.split_off(n - cap);
        *v = tail;
        assert(old(v)@.push(x).subrange((n - cap) as int, n as int) == old(v)@.push(x).skip(
            (n - cap) as int,
        ));
    }
}

/// `v` with `x` put first, cut to its first `cap` items.
pub open spec fn prepended<T>(v: Seq<T>, x: T, cap: nat) -> Seq<T> {
    if v.len() + 1 > cap {
        v.insert(0, x).take(cap as int)
    } else {
        v.insert(0, x)
    }
}

/// Puts `x` first and keeps at most `cap` items.
pub fn prepend_capped<T>(v: &mut Vec<T>, x: T, cap: usize)
    ensures
        final(v)@ == prepended(old(v)@, x, cap as nat),
        final(v)@.len() <= cap as int,
        final(v)@.len() > 0 ==> final(v)@[0] == x,
{
    v.insert(0, x);
    v.truncate(cap);
}

/// The rate series after `rates` arrive one by one, each appended with
/// `push_capped`, starting from an empty chart.
pub open spec fn series_after<T>(rates: Seq<T>, cap: nat) -> Seq<T>
    decreases rates.len(),
{
    if rates.len() == 0 {
        Seq::empty()
    } else {
        keep_last(series_after(rates.drop_last(), cap).push(rates.last()), cap)
    }
}

/// The log list after `lines` arrive one by one, each put first with
/// `prepend_capped`, starting from an empty list.
pub open spec fn logs_after<T>(lines: Seq<T>, cap: nat) -> Seq<T>
    decreases lines.len(),
{
    if lines.len() == 0 {
        Seq::empty()
    } else {
        prepended(logs_after(lines.drop_last(), cap), lines.last(), cap)
    }
}

/// `s` newest first: its items in reverse order of arrival.
pub open spec fn newest_first<T>(s: Seq<T>) -> Seq<T> {
    Seq::new(s.len(), |i: int| s[s.len() - 1 - i])
}

/// The first `cap` items of `s`, or all of them when there are fewer.
pub open spec fn keep_first<T>(s: Seq<T>, cap: nat) -> Seq<T> {
    if s.len() > cap {
        s.take(cap as int)
    } else {
        s
    }
}

/// Whatever rates arrive, the throughput chart holds exactly the latest
/// `cap` of them, oldest first, so it never grows past its cap and ends with
/// the latest rate.
pub proof fn series_keeps_latest<T>(rates: Seq<T>, cap: nat)
    ensures
        series_after(rates, cap) == keep_last(rates, cap),
        series_after(rates, cap).len() <= cap,
        rates.len() > 0 && cap > 0 ==> series_after(rates, cap).last() == rates.last(),
    decreases rates.len(),
{
    if rates.len() > 0 {
        let before = rates.drop_last();
        let x = rates.last();
        series_keeps_latest(before, cap);
        assert(rates == before.push(x));
        let kept = keep_last(before, cap);
        assert(keep_last(kept.push(x), cap) =~= keep_last(rates, cap));
    } else {
        assert(keep_last(rates, cap) =~= Seq::<T>::empty());
    }
}

/// Whatever log lines arrive, the log list holds exactly the latest `cap` of
/// them, newest first, so it never grows past its cap and starts with the
/// latest line.
pub proof fn logs_keep_newest_first<T>(lines: Seq<T>, cap: nat)
    ensures
        logs_after(lines, cap) == keep_first(newest_first(lines), cap),
        logs_after(lines, cap).len() <= cap,
        lines.len() > 0 && cap > 0 ==> logs_after(lines, cap)[0] == lines.last(),
    decreases lines.len(),
{
    if lines.len() > 0 {
        let before = lines.drop_last();
        let x = lines.last();
        logs_keep_newest_first(before, cap);
        assert(newest_first(lines) =~= newest_first(before).insert(0, x));
        let kept = keep_first(newest_first(before), cap);
        assert(prepended(kept, x, cap) =~= keep_first(newest_first(before).insert(0, x), cap));
    } else {
        assert(keep_first(newest_first(lines), cap) =~= Seq::<T>::empty());
    }
}

} // verus!
