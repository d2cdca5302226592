//! What the console's pages decide: who sees the controls that change
//! things, what the sign-in form sends, the checks forms make before they
//! call the API, which devices and log lines a search shows, the per-fleet
//! availability chart, rollout progress, and the status colours of rows.
use crate::api::non_empty;
use crate::config::{i64_text, parse_i64};
use crate::console::api::{Device, LogEntry, OtaCampaign};
use crate::text::{
    blank, chars_of, concat, contains_text, is_blank, is_infix, lemma_text_less_irreflexive,
    lemma_text_less_total, lemma_text_less_transitive, lowercase, owned, str_equal, text_before,
    text_less, to_lowercase,
};
use vstd::prelude::*;
use vstd::utf8::encode_utf8;

verus! {

// ---- Roles ------------------------------------------------------------------

/// Whether a role sees the controls that change things: everyone but a viewer.
pub fn can_write(role: &str) -> (r: bool)
    ensures
        r == (role@ != "viewer"@),
{
    !str_equal(role, "viewer")
}

/// Whether a role manages the team: owners and admins.
pub fn manages_team(role: &str) -> (r: bool)
    ensures
        r == (role@ == "owner"@ || role@ == "admin"@),
{
    str_equal(role, "owner") || str_equal(role, "admin")
}

/// Whether a team member with `member_role` shows a remove action to `role`:
/// managers may remove anyone but an owner.
pub fn can_remove_member(role: &str, member_role: &str) -> (r: bool)
    ensures
        r == ((role@ == "owner"@ || role@ == "admin"@) && member_role@ != "owner"@),
{
    manages_team(role) && !str_equal(member_role, "owner")
}

// ---- Sign-in screen and theme -------------------------------------------------

/// What the sign-in form sends.
#[derive(Debug)]
pub enum Credentials {
    /// Operator mode: the email and the password as typed.
    Operator { email: String, password: String },
    /// Owner mode: the console passcode as typed.
    Owner { passcode: String },
}

/// The credentials the sign-in form sends in `mode`: email and password in
/// operator mode, the passcode in any other.
pub fn credentials(mode: &str, email: String, password: String, passcode: String) -> (r:
    Credentials)
    ensures
        mode@ == "operator"@ ==> r == (Credentials::Operator { email, password }),
        mode@ != "operator"@ ==> r == (Credentials::Owner { passcode }),
{
    if str_equal(mode, "operator") {
        Credentials::Operator { email, password }
    } else {
        Credentials::Owner { passcode }
    }
}

/// A two-way switch: `first` becomes `second`, anything else `first`.
pub open spec fn flipped(current: Seq<char>, first: Seq<char>, second: Seq<char>) -> Seq<char> {
    if current == first {
        second
    } else {
        first
    }
}

/// The sign-in mode after the switch link: owner and operator take turns.
pub fn other_mode(mode: &str) -> (r: &'static str)
    ensures
        r@ == flipped(mode@, "owner"@, "operator"@),
{
    if str_equal(mode, "owner") {
        "operator"
    } else {
        "owner"
    }
}

/// The theme after the toggle: dark and light take turns.
pub fn other_theme(theme: &str) -> (r: &'static str)
    ensures
        r@ == flipped(theme@, "dark"@, "light"@),
{
    if str_equal(theme, "dark") {
        "light"
    } else {
        "dark"
    }
}

/// Switching the sign-in mode twice, or the theme twice, comes back to where
/// it started.
pub proof fn switches_return(mode: Seq<char>, theme: Seq<char>)
    requires
        mode == "owner"@ || mode == "operator"@,
        theme == "dark"@ || theme == "light"@,
    ensures
        flipped(flipped(mode, "owner"@, "operator"@), "owner"@, "operator"@) == mode,
        flipped(flipped(theme, "dark"@, "light"@), "dark"@, "light"@) == theme,
{
    reveal_strlit("owner");
    reveal_strlit("operator");
    reveal_strlit("dark");
    reveal_strlit("light");
}

// ---- Form checks ------------------------------------------------------------

/// The problem an invite form has before it is sent, if any: name and email
/// are required and the password needs six bytes or more.
pub fn invite_problem(name: &str, email: &str, password: &str) -> (r: Option<String>)
    ensures
        (blank(name@) || blank(email@) || encode_utf8(password@).len() < 6) ==> (r matches Some(
            m,
        ) && m@ == "Name, email, and a 6+ character password are required"@),
        !(blank(name@) || blank(email@) || encode_utf8(password@).len() < 6) ==> r is None,
{
    if is_blank(name) || is_blank(email) || password.as_bytes().len() < 6 {
        Some(owned("Name, email, and a 6+ character password are required"))
    } else {
        None
    }
}

/// The problem a new passcode has before it is sent, if any: it needs six
/// bytes or more (as typed, before trimming).
pub fn passcode_problem(next: &str) -> (r: Option<String>)
    ensures
        encode_utf8(next@).len() < 6 ==> (r matches Some(m) && m@
            == "New passcode must be at least 6 characters"@),
        encode_utf8(next@).len() >= 6 ==> r is None,
{
    if next.as_bytes().len() < 6 {
        Some(owned("New passcode must be at least 6 characters"))
    } else {
        None
    }
}

/// The problem a new config profile has before it is sent, if any: the name
/// is required. (Its values are checked as JSON by the caller.)
pub fn profile_problem(name: &str) -> (r: Option<String>)
    ensures
        blank(name@) ==> (r matches Some(m) && m@ == "Name is required"@),
        !blank(name@) ==> r is None,
{
    if is_blank(name) {
        Some(owned("Name is required"))
    } else {
        None
    }
}

/// The text of the error that `serde_json::from_str::<serde_json::Value>`
/// reports for `text`, or `None` when `text` is JSON.
pub uninterp spec fn json_error(text: Seq<char>) -> Option<Seq<char>>;

/// Calls `serde_json::from_str::<serde_json::Value>` and keeps only the
/// error's text. Trusted: the outcome is the named one.
#[verifier::external_body]
fn json_check(text: &str) -> (r: Option<String>)
    ensures
        match r {
            Some(e) => json_error(text@) == Some(e@),
            None => json_error(text@) is None,
        },
{
    serde_json::from_str::<serde_json::Value>(text).err().map(|e| e.to_string())
}

/// The problem a new profile's values have before they are sent, if any
/// (checked once the name is there): they must be JSON, and the message
/// quotes the parser's report.
pub fn profile_values_problem(values: &str) -> (r: Option<String>)
    ensures
        match json_error(values@) {
            Some(e) => r matches Some(m) && m@ == "Invalid JSON: "@ + e,
            None => r is None,
        },
{
    match json_check(values) {
        Some(e) => Some(concat("Invalid JSON: ", e.as_str())),
        None => None,
    }
}

/// The problem applying a profile has before it is sent, if any: a target
/// device must be picked.
pub fn apply_problem(target: &str) -> (r: Option<String>)
    ensures
        target@.len() == 0 ==> (r matches Some(m) && m@ == "Pick an apply target first"@),
        target@.len() > 0 ==> r is None,
{
    if target.is_empty() {
        Some(owned("Pick an apply target first"))
    } else {
        None
    }
}

/// Whether the fleet form may be sent: the name must not be blank.
pub fn fleet_form_ready(name: &str) -> (r: bool)
    ensures
        r == !blank(name@),
{
    !is_blank(name)
}

/// Whether the firmware form may be sent: model and version must not be
/// blank.
pub fn firmware_form_ready(model: &str, version: &str) -> (r: bool)
    ensures
        r == !(blank(model@) || blank(version@)),
{
    !(is_blank(model) || is_blank(version))
}

/// Whether a command may be sent: a device must be picked.
pub fn command_target_picked(device: &str) -> (r: bool)
    ensures
        r == (device@.len() > 0),
{
    !device.is_empty()
}

// ---- Searches ---------------------------------------------------------------

/// A list search: an empty (lowercased) query shows everything; otherwise the
/// lowercased query must occur in the lowercased text.
pub open spec fn search_hit(query: Seq<char>, hay: Seq<char>) -> bool {
    lowercase(query).len() == 0 || is_infix(lowercase(query), lowercase(hay))
}

/// The text of an optional field, empty when absent.
pub open spec fn or_empty(s: Option<String>) -> Seq<char> {
    match s {
        Some(x) => x@,
        None => Seq::empty(),
    }
}

/// What a device search looks through: name, model, fleet and tags, each
/// followed by a space but the last.
pub open spec fn device_text(d: Device) -> Seq<char> {
    d.name@ + " "@ + d.model@ + " "@ + or_empty(d.fleet_name) + " "@ + d.tags@
}

/// What a log search looks through: the message, a space, the device's name.
pub open spec fn log_text(l: LogEntry) -> Seq<char> {
    l.msg@ + " "@ + or_empty(l.device_name)
}

fn search(query: &str, hay: &str) -> (r: bool)
    ensures
        r == search_hit(query@, hay@),
{
    let needle = to_lowercase(query);
    if needle.as_str().is_empty() {
        return true;
    }
    let lowered = to_lowercase(hay);
    contains_text(lowered.as_str(), needle.as_str())
}

/// Whether the device list shows `d` for the search `query`.
pub fn device_matches(query: &str, d: &Device) -> (r: bool)
    ensures
        r == search_hit(query@, device_text(*d)),
{
    let mut hay = concat(d.name.as_str(), " ");
    hay.append(d.model.as_str());
    hay.append(" ");
    match &d.fleet_name {
        Some(f) => hay.append(f.as_str()),
        None => {},
    }
    hay.append(" ");
    hay.append(d.tags.as_str());
    search(query, hay.as_str())
}

/// Whether the log stream shows `l` for the search `query` and the level
/// filter `level`: the level must be the one picked (`all` picks every level)
/// and the search must hit.
pub fn log_matches(query: &str, level: &str, l: &LogEntry) -> (r: bool)
    ensures
        r == ((level@ == "all"@ || l.level@ == level@) && search_hit(query@, log_text(*l))),
{
    if !(str_equal(level, "all") || str_equal(l.level.as_str(), level)) {
        return false;
    }
    let mut hay = concat(l.msg.as_str(), " ");
    match &l.device_name {
        Some(n) => hay.append(n.as_str()),
        None => {},
    }
    search(query, hay.as_str())
}

// ---- Fleet availability -----------------------------------------------------

/// A device as the availability chart counts it: its fleet's name, if it has
/// a fleet, and whether it is online now.
#[derive(Debug)]
pub struct Presence {
    pub fleet_name: Option<String>,
    pub online: bool,
}

/// One bar of the availability chart.
#[derive(Debug)]
pub struct FleetBar {
    pub name: String,
    pub online: u32,
    pub total: u32,
}

/// The bar a device counts towards: its fleet's name, or `Unassigned`.
pub open spec fn group_of(p: Presence) -> Seq<char> {
    match p.fleet_name {
        Some(n) => n@,
        None => "Unassigned"@,
    }
}

/// How many of `ps` count towards the bar `g`.
pub open spec fn members(ps: Seq<Presence>, g: Seq<char>) -> nat
    decreases ps.len(),
{
    if ps.len() == 0 {
        0
    } else {
        members(ps.drop_last(), g) + if group_of(ps.last()) == g {
            1nat
        } else {
            0nat
        }
    }
}

/// How many of `ps` count towards the bar `g` and are online.
pub open spec fn online_members(ps: Seq<Presence>, g: Seq<char>) -> nat
    decreases ps.len(),
{
    if ps.len() == 0 {
        0
    } else {
        online_members(ps.drop_last(), g) + if group_of(ps.last()) == g && ps.last().online {
            1nat
        } else {
            0nat
        }
    }
}

/// The bar names, in order.
pub open spec fn bar_names(bars: Seq<FleetBar>) -> Seq<Seq<char>> {
    bars.map_values(|b: FleetBar| b.name@)
}

/// Each name sorts strictly before the next (so no name occurs twice).
pub open spec fn ascending(names: Seq<Seq<char>>) -> bool {
    forall|i: int, j: int| 0 <= i < j < names.len() ==> text_less(names[i], names[j])
}

proof fn lemma_members_bound(ps: Seq<Presence>, g: Seq<char>)
    ensures
        online_members(ps, g) <= members(ps, g) <= ps.len(),
    decreases ps.len(),
{
    if ps.len() > 0 {
        lemma_members_bound(ps.drop_last(), g);
    }
}

proof fn lemma_insert_ascending(names: Seq<Seq<char>>, pos: int, g: Seq<char>)
    requires
        ascending(names),
        0 <= pos <= names.len(),
        forall|j: int| 0 <= j < pos ==> text_less(#[trigger] names[j], g),
        forall|j: int| pos <= j < names.len() ==> text_less(g, #[trigger] names[j]),
    ensures
        ascending(names.insert(pos, g)),
{
    let out = names.insert(pos, g);
    assert forall|i: int, j: int| 0 <= i < j < out.len() implies text_less(out[i], out[j]) by {
        if j < pos {
            assert(out[i] == names[i] && out[j] == names[j]);
        } else if j == pos {
            assert(out[i] == names[i]);
        } else if i < pos {
            assert(out[i] == names[i] && out[j] == names[j - 1]);
            lemma_text_less_transitive(names[i], g, names[j - 1]);
        } else if i == pos {
            assert(out[j] == names[j - 1]);
        } else {
            assert(out[i] == names[i - 1] && out[j] == names[j - 1]);
        }
    }
}

/// Where the bar `g` stands or belongs among ascending bars: after every bar
/// that sorts before it, at the first that does not.
fn bar_position(bars: &Vec<FleetBar>, g: &[char]) -> (r: usize)
    ensures
        r <= bars@.len(),
        forall|j: int| 0 <= j < r ==> text_less(#[trigger] bars@[j].name@, g@),
        r < bars@.len() ==> !text_less(bars@[r as int].name@, g@),
{
    let n = bars.len();
    let mut i: usize = 0;
    while i < n
        invariant
            n == bars@.len(),
            i <= n,
            forall|j: int| 0 <= j < i ==> text_less(#[trigger] bars@[j].name@, g@),
        decreases n - i,
    {
        let bc = chars_of(bars[i].name.as_str());
        if !text_before(bc.as_slice(), g) {
            return i;
        }
        i = i + 1;
    }
    i
}

/// The availability chart: one bar per fleet name (devices without a fleet
/// under `Unassigned`), in ascending name order as a `BTreeMap` keeps them,
/// each with the number of its devices and of those online.
pub fn fleet_availability(ps: &[Presence]) -> (r: Vec<FleetBar>)
    requires
        ps@.len() <= u32::MAX,
    ensures
        ascending(bar_names(r@)),
        forall|i: int|
            0 <= i < r@.len() ==> {
                &&& (#[trigger] r@[i]).total == members(ps@, r@[i].name@)
                &&& r@[i].online == online_members(ps@, r@[i].name@)
                &&& r@[i].total >= 1
            },
        forall|k: int|
            0 <= k < ps@.len() ==> exists|i: int|
                0 <= i < r@.len() && #[trigger] r@[i].name@ == group_of(#[trigger] ps@[k]),
{
    let mut bars: Vec<FleetBar> = Vec::new();
    let n = ps.len();
    let mut k: usize = 0;
    assert(bar_names(bars@) =~= Seq::<Seq<char>>::empty());
    while k < n
        invariant
            n == ps@.len(),
            k <= n,
            n <= u32::MAX,
            ascending(bar_names(bars@)),
            forall|i: int|
                0 <= i < bars@.len() ==> {
                    &&& (#[trigger] bars@[i]).total == members(ps@.take(k as int), bars@[i].name@)
                    &&& bars@[i].online == online_members(ps@.take(k as int), bars@[i].name@)
                    &&& bars@[i].total >= 1
                },
            forall|g: Seq<char>|
                #[trigger] members(ps@.take(k as int), g) > 0 ==> exists|i: int|
                    0 <= i < bars@.len() && #[trigger] bars@[i].name@ == g,
        decreases n - k,
    {
        let p = &ps[k];
        let g: String = match &p.fleet_name {
            Some(f) => f.clone(),
            None => owned("Unassigned"),
        };
        let ghost pre = ps@.take(k as int);
        let ghost post = ps@.take(k + 1);
        let ghost old_bars = bars@;
        proof {
            assert(post.drop_last() == pre);
            assert(post.last() == ps@[k as int]);
            assert(group_of(ps@[k as int]) == g@);
            assert forall|h: Seq<char>|
                #![trigger members(post, h)]
                #![trigger online_members(post, h)]
                members(post, h) == members(pre, h) + (if g@ == h {
                    1nat
                } else {
                    0nat
                }) && online_members(post, h) == online_members(pre, h) + (if g@ == h
                    && p.online {
                    1nat
                } else {
                    0nat
                }) by {}
            lemma_members_bound(pre, g@);
        }
        let gc = chars_of(g.as_str());
        let pos = bar_position(&bars, gc.as_slice());
        let same = pos < bars.len() && str_equal(bars[pos].name.as_str(), g.as_str());
        proof {
            assert forall|i: int, j: int|
                0 <= i < old_bars.len() && 0 <= j < old_bars.len() && i != j implies old_bars[i].name@
                != old_bars[j].name@ by {
                let ns = bar_names(old_bars);
                assert(ns[i] == old_bars[i].name@ && ns[j] == old_bars[j].name@);
                lemma_text_less_irreflexive(old_bars[i].name@);
                if i < j {
                    assert(text_less(ns[i], ns[j]));
                } else {
                    assert(text_less(ns[j], ns[i]));
                }
            }
        }
        if same {
            let b = bars.remove(pos);
            let online = if p.online {
                b.online + 1
            } else {
                b.online
            };
            let nb = FleetBar { name: b.name, online, total: b.total + 1 };
            bars.insert(pos, nb);
            proof {
                assert(bars@ =~= old_bars.update(pos as int, nb));
                assert(bar_names(bars@) =~= bar_names(old_bars));
                assert forall|g2: Seq<char>| #[trigger] members(post, g2) > 0 implies exists|i: int|
                    0 <= i < bars@.len() && #[trigger] bars@[i].name@ == g2 by {
                    if g2 == g@ {
                        assert(bars@[pos as int].name@ == g2);
                    } else {
                        assert(members(pre, g2) > 0);
                        let i = choose|i: int| 0 <= i < old_bars.len() && #[trigger] old_bars[i].name@
                            == g2;
                        assert(bars@[i].name@ == g2);
                    }
                }
            }
        } else {
            let online: u32 = if p.online {
                1
            } else {
                0
            };
            let ghost gname = g@;
            let nb = FleetBar { name: g, online, total: 1 };
            bars.insert(pos, nb);
            proof {
                let ns = bar_names(old_bars);
                assert forall|j: int| pos <= j < ns.len() implies text_less(gname, #[trigger] ns[j]) by {
                    assert(ns[pos as int] == old_bars[pos as int].name@);
                    lemma_text_less_total(gname, ns[pos as int]);
                    if j > pos {
                        lemma_text_less_transitive(gname, ns[pos as int], ns[j]);
                    }
                }
                assert forall|j: int| 0 <= j < pos implies text_less(#[trigger] ns[j], gname) by {
                    assert(ns[j] == old_bars[j].name@);
                }
                lemma_insert_ascending(ns, pos as int, gname);
                assert(bar_names(bars@) =~= ns.insert(pos as int, gname));
                assert forall|j: int| 0 <= j < old_bars.len() implies old_bars[j].name@ != gname by {
                    assert(ns[j] == old_bars[j].name@);
                    lemma_text_less_irreflexive(gname);
                    if j < pos {
                        assert(text_less(ns[j], gname));
                    } else {
                        assert(text_less(gname, ns[j]));
                    }
                }
                if members(pre, gname) > 0 {
                    let i = choose|i: int| 0 <= i < old_bars.len() && #[trigger] old_bars[i].name@
                        == gname;
                    assert(old_bars[i].name@ == gname);
                }
                assert forall|i: int| 0 <= i < bars@.len() implies {
                    &&& (#[trigger] bars@[i]).total == members(post, bars@[i].name@)
                    &&& bars@[i].online == online_members(post, bars@[i].name@)
                    &&& bars@[i].total >= 1
                } by {
                    if i < pos {
                        assert(bars@[i] == old_bars[i]);
                    } else if i > pos {
                        assert(bars@[i] == old_bars[i - 1]);
                    }
                }
                assert forall|g2: Seq<char>| #[trigger] members(post, g2) > 0 implies exists|i: int|
                    0 <= i < bars@.len() && #[trigger] bars@[i].name@ == g2 by {
                    if g2 == gname {
                        assert(bars@[pos as int].name@ == g2);
                    } else {
                        assert(members(pre, g2) > 0);
                        let i = choose|i: int| 0 <= i < old_bars.len() && #[trigger] old_bars[i].name@
                            == g2;
                        if i < pos {
                            assert(bars@[i] == old_bars[i]);
                        } else {
                            assert(bars@[i + 1] == old_bars[i]);
                        }
                    }
                }
            }
        }
        k = k + 1;
    }
    assert(ps@.take(n as int) == ps@);
    assert forall|k: int| 0 <= k < ps@.len() implies exists|i: int|
        0 <= i < bars@.len() && #[trigger] bars@[i].name@ == group_of(#[trigger] ps@[k]) by {
        lemma_member_counted(ps@, k);
    }
    bars
}

proof fn lemma_member_counted(ps: Seq<Presence>, k: int)
    requires
        0 <= k < ps.len(),
    ensures
        members(ps, group_of(ps[k])) > 0,
    decreases ps.len(),
{
    if k < ps.len() - 1 {
        lemma_member_counted(ps.drop_last(), k);
        assert(ps.drop_last()[k] == ps[k]);
    }
}

/// A bar's share of devices online, in whole percent (0 for an empty bar).
pub fn availability_pct(online: u32, total: u32) -> (r: u32)
    requires
        online * 100 <= u32::MAX,
    ensures
        r == if total > 0 {
            online * 100 / (total as int)
        } else {
            0
        },
        online <= total ==> r <= 100,
{
    if total > 0 {
        let r = online * 100 / total;
        assert(online <= total ==> r <= 100) by (nonlinear_arith)
            requires
                r == online * 100 / (total as int),
                total > 0,
        ;
        r
    } else {
        0
    }
}

// ---- Device page ------------------------------------------------------------

/// Each text sorts no later than the next.
pub open spec fn nondescending(names: Seq<String>) -> bool {
    forall|i: int, j: int| 0 <= i < j < names.len() ==> !text_less(names[j]@, names[i]@)
}

/// The live metric names in the order the device page lists them: ascending
/// code-point order, as sorting the `String` names does.
pub fn sorted_names(names: Vec<String>) -> (r: Vec<String>)
    ensures
        r@.to_multiset() == names@.to_multiset(),
        nondescending(r@),
{
    let mut out: Vec<String> = Vec::new();
    let n = names.len();
    let mut k: usize = 0;
    assert(out@ =~= names@.take(0));
    while k < n
        invariant
            n == names@.len(),
            k <= n,
            out@.to_multiset() == names@.take(k as int).to_multiset(),
            nondescending(out@),
        decreases n - k,
    {
        let x = names[k].clone();
        let xc = chars_of(x.as_str());
        let m = out.len();
        let mut p: usize = 0;
        while p < m
            invariant
                m == out@.len(),
                p <= m,
                xc@ == x@,
                forall|j: int| 0 <= j < p ==> text_less(#[trigger] out@[j]@, x@),
            ensures
                p <= m,
                forall|j: int| 0 <= j < p ==> text_less(#[trigger] out@[j]@, x@),
                p < m ==> !text_less(out@[p as int]@, x@),
            decreases m - p,
        {
            let oc = chars_of(out[p].as_str());
            if !text_before(oc.as_slice(), xc.as_slice()) {
                break;
            }
            p = p + 1;
        }
        let ghost before = out@;
        proof {
            assert forall|j: int| p <= j < before.len() implies !text_less(
                #[trigger] before[j]@,
                x@,
            ) by {
                if j > p && text_less(before[j]@, x@) {
                    assert(!text_less(before[j]@, before[p as int]@));
                    lemma_text_less_total(before[p as int]@, before[j]@);
                    if before[p as int]@ != before[j]@ {
                        lemma_text_less_transitive(before[p as int]@, before[j]@, x@);
                    }
                }
            }
        }
        let ghost item = x;
        out.insert(p, x);
        proof {
            assert(item == names@[k as int]);
            assert(out@ == before.insert(p as int, item));
            vstd::seq_lib::to_multiset_insert(before, p as int, item);
            assert(names@.take(k + 1) == names@.take(k as int).push(item));
            vstd::seq_lib::to_multiset_build(names@.take(k as int), item);
            assert forall|i: int, j: int| 0 <= i < j < out@.len() implies !text_less(
                out@[j]@,
                out@[i]@,
            ) by {
                if j < p {
                    assert(out@[i] == before[i] && out@[j] == before[j]);
                } else if j == p {
                    assert(out@[i] == before[i]);
                    lemma_text_less_total(before[i]@, item@);
                } else if i < p {
                    assert(out@[i] == before[i] && out@[j] == before[j - 1]);
                } else if i == p {
                    assert(out@[j] == before[j - 1]);
                } else {
                    assert(out@[i] == before[i - 1] && out@[j] == before[j - 1]);
                }
            }
        }
        k = k + 1;
    }
    assert(names@.take(n as int) == names@);
    out
}

// ---- Rollouts ---------------------------------------------------------------

/// The canary share picked in the rollout form: the picked option read as a
/// number, or 100 when it does not read as one.
pub fn canary_choice(picked: &str) -> (r: i64)
    ensures
        r == match i64_text(picked@) {
            Some(v) => v,
            None => 100,
        },
{
    match parse_i64(picked) {
        Some(v) => v,
        None => 100,
    }
}

/// A rollout the firmware page asks for.
#[derive(Debug)]
pub struct RolloutRequest {
    pub firmware_id: String,
    pub fleet_id: Option<String>,
    pub canary_pct: i64,
}

/// The rollout the firmware page starts from its pickers: none until a
/// firmware is picked; no fleet picked means every fleet.
pub fn rollout_request(firmware: String, fleet: String, canary_pct: i64) -> (r: Option<
    RolloutRequest,
>)
    ensures
        firmware@.len() == 0 ==> r is None,
        firmware@.len() > 0 ==> (r matches Some(q) && q.firmware_id == firmware && q.canary_pct
            == canary_pct && q.fleet_id == (if fleet@.len() == 0 {
            None
        } else {
            Some(fleet)
        })),
{
    if firmware.as_str().is_empty() {
        return None;
    }
    Some(RolloutRequest { firmware_id: firmware, fleet_id: non_empty(Some(fleet)), canary_pct })
}

/// Rust's `/` on signed integers: the quotient rounded toward zero.
pub open spec fn quotient(a: int, b: int) -> int {
    if a >= 0 {
        a / b
    } else {
        -((-a) / b)
    }
}

/// How far a rollout has come, in percent: the updated share of the total,
/// at most 100; 0 for a rollout with no devices.
pub open spec fn progress(updated: int, total: int) -> int {
    if total > 0 {
        let q = quotient(updated * 100, total);
        if q < 100 {
            q
        } else {
            100
        }
    } else {
        0
    }
}

/// The pill a rollout's status shows: `resolved` once completed, else `acked`.
pub open spec fn campaign_pill_of(status: Seq<char>) -> Seq<char> {
    if status == "completed"@ {
        "resolved"@
    } else {
        "acked"@
    }
}

/// How a rollout row reads.
#[derive(Debug)]
pub struct RolloutRow {
    /// The firmware, or `firmware` when its label is unknown.
    pub label: String,
    /// The fleet, or `all fleets`.
    pub scope: String,
    /// The status pill's colour class.
    pub pill: String,
    /// Progress in percent.
    pub percent: i64,
}

/// The row the firmware page shows for a rollout.
pub fn rollout_row(c: &OtaCampaign) -> (r: RolloutRow)
    requires
        i64::MIN <= c.updated * 100 <= i64::MAX,
    ensures
        r.label@ == match c.firmware_label {
            Some(l) => l@,
            None => "firmware"@,
        },
        r.scope@ == match c.fleet_name {
            Some(f) => f@,
            None => "all fleets"@,
        },
        r.pill@ == campaign_pill_of(c.status@),
        r.percent == progress(c.updated as int, c.total as int),
        c.total > 0 && 0 <= c.updated ==> 0 <= r.percent <= 100,
{
    let label = match &c.firmware_label {
        Some(l) => l.clone(),
        None => owned("firmware"),
    };
    let scope = match &c.fleet_name {
        Some(f) => f.clone(),
        None => owned("all fleets"),
    };
    let pill = if str_equal(c.status.as_str(), "completed") {
        owned("resolved")
    } else {
        owned("acked")
    };
    let percent = if c.total > 0 {
        let q = c.updated * 100 / c.total;
        if q < 100 {
            q
        } else {
            100
        }
    } else {
        0
    };
    RolloutRow { label, scope, pill, percent }
}

// ---- Status colours ---------------------------------------------------------

/// The pill a command's status shows: `resolved` when completed, `open` when
/// failed, `acked` while pending.
pub open spec fn command_pill_of(status: Seq<char>) -> Seq<char> {
    if status == "completed"@ {
        "resolved"@
    } else if status == "failed"@ {
        "open"@
    } else {
        "acked"@
    }
}

/// The pill class for a command's status.
pub fn command_pill(status: &str) -> (r: &'static str)
    ensures
        r@ == command_pill_of(status@),
{
    if str_equal(status, "completed") {
        "resolved"
    } else if str_equal(status, "failed") {
        "open"
    } else {
        "acked"
    }
}

/// The dot an alert's severity shows: `down` for critical, `warn` for a
/// warning, `idle` otherwise.
pub fn severity_dot(severity: &str) -> (r: &'static str)
    ensures
        r@ == (if severity@ == "critical"@ {
            "down"@
        } else if severity@ == "warning"@ {
            "warn"@
        } else {
            "idle"@
        }),
{
    if str_equal(severity, "critical") {
        "down"
    } else if str_equal(severity, "warning") {
        "warn"
    } else {
        "idle"
    }
}

/// Which triage buttons an alert row shows.
#[derive(Debug)]
pub struct AlertActions {
    pub resolve: bool,
    pub ack: bool,
}

/// The triage buttons an alert in `state` shows to `role`: none to a viewer
/// or on a resolved alert; resolve otherwise, and ack too while it is open.
pub fn alert_actions(role: &str, state: &str) -> (r: AlertActions)
    ensures
        r.resolve == (role@ != "viewer"@ && state@ != "resolved"@),
        r.ack == (r.resolve && state@ == "open"@),
{
    let resolve = can_write(role) && !str_equal(state, "resolved");
    let ack = resolve && str_equal(state, "open");
    AlertActions { resolve, ack }
}

/// The lamp a device shows on the patch bay and the map: `down` when offline;
/// `alarm` when running hot or low on battery (the caller reads those off the
/// live metrics); `warn` when quarantined; `up` otherwise.
pub fn lamp_tone(online: bool, hot: bool, low_battery: bool, status: &str) -> (r: &'static str)
    ensures
        r@ == (if !online {
            "down"@
        } else if hot || low_battery {
            "alarm"@
        } else if status@ == "quarantined"@ {
            "warn"@
        } else {
            "up"@
        }),
{
    if !online {
        "down"
    } else if hot || low_battery {
        "alarm"
    } else if str_equal(status, "quarantined") {
        "warn"
    } else {
        "up"
    }
}

} // verus!
