//! Building the catalog: one entry per domain, tab, command and key binding,
//! in the launcher's display order.
use vstd::prelude::*;
use crate::action::Action;
use crate::entry::{DomainState, LauncherEntry, LauncherEntryType, LauncherDomainEntry, LauncherTabEntry, LauncherCommandEntry, LauncherKeyEntry};
use crate::sort::{SortKey, stable_sort, in_order};
use crate::text::{chars_of, string_of, push_all, push_decimal, decimal, lex_lt};

verus! {

/// Which sources the launcher shows, and whether it starts in filter mode.
#[derive(Clone, Copy, Debug, PartialEq, Eq, Structural)]
pub struct LauncherFlags {
    pub launch_menu_items: bool,
    pub domains: bool,
    pub key_assignments: bool,
    pub workspaces: bool,
    pub commands: bool,
    pub tabs: bool,
    pub fuzzy: bool,
}

/// A domain, as the live state reports it.
pub struct DomainInfo {
    pub domain_id: usize,
    pub name: String,
    /// The domain's human label; may be empty.
    pub label: String,
    pub state: DomainState,
    pub spawnable: bool,
}

/// A tab of the invoking window, as the live state reports it.
pub struct TabInfo {
    pub title: String,
    pub tab_id: usize,
    pub pane_count: usize,
}

/// An entry of the command palette.
pub struct CommandInfo {
    pub brief: String,
    pub doc: String,
    pub keys: String,
    pub action: Action,
}

/// A resolved key binding. `code` and `mods` are the key and modifiers as
/// recorded in the entry; `code_text`, `mods_text` and `action_text` are how
/// the label shows the key, the modifiers and the bound action.
pub struct KeyBinding {
    pub code: String,
    pub mods: String,
    pub action: Action,
    pub code_text: String,
    pub mods_text: String,
    pub action_text: String,
}

/// The label of a domain entry.
pub open spec fn domain_label(name: Seq<char>, detail: Seq<char>) -> Seq<char> {
    if name == detail || detail.len() == 0 {
        "domain `"@ + name + "`"@
    } else {
        "domain `"@ + name + "` - "@ + detail
    }
}

/// The action of a domain entry: a new tab in an attached domain, else attach it.
pub open spec fn domain_action(d: DomainInfo) -> crate::action::ActionView {
    if d.state == DomainState::Attached {
        crate::action::ActionView::SpawnCommandInNewTab(d.name@)
    } else {
        crate::action::ActionView::AttachDomain(d.name@)
    }
}

/// `e` is the entry of domain `d`.
pub open spec fn is_domain_entry(e: LauncherEntry, d: DomainInfo) -> bool {
    &&& e.label@ == domain_label(d.name@, d.label@)
    &&& e.action@ == domain_action(d)
    &&& e.launch_type matches LauncherEntryType::Domain(r)
        && r.domain_id == d.domain_id && r.name@ == d.name@ && r.state == d.state && r.label@.len() == 0
}

/// The label of a tab entry.
pub open spec fn tab_label(t: TabInfo) -> Seq<char> {
    t.title@ + ". "@ + decimal(t.pane_count as nat) + " panes"@
}

/// `e` is the entry of tab `t` at position `idx` of its window.
pub open spec fn is_tab_entry(e: LauncherEntry, t: TabInfo, idx: int) -> bool {
    &&& e.label@ == tab_label(t)
    &&& e.action@ == crate::action::ActionView::ActivateTab(idx)
    &&& e.launch_type matches LauncherEntryType::Tab(r)
        && r.title@ == t.title@ && r.tab_id == t.tab_id && r.tab_idx == idx && r.pane_count == t.pane_count
}

/// The label of a command entry.
pub open spec fn command_label(c: CommandInfo) -> Seq<char> {
    c.brief@ + ". "@ + c.doc@
}

/// `e` is the entry of command `c`.
pub open spec fn is_command_entry(e: LauncherEntry, c: CommandInfo) -> bool {
    &&& e.label@ == command_label(c)
    &&& e.action@ == c.action@
    &&& e.launch_type matches LauncherEntryType::Command(r)
        && r.brief@ == c.brief@ && r.doc@ == c.doc@ && r.keys@ == c.keys@ && r.action@ == c.action@
}

/// The label of a key-binding entry.
pub open spec fn key_label(k: KeyBinding) -> Seq<char> {
    k.action_text@ + " ("@ + k.mods_text@ + " "@ + k.code_text@ + ")"@
}

/// `e` is the entry of key binding `k`.
pub open spec fn is_key_entry(e: LauncherEntry, k: KeyBinding) -> bool {
    &&& e.label@ == key_label(k)
    &&& e.action@ == k.action@
    &&& e.launch_type matches LauncherEntryType::KeyAssignment(r)
        && r.code@ == k.code@ && r.mods@ == k.mods@ && r.assignment@ == k.action@
}

impl DomainInfo {
    /// The label of this domain's entry.
    pub fn get_label(&self) -> (r: String)
        ensures
            r@ == domain_label(self.name@, self.label@),
    {
        let mut v = chars_of("domain `");
        push_all(&mut v, &chars_of(self.name.as_str()));
        if self.name == self.label || self.label.as_str().is_empty() {
            push_all(&mut v, &chars_of("`"));
        } else {
            push_all(&mut v, &chars_of("` - "));
            push_all(&mut v, &chars_of(self.label.as_str()));
        }
        string_of(&v)
    }

    /// The action of this domain's entry.
    pub fn get_action(&self) -> (r: Action)
        ensures
            r@ == domain_action(*self),
    {
        if self.state == DomainState::Attached {
            Action::SpawnCommandInNewTab { domain_name: self.name.clone() }
        } else {
            Action::AttachDomain(self.name.clone())
        }
    }

    /// This domain's entry.
    pub fn get_entry(&self) -> (r: LauncherEntry)
        ensures
            is_domain_entry(r, *self),
    {
        let label = self.get_label();
        let action = self.get_action();
        LauncherEntry::new(
            label,
            action,
            LauncherEntryType::Domain(LauncherDomainEntry {
                domain_id: self.domain_id,
                name: self.name.clone(),
                state: self.state,
                label: String::new(),
            }),
        )
    }
}

impl TabInfo {
    /// The label of this tab's entry.
    pub fn get_label(&self) -> (r: String)
        ensures
            r@ == tab_label(*self),
    {
        let mut v = chars_of(self.title.as_str());
        push_all(&mut v, &chars_of(". "));
        push_decimal(&mut v, self.pane_count);
        push_all(&mut v, &chars_of(" panes"));
        string_of(&v)
    }

    /// The action of the entry of this tab at position `idx`.
    pub fn get_action(&self, idx: usize) -> (r: Action)
        requires
            idx <= isize::MAX,
        ensures
            r@ == crate::action::ActionView::ActivateTab(idx as int),
    {
        Action::ActivateTab(idx as isize)
    }

    /// The entry of this tab at position `idx` of its window.
    pub fn get_entry(&self, idx: usize) -> (r: LauncherEntry)
        requires
            idx <= isize::MAX,
        ensures
            is_tab_entry(r, *self, idx as int),
    {
        let label = self.get_label();
        let action = self.get_action(idx);
        LauncherEntry::new(
            label,
            action,
            LauncherEntryType::Tab(LauncherTabEntry {
                title: self.title.clone(),
                tab_id: self.tab_id,
                tab_idx: idx,
                pane_count: self.pane_count,
            }),
        )
    }
}

impl CommandInfo {
    /// The label of this command's entry.
    pub fn get_label(&self) -> (r: String)
        ensures
            r@ == command_label(*self),
    {
        let mut v = chars_of(self.brief.as_str());
        push_all(&mut v, &chars_of(". "));
        push_all(&mut v, &chars_of(self.doc.as_str()));
        string_of(&v)
    }

    /// The action of this command's entry.
    pub fn get_action(&self) -> (r: Action)
        ensures
            r@ == self.action@,
    {
        self.action.cloned()
    }

    /// This command's entry.
    pub fn get_entry(&self) -> (r: LauncherEntry)
        ensures
            is_command_entry(r, *self),
    {
        let label = self.get_label();
        let action = self.get_action();
        LauncherEntry::new(
            label,
            action,
            LauncherEntryType::Command(LauncherCommandEntry {
                brief: self.brief.clone(),
                doc: self.doc.clone(),
                keys: self.keys.clone(),
                action: self.action.cloned(),
            }),
        )
    }
}

impl KeyBinding {
    /// The label of this binding's entry.
    pub fn get_label(&self) -> (r: String)
        ensures
            r@ == key_label(*self),
    {
        let mut v = chars_of(self.action_text.as_str());
        push_all(&mut v, &chars_of(" ("));
        push_all(&mut v, &chars_of(self.mods_text.as_str()));
        push_all(&mut v, &chars_of(" "));
        push_all(&mut v, &chars_of(self.code_text.as_str()));
        push_all(&mut v, &chars_of(")"));
        string_of(&v)
    }

    /// The action of this binding's entry.
    pub fn get_action(&self) -> (r: Action)
        ensures
            r@ == self.action@,
    {
        self.action.cloned()
    }

    /// This binding's entry.
    pub fn get_entry(&self) -> (r: LauncherEntry)
        ensures
            is_key_entry(r, *self),
    {
        let label = self.get_label();
        let action = self.get_action();
        LauncherEntry::new(
            label,
            action,
            LauncherEntryType::KeyAssignment(LauncherKeyEntry {
                code: self.code.clone(),
                mods: self.mods.clone(),
                assignment: self.action.cloned(),
            }),
        )
    }
}

/// Domain `i` of `ds` is listed before domain `j`: attached domains first,
/// then by identifier, then in the order given.
pub open spec fn domain_before(ds: Seq<DomainInfo>, i: int, j: int) -> bool {
    let a = ds[i];
    let b = ds[j];
    (a.state == DomainState::Attached && b.state != DomainState::Attached)
        || (a.state == b.state && (a.domain_id < b.domain_id || (a.domain_id == b.domain_id && i < j)))
}

/// `order` lists each spawnable domain of `ds` once, nothing else, in display order.
pub open spec fn is_domain_order(ds: Seq<DomainInfo>, order: Seq<usize>) -> bool {
    &&& order.no_duplicates()
    &&& forall|k: int| 0 <= k < order.len() ==> (#[trigger] order[k]) < ds.len() && ds[order[k] as int].spawnable
    &&& forall|i: int| 0 <= i < ds.len() && ds[i].spawnable ==> order.contains(i as usize)
    &&& forall|k: int| 0 <= k < order.len() - 1 ==> domain_before(ds, #[trigger] order[k] as int, order[k + 1] as int)
}

const DETACHED_RANK: i128 = 0x1_0000_0000_0000_0000;

/// The spawnable domains of `ds`, as positions, in display order.
pub fn domain_order(ds: &Vec<DomainInfo>) -> (r: Vec<usize>)
    ensures
        is_domain_order(ds@, r@),
{
    let mut items: Vec<usize> = Vec::new();
    let mut keys: Vec<SortKey> = Vec::new();
    let mut i: usize = 0;
    while i < ds.len()
        invariant
            i <= ds@.len(),
            keys@.len() == i,
            forall|j: int| 0 <= j < i ==> (#[trigger] keys@[j]).text@.len() == 0
                && keys@[j].rank == (if ds@[j].state == DomainState::Attached { 0 } else { DETACHED_RANK }) + ds@[j].domain_id,
            forall|p: int| 0 <= p < items@.len() ==> (#[trigger] items@[p]) < i && ds@[items@[p] as int].spawnable,
            forall|p: int, q: int| 0 <= p < q < items@.len() ==> items@[p] < items@[q],
            forall|j: int| 0 <= j < i && ds@[j].spawnable ==> items@.contains(j as usize),
        decreases ds@.len() - i,
    {
        let ghost prev = items@;
        let d = &ds[i];
        let base: i128 = if d.state == DomainState::Attached { 0 } else { DETACHED_RANK };
        keys.push(SortKey { rank: base + d.domain_id as i128, text: Vec::new() });
        if d.spawnable {
            items.push(i);
        }
        i = i + 1;
        proof {
            assert forall|j: int| 0 <= j < i && ds@[j].spawnable implies items@.contains(j as usize) by {
                if j == i - 1 {
                    assert(items@[items@.len() - 1] == j as usize);
                } else {
                    assert(prev.contains(j as usize));
                    let p = choose|p: int| 0 <= p < prev.len() && prev[p] == j as usize;
                    assert(items@[p] == j as usize);
                }
            }
        }
    }
    let r = stable_sort(&items, &keys);
    proof {
        assert forall|k: int| 0 <= k < r@.len() implies (#[trigger] r@[k]) < ds@.len() && ds@[r@[k] as int].spawnable by {
            assert(items@.contains(r@[k]));
        }
        assert forall|t: int| 0 <= t < r@.len() - 1 implies domain_before(ds@, #[trigger] r@[t] as int, r@[t + 1] as int) by {
            let a = r@[t] as int;
            let b = r@[t + 1] as int;
            assert(in_order(keys@, a, b));
            assert(items@.contains(r@[t]) && items@.contains(r@[t + 1]));
            assert(keys@[a].text@.len() == 0 && keys@[b].text@.len() == 0);
            assert(!lex_lt(keys@[a].text@, keys@[b].text@));
        }
        assert forall|j: int| 0 <= j < ds@.len() && ds@[j].spawnable implies r@.contains(j as usize) by {
            assert(items@.contains(j as usize));
            let p = choose|p: int| 0 <= p < items@.len() && items@[p] == j as usize;
            assert(r@.contains(items@[p]));
        }
    }
    r
}

/// No binding before position `i` has the action of binding `i`.
pub open spec fn first_of_action(keys: Seq<KeyBinding>, i: int) -> bool {
    forall|j: int| 0 <= j < i ==> (#[trigger] keys[j]).action@ != keys[i].action@
}

/// Binding `i` gets an entry: its action activates no tab and no earlier
/// binding has the same action.
pub open spec fn keeps_binding(keys: Seq<KeyBinding>, i: int) -> bool {
    !keys[i].action.spec_is_tab_activation() && first_of_action(keys, i)
}

/// The positions of the bindings among the first `n` that get an entry, in order.
pub open spec fn kept_bindings(keys: Seq<KeyBinding>, n: int) -> Seq<usize>
    decreases n,
{
    if n <= 0 {
        Seq::empty()
    } else if keeps_binding(keys, n - 1) {
        kept_bindings(keys, n - 1).push((n - 1) as usize)
    } else {
        kept_bindings(keys, n - 1)
    }
}

proof fn lemma_kept_bindings_below(keys: Seq<KeyBinding>, n: int)
    requires
        0 <= n <= usize::MAX,
    ensures
        forall|t: int| 0 <= t < kept_bindings(keys, n).len() ==> (#[trigger] kept_bindings(keys, n)[t]) < n,
        forall|p: int, q: int| 0 <= p < q < kept_bindings(keys, n).len() ==> kept_bindings(keys, n)[p] < kept_bindings(keys, n)[q],
    decreases n,
{
    if n > 0 {
        lemma_kept_bindings_below(keys, n - 1);
        let prev = kept_bindings(keys, n - 1);
        let cur = kept_bindings(keys, n);
        if keeps_binding(keys, n - 1) {
            assert(cur == prev.push((n - 1) as usize));
            assert forall|t: int| 0 <= t < cur.len() implies (#[trigger] cur[t]) < n by {
                if t < prev.len() {
                    assert(cur[t] == prev[t]);
                }
            }
            assert forall|p: int, q: int| 0 <= p < q < cur.len() implies cur[p] < cur[q] by {
                assert(cur[p] == prev[p]);
                assert(prev[p] < n - 1);
                if q < prev.len() {
                    assert(cur[q] == prev[q]);
                }
            }
        }
    }
}

/// The bindings that get an entry, as positions in `keys`: those whose action
/// activates no tab, the first of each action only.
pub fn dedup_bindings(keys: &Vec<KeyBinding>) -> (r: Vec<usize>)
    ensures
        r@ == kept_bindings(keys@, keys@.len() as int),
{
    let mut kept: Vec<usize> = Vec::new();
    let mut i: usize = 0;
    while i < keys.len()
        invariant
            i <= keys@.len(),
            kept@ == kept_bindings(keys@, i as int),
            forall|j: int| 0 <= j < i && !keys@[j].action.spec_is_tab_activation() ==> exists|t: int|
                0 <= t < kept@.len() && #[trigger] keys@[kept@[t] as int].action@ == (#[trigger] keys@[j]).action@,
        decreases keys@.len() - i,
    {
        proof {
            lemma_kept_bindings_below(keys@, i as int);
        }
        if !keys[i].action.is_tab_activation() {
            let found = action_seen(keys, &kept, i);
            proof {
                lemma_seen_iff_not_first(keys@, kept@, i as int, found);
            }
            let ghost prev = kept@;
            if !found {
                kept.push(i);
            }
            proof {
                assert forall|j: int| 0 <= j < i + 1 && !keys@[j].action.spec_is_tab_activation() implies exists|t: int|
                    0 <= t < kept@.len() && #[trigger] keys@[kept@[t] as int].action@ == (#[trigger] keys@[j]).action@ by {
                    if j == i {
                        if found {
                            let u = choose|u: int| 0 <= u < prev.len() && keys@[prev[u] as int].action@ == keys@[i as int].action@;
                            assert(kept@[u] == prev[u]);
                            assert(keys@[kept@[u] as int].action@ == keys@[j].action@);
                        } else {
                            assert(kept@[kept@.len() - 1] == i);
                            assert(keys@[kept@[kept@.len() - 1] as int].action@ == keys@[j].action@);
                        }
                    } else {
                        let t2 = choose|t2: int| 0 <= t2 < prev.len() && #[trigger] keys@[prev[t2] as int].action@ == keys@[j].action@;
                        assert(kept@[t2] == prev[t2]);
                        assert(keys@[kept@[t2] as int].action@ == keys@[j].action@);
                    }
                }
            }
        }
        i = i + 1;
    }
    kept
}

fn action_seen(keys: &Vec<KeyBinding>, kept: &Vec<usize>, i: usize) -> (r: bool)
    requires
        i < keys@.len(),
        forall|u: int| 0 <= u < kept@.len() ==> (#[trigger] kept@[u]) < i,
    ensures
        r == exists|u: int| 0 <= u < kept@.len() && keys@[kept@[u] as int].action@ == keys@[i as int].action@,
{
    let mut t: usize = 0;
    while t < kept.len()
        invariant
            t <= kept@.len(),
            i < keys@.len(),
            forall|u: int| 0 <= u < kept@.len() ==> (#[trigger] kept@[u]) < i,
            forall|u: int| 0 <= u < t ==> keys@[(#[trigger] kept@[u]) as int].action@ != keys@[i as int].action@,
        decreases kept@.len() - t,
    {
        if keys[kept[t]].action == keys[i].action {
            return true;
        }
        t = t + 1;
    }
    false
}

proof fn lemma_seen_iff_not_first(keys: Seq<KeyBinding>, kept: Seq<usize>, i: int, found: bool)
    requires
        0 <= i < keys.len(),
        forall|u: int| 0 <= u < kept.len() ==> (#[trigger] kept[u]) < i,
        forall|j: int| 0 <= j < i && !keys[j].action.spec_is_tab_activation() ==> exists|t: int|
            0 <= t < kept.len() && #[trigger] keys[kept[t] as int].action@ == (#[trigger] keys[j]).action@,
        !keys[i].action.spec_is_tab_activation(),
        found == exists|u: int| 0 <= u < kept.len() && keys[kept[u] as int].action@ == keys[i].action@,
    ensures
        found == !first_of_action(keys, i),
{
    if found {
        let u = choose|u: int| 0 <= u < kept.len() && keys[kept[u] as int].action@ == keys[i].action@;
        assert(keys[kept[u] as int].action@ == keys[i].action@);
    } else {
        assert forall|j: int| 0 <= j < i implies (#[trigger] keys[j]).action@ != keys[i].action@ by {
            if keys[j].action@ == keys[i].action@ {
                let t2 = choose|t2: int| 0 <= t2 < kept.len() && #[trigger] keys[kept[t2] as int].action@ == keys[j].action@;
            }
        }
    }
}

/// Binding `i` is listed before binding `j`: by label, then in the order given.
pub open spec fn label_before(keys: Seq<KeyBinding>, i: int, j: int) -> bool {
    lex_lt(key_label(keys[i]), key_label(keys[j]))
        || (key_label(keys[i]) == key_label(keys[j]) && i < j)
}

/// `order` lists each binding that gets an entry once, nothing else, sorted by label.
pub open spec fn is_shortcut_order(keys: Seq<KeyBinding>, order: Seq<usize>) -> bool {
    let kept = kept_bindings(keys, keys.len() as int);
    &&& order.len() == kept.len()
    &&& order.no_duplicates()
    &&& forall|k: int| 0 <= k < order.len() ==> kept.contains(#[trigger] order[k])
    &&& forall|p: int| 0 <= p < kept.len() ==> order.contains(#[trigger] kept[p])
    &&& forall|k: int| 0 <= k < order.len() - 1 ==> label_before(keys, #[trigger] order[k] as int, order[k + 1] as int)
}

/// The bindings that get an entry, as positions in `keys`, sorted by label.
pub fn shortcut_order(keys: &Vec<KeyBinding>) -> (r: Vec<usize>)
    ensures
        is_shortcut_order(keys@, r@),
{
    let kept = dedup_bindings(keys);
    let n: usize = keys.len();
    proof {
        lemma_kept_bindings_below(keys@, n as int);
    }
    let mut sort_keys: Vec<SortKey> = Vec::new();
    let mut i: usize = 0;
    while i < keys.len()
        invariant
            i <= keys@.len(),
            sort_keys@.len() == i,
            forall|j: int| 0 <= j < i ==> (#[trigger] sort_keys@[j]).rank == 0
                && sort_keys@[j].text@ == key_label(keys@[j]),
        decreases keys@.len() - i,
    {
        let label = keys[i].get_label();
        sort_keys.push(SortKey { rank: 0, text: chars_of(label.as_str()) });
        i = i + 1;
    }
    let r = stable_sort(&kept, &sort_keys);
    proof {
        assert forall|t: int| 0 <= t < r@.len() - 1 implies label_before(keys@, #[trigger] r@[t] as int, r@[t + 1] as int) by {
            let a = r@[t] as int;
            let b = r@[t + 1] as int;
            assert(in_order(sort_keys@, a, b));
            assert(sort_keys@[a].rank == 0 && sort_keys@[b].rank == 0);
        }
    }
    r
}

/// The positions of the commands among the first `n` that get an entry:
/// those whose action activates no tab.
pub open spec fn kept_commands(cmds: Seq<CommandInfo>, n: int) -> Seq<usize>
    decreases n,
{
    if n <= 0 {
        Seq::empty()
    } else if !cmds[n - 1].action.spec_is_tab_activation() {
        kept_commands(cmds, n - 1).push((n - 1) as usize)
    } else {
        kept_commands(cmds, n - 1)
    }
}

/// `out` holds the entries of the spawnable domains of `ds`, in display order.
pub open spec fn domain_entries_ok(ds: Seq<DomainInfo>, out: Seq<LauncherEntry>) -> bool {
    exists|order: Seq<usize>| is_domain_order(ds, order) && out.len() == order.len()
        && forall|k: int| 0 <= k < out.len() ==> is_domain_entry(#[trigger] out[k], ds[order[k] as int])
}

/// `out` holds the entries of the tabs `ts`, in window order.
pub open spec fn tab_entries_ok(ts: Seq<TabInfo>, out: Seq<LauncherEntry>) -> bool {
    out.len() == ts.len() && forall|k: int| 0 <= k < out.len() ==> is_tab_entry(#[trigger] out[k], ts[k], k)
}

/// `out` holds the entries of the commands `cs` that activate no tab, in order.
pub open spec fn command_entries_ok(cs: Seq<CommandInfo>, out: Seq<LauncherEntry>) -> bool {
    let kept = kept_commands(cs, cs.len() as int);
    out.len() == kept.len() && forall|k: int| 0 <= k < out.len() ==> is_command_entry(#[trigger] out[k], cs[kept[k] as int])
}

/// `out` holds the entries of the bindings `ks` that get one, sorted by label.
pub open spec fn shortcut_entries_ok(ks: Seq<KeyBinding>, out: Seq<LauncherEntry>) -> bool {
    exists|order: Seq<usize>| is_shortcut_order(ks, order) && out.len() == order.len()
        && forall|k: int| 0 <= k < out.len() ==> is_key_entry(#[trigger] out[k], ks[order[k] as int])
}

/// The entries of the spawnable domains, attached ones first, then by identifier.
pub fn domain_entries(ds: &Vec<DomainInfo>) -> (r: Vec<LauncherEntry>)
    ensures
        domain_entries_ok(ds@, r@),
{
    let order = domain_order(ds);
    let mut out: Vec<LauncherEntry> = Vec::new();
    let mut k: usize = 0;
    while k < order.len()
        invariant
            k <= order@.len(),
            is_domain_order(ds@, order@),
            out@.len() == k,
            forall|t: int| 0 <= t < k ==> is_domain_entry(#[trigger] out@[t], ds@[order@[t] as int]),
        decreases order@.len() - k,
    {
        assert(order@[k as int] < ds@.len());
        out.push(ds[order[k]].get_entry());
        k = k + 1;
    }
    assert(is_domain_order(ds@, order@) && out@.len() == order@.len());
    out
}

/// The entries of the tabs, in window order.
pub fn tab_entries(ts: &Vec<TabInfo>) -> (r: Vec<LauncherEntry>)
    requires
        ts@.len() <= isize::MAX + 1,
    ensures
        tab_entries_ok(ts@, r@),
{
    let mut out: Vec<LauncherEntry> = Vec::new();
    let mut k: usize = 0;
    while k < ts.len()
        invariant
            k <= ts@.len(),
            ts@.len() <= isize::MAX + 1,
            out@.len() == k,
            forall|t: int| 0 <= t < k ==> is_tab_entry(#[trigger] out@[t], ts@[t], t),
        decreases ts@.len() - k,
    {
        out.push(ts[k].get_entry(k));
        k = k + 1;
    }
    out
}

/// The entries of the commands that activate no tab, in order.
pub fn command_entries(cs: &Vec<CommandInfo>) -> (r: Vec<LauncherEntry>)
    ensures
        command_entries_ok(cs@, r@),
{
    let mut out: Vec<LauncherEntry> = Vec::new();
    let mut i: usize = 0;
    while i < cs.len()
        invariant
            i <= cs@.len(),
            out@.len() == kept_commands(cs@, i as int).len(),
            forall|t: int| 0 <= t < out@.len() ==> (#[trigger] kept_commands(cs@, i as int)[t]) < cs@.len()
                && is_command_entry(out@[t], cs@[kept_commands(cs@, i as int)[t] as int]),
        decreases cs@.len() - i,
    {
        let ghost prev = kept_commands(cs@, i as int);
        if !cs[i].action.is_tab_activation() {
            out.push(cs[i].get_entry());
        }
        i = i + 1;
        proof {
            let cur = kept_commands(cs@, i as int);
            assert forall|t: int| 0 <= t < out@.len() implies (#[trigger] cur[t]) < cs@.len()
                && is_command_entry(out@[t], cs@[cur[t] as int]) by {
                if t < prev.len() {
                    assert(cur[t] == prev[t]);
                }
            }
        }
    }
    out
}

/// The entries of the bindings that get one, sorted by label.
pub fn shortcut_entries(ks: &Vec<KeyBinding>) -> (r: Vec<LauncherEntry>)
    ensures
        shortcut_entries_ok(ks@, r@),
{
    let order = shortcut_order(ks);
    let n: usize = ks.len();
    proof {
        lemma_kept_bindings_below(ks@, n as int);
    }
    let mut out: Vec<LauncherEntry> = Vec::new();
    let mut k: usize = 0;
    while k < order.len()
        invariant
            k <= order@.len(),
            is_shortcut_order(ks@, order@),
            forall|t: int| 0 <= t < kept_bindings(ks@, ks@.len() as int).len()
                ==> (#[trigger] kept_bindings(ks@, ks@.len() as int)[t]) < ks@.len(),
            out@.len() == k,
            forall|t: int| 0 <= t < k ==> is_key_entry(#[trigger] out@[t], ks@[order@[t] as int]),
        decreases order@.len() - k,
    {
        proof {
            let kept = kept_bindings(ks@, ks@.len() as int);
            assert(kept.contains(order@[k as int]));
        }
        out.push(ks[order[k]].get_entry());
        k = k + 1;
    }
    assert(is_shortcut_order(ks@, order@) && out@.len() == order@.len());
    out
}

/// The sources of one launcher session, each turned into its entries.
pub struct LauncherArgs {
    pub flags: LauncherFlags,
    pub domains: Vec<LauncherEntry>,
    pub cmddefs: Vec<LauncherEntry>,
    pub shortcuts: Vec<LauncherEntry>,
    pub tabs: Vec<LauncherEntry>,
    pub entries: Vec<LauncherEntry>,
    pub pane_id: usize,
    pub domain_id_of_current_tab: usize,
    pub title: String,
    pub active_workspace: String,
    pub workspaces: Vec<String>,
}

impl LauncherArgs {
    /// The entries of each source that `flags` enables; the sources that it
    /// leaves out contribute nothing.
    pub fn new(
        title: &str,
        flags: LauncherFlags,
        pane_id: usize,
        domain_id_of_current_tab: usize,
        active_workspace: String,
        workspaces: Vec<String>,
        domains: &Vec<DomainInfo>,
        tabs: &Vec<TabInfo>,
        commands: &Vec<CommandInfo>,
        bindings: &Vec<KeyBinding>,
    ) -> (r: Self)
        requires
            tabs@.len() <= isize::MAX + 1,
        ensures
            r.flags == flags,
            r.pane_id == pane_id,
            r.domain_id_of_current_tab == domain_id_of_current_tab,
            r.title@ == title@,
            r.active_workspace == active_workspace,
            r.workspaces@ == (if flags.workspaces { workspaces@ } else { Seq::empty() }),
            r.entries@.len() == 0,
            if flags.domains { domain_entries_ok(domains@, r.domains@) } else { r.domains@.len() == 0 },
            if flags.tabs { tab_entries_ok(tabs@, r.tabs@) } else { r.tabs@.len() == 0 },
            if flags.commands { command_entries_ok(commands@, r.cmddefs@) } else { r.cmddefs@.len() == 0 },
            if flags.key_assignments { shortcut_entries_ok(bindings@, r.shortcuts@) } else { r.shortcuts@.len() == 0 },
    {
        let workspaces = if flags.workspaces { workspaces } else { Vec::new() };
        let cmddefs = if flags.commands { command_entries(commands) } else { Vec::new() };
        let shortcuts = if flags.key_assignments { shortcut_entries(bindings) } else { Vec::new() };
        let tabs = if flags.tabs { tab_entries(tabs) } else { Vec::new() };
        let domains = if flags.domains { domain_entries(domains) } else { Vec::new() };
        LauncherArgs {
            flags,
            domains,
            cmddefs,
            shortcuts,
            tabs,
            entries: Vec::new(),
            pane_id,
            domain_id_of_current_tab,
            title: chars_to_string(title),
            active_workspace,
            workspaces,
        }
    }

    /// The catalog: domains, tabs, free-form entries, commands, then shortcuts.
    pub open spec fn catalog_spec(&self) -> Seq<LauncherEntry> {
        self.domains@ + self.tabs@ + self.entries@ + self.cmddefs@ + self.shortcuts@
    }

    /// The catalog, in display order: domains, tabs, free-form entries,
    /// commands, then shortcuts.
    pub fn build_entries(self) -> (r: Vec<LauncherEntry>)
        ensures
            r@ == self.catalog_spec(),
    {
        let LauncherArgs { mut domains, mut tabs, mut entries, mut cmddefs, mut shortcuts, .. } = self;
        let mut out: Vec<LauncherEntry> = Vec::new();
        out.append(&mut domains);
        out.append(&mut tabs);
        out.append(&mut entries);
        out.append(&mut cmddefs);
        out.append(&mut shortcuts);
        out
    }
}

fn chars_to_string(s: &str) -> (r: String)
    ensures
        r@ == s@,
{
    string_of(&chars_of(s))
}

proof fn lemma_kept_members(keys: Seq<KeyBinding>, n: int)
    requires
        0 <= n <= usize::MAX,
    ensures
        forall|x: int| 0 <= x < n ==> (kept_bindings(keys, n).contains(x as usize) <==> keeps_binding(keys, x)),
        forall|t: int| 0 <= t < kept_bindings(keys, n).len() ==> (#[trigger] kept_bindings(keys, n)[t]) < n,
    decreases n,
{
    lemma_kept_bindings_below(keys, n);
    if n > 0 {
        lemma_kept_members(keys, n - 1);
        let prev = kept_bindings(keys, n - 1);
        let cur = kept_bindings(keys, n);
        assert forall|x: int| 0 <= x < n implies (cur.contains(x as usize) <==> keeps_binding(keys, x)) by {
            if keeps_binding(keys, n - 1) {
                assert(cur == prev.push((n - 1) as usize));
                if x < n - 1 {
                    if cur.contains(x as usize) {
                        let t = choose|t: int| 0 <= t < cur.len() && cur[t] == x as usize;
                        if t < prev.len() {
                            assert(prev[t] == x as usize);
                        }
                    }
                    if prev.contains(x as usize) {
                        let t = choose|t: int| 0 <= t < prev.len() && prev[t] == x as usize;
                        assert(cur[t] == x as usize);
                    }
                } else {
                    assert(cur[cur.len() - 1] == x as usize);
                }
            } else {
                if x == n - 1 && cur.contains(x as usize) {
                    let t = choose|t: int| 0 <= t < cur.len() && cur[t] == x as usize;
                    assert(prev[t] < n - 1);
                }
            }
        }
    }
}

/// Of bindings with equal actions, only the first can get an entry; it gets
/// one unless its action activates a tab; and no two shortcut entries carry
/// equal actions.
pub proof fn lemma_shortcuts_dedup(keys: Seq<KeyBinding>, out: Seq<LauncherEntry>, i: int, j: int)
    requires
        keys.len() <= usize::MAX,
        0 <= i < j < keys.len(),
        keys[i].action@ == keys[j].action@,
        shortcut_entries_ok(keys, out),
    ensures
        !kept_bindings(keys, keys.len() as int).contains(j as usize),
        first_of_action(keys, i) && !keys[i].action.spec_is_tab_activation()
            ==> kept_bindings(keys, keys.len() as int).contains(i as usize),
        forall|a: int, b: int| 0 <= a < out.len() && 0 <= b < out.len() && a != b
            ==> out[a].action@ != out[b].action@,
{
    let n = keys.len() as int;
    lemma_kept_members(keys, n);
    assert(!first_of_action(keys, j)) by {
        assert(keys[i].action@ == keys[j].action@);
    }
    assert(!keeps_binding(keys, j));
    if first_of_action(keys, i) && !keys[i].action.spec_is_tab_activation() {
        assert(keeps_binding(keys, i));
    }
    let order = choose|order: Seq<usize>| is_shortcut_order(keys, order) && out.len() == order.len()
        && forall|k: int| 0 <= k < out.len() ==> is_key_entry(#[trigger] out[k], keys[order[k] as int]);
    let kept = kept_bindings(keys, n);
    assert forall|a: int, b: int| 0 <= a < out.len() && 0 <= b < out.len() && a != b
        implies out[a].action@ != out[b].action@ by {
        let x = order[a] as int;
        let y = order[b] as int;
        assert(kept.contains(order[a]) && kept.contains(order[b]));
        let ta = choose|t: int| 0 <= t < kept.len() && kept[t] == order[a];
        let tb = choose|t: int| 0 <= t < kept.len() && kept[t] == order[b];
        assert(kept[ta] < n && kept[tb] < n);
        assert(keeps_binding(keys, x) && keeps_binding(keys, y));
        assert(x != y);
        assert(is_key_entry(out[a], keys[x]) && is_key_entry(out[b], keys[y]));
        if x < y {
            assert(keys[x].action@ != keys[y].action@);
        } else {
            assert(keys[y].action@ != keys[x].action@);
        }
    }
}

proof fn lemma_first_with_action(keys: Seq<KeyBinding>, i: int)
    requires
        0 <= i < keys.len(),
    ensures
        exists|f: int| 0 <= f <= i && keys[f].action@ == keys[i].action@ && first_of_action(keys, f),
    decreases i,
{
    if !first_of_action(keys, i) {
        let j = choose|j: int| 0 <= j < i && (#[trigger] keys[j]).action@ == keys[i].action@;
        lemma_first_with_action(keys, j);
        let f = choose|f: int| 0 <= f <= j && keys[f].action@ == keys[j].action@ && first_of_action(keys, f);
        assert(0 <= f <= i && keys[f].action@ == keys[i].action@ && first_of_action(keys, f));
    } else {
        assert(0 <= i <= i && keys[i].action@ == keys[i].action@ && first_of_action(keys, i));
    }
}

/// For each binding whose action activates no tab, exactly one shortcut
/// entry carries that action, and it is the entry of the first binding with
/// that action, which comes no later than it.
pub proof fn lemma_shortcut_of_first_binding(keys: Seq<KeyBinding>, out: Seq<LauncherEntry>, i: int)
    requires
        keys.len() <= usize::MAX,
        0 <= i < keys.len(),
        !keys[i].action.spec_is_tab_activation(),
        shortcut_entries_ok(keys, out),
    ensures
        exists|k: int, f: int| 0 <= k < out.len() && 0 <= f <= i
            && keys[f].action@ == keys[i].action@ && first_of_action(keys, f)
            && #[trigger] is_key_entry(out[k], keys[f])
            && forall|m: int| 0 <= m < out.len() && m != k ==> (#[trigger] out[m]).action@ != keys[i].action@,
{
    let n = keys.len() as int;
    lemma_kept_members(keys, n);
    lemma_first_with_action(keys, i);
    let f = choose|f: int| 0 <= f <= i && keys[f].action@ == keys[i].action@ && first_of_action(keys, f);
    assert(keeps_binding(keys, f));
    let kept = kept_bindings(keys, n);
    assert(kept.contains(f as usize));
    let order = choose|order: Seq<usize>| is_shortcut_order(keys, order) && out.len() == order.len()
        && forall|k: int| 0 <= k < out.len() ==> is_key_entry(#[trigger] out[k], keys[order[k] as int]);
    let p = choose|p: int| 0 <= p < kept.len() && kept[p] == f as usize;
    assert(order.contains(kept[p]));
    let k = choose|k: int| 0 <= k < order.len() && order[k] == f as usize;
    assert(is_key_entry(out[k], keys[f]));
    assert forall|m: int| 0 <= m < out.len() && m != k implies (#[trigger] out[m]).action@ != keys[i].action@ by {
        let x = order[m] as int;
        assert(kept.contains(order[m]));
        let t = choose|t: int| 0 <= t < kept.len() && kept[t] == order[m];
        assert(kept[t] < n);
        assert(keeps_binding(keys, x));
        assert(is_key_entry(out[m], keys[x]));
        assert(x != f);
        if x < f {
            assert(keys[x].action@ != keys[f].action@);
        } else {
            assert(keys[f].action@ != keys[x].action@);
        }
    }
}

} // verus!
