//! The sidebar's two views and the lookup of sibling panes in a pane list.
use vstd::prelude::*;

verus! {

/// The byte-order mark some writers put at the start of a text.
pub const BYTE_ORDER_MARK: char = '\u{feff}';

/// `s` without the byte-order marks it starts with (`trim_start_matches`
/// of the mark): every leading mark goes, the rest stays.
pub open spec fn spec_without_bom(s: Seq<char>) -> Seq<char>
    decreases s.len(),
{
    if s.len() > 0 && s[0] == BYTE_ORDER_MARK {
        spec_without_bom(s.drop_first())
    } else {
        s
    }
}

/// A response text with any leading byte-order marks trimmed, ready to
/// parse.
pub fn without_bom<'a>(s: &'a str) -> (out: &'a str)
    ensures
        out@ == spec_without_bom(s@),
{
    let n = s.unicode_len();
    let mut i: usize = 0;
    assert(s@.skip(0) == s@);
    while i < n && s.get_char(i) == BYTE_ORDER_MARK
        invariant
            n == s@.len(),
            i <= n,
            spec_without_bom(s@) == spec_without_bom(s@.skip(i as int)),
        decreases n - i,
    {
        assert(s@.skip(i as int).drop_first() == s@.skip(i + 1));
        i = i + 1;
    }
    let out = s.substring_char(i, n);
    assert(out@ == s@.skip(i as int));
    out
}

/// The two sidebar views.
#[derive(Clone, Copy, Debug, PartialEq, Eq, Structural)]
pub enum SidebarView {
    Explorer,
    SourceControl,
}

pub open spec fn view_label(v: SidebarView) -> Seq<char> {
    match v {
        SidebarView::Explorer => "Sidebar"@,
        SidebarView::SourceControl => "Source Control"@,
    }
}

pub open spec fn view_plugin_id(v: SidebarView) -> Seq<char> {
    match v {
        SidebarView::Explorer => "herdr-sidebar"@,
        SidebarView::SourceControl => "herdr-sidebar-git"@,
    }
}

impl SidebarView {
    /// The standalone pane label of the view.
    pub fn label(self) -> (l: &'static str)
        ensures
            l@ == view_label(self),
    {
        match self {
            SidebarView::Explorer => "Sidebar",
            SidebarView::SourceControl => "Source Control",
        }
    }

    /// The metadata token a pane of this view carries.
    pub fn plugin_id(self) -> (id: &'static str)
        ensures
            id@ == view_plugin_id(self),
    {
        match self {
            SidebarView::Explorer => "herdr-sidebar",
            SidebarView::SourceControl => "herdr-sidebar-git",
        }
    }

    /// The view the activity bar switches to.
    pub fn other(self) -> (o: SidebarView)
        ensures
            o != self,
    {
        match self {
            SidebarView::Explorer => SidebarView::SourceControl,
            SidebarView::SourceControl => SidebarView::Explorer,
        }
    }
}

/// What a pane listing says of one pane: its id, label and tab, and the
/// keys of its metadata tokens.
#[derive(Clone, Debug)]
pub struct PaneInfo {
    pub pane_id: Option<String>,
    pub label: Option<String>,
    pub tab_id: Option<String>,
    pub tokens: Vec<String>,
}

pub open spec fn opt_view(o: Option<String>) -> Option<Seq<char>> {
    match o {
        Some(s) => Some(s@),
        None => None,
    }
}

/// A pane as plain values: (id, label, tab, token keys).
pub type PaneSpec = (Option<Seq<char>>, Option<Seq<char>>, Option<Seq<char>>, Seq<Seq<char>>);

impl View for PaneInfo {
    type V = PaneSpec;

    open spec fn view(&self) -> PaneSpec {
        (opt_view(self.pane_id), opt_view(self.label), opt_view(self.tab_id), self.tokens@.map_values(|t: String| t@))
    }
}

pub open spec fn panes_view(panes: Seq<PaneInfo>) -> Seq<PaneSpec> {
    panes.map_values(|p: PaneInfo| p@)
}

/// The tab of the first pane listed with id `me`, if any.
pub open spec fn tab_of(panes: Seq<PaneSpec>, me: Seq<char>) -> Option<Seq<char>>
    decreases panes.len(),
{
    if panes.len() == 0 {
        None
    } else if panes[0].0 == Some(me) {
        panes[0].2
    } else {
        tab_of(panes.drop_first(), me)
    }
}

/// A pane in tab `tab`, other than `me`, that belongs to view `other` by its
/// label or its token.
pub open spec fn is_sibling(p: PaneSpec, me: Seq<char>, tab: Seq<char>, other: SidebarView) -> bool {
    &&& p.2 == Some(tab)
    &&& p.0 != Some(me)
    &&& (p.1 == Some(view_label(other)) || p.3.contains(view_plugin_id(other)))
}

/// The ids of the sibling panes, in listing order (panes without an id
/// are skipped).
pub open spec fn siblings_in(panes: Seq<PaneSpec>, me: Seq<char>, tab: Seq<char>, other: SidebarView) -> Seq<Seq<char>>
    decreases panes.len(),
{
    if panes.len() == 0 {
        Seq::empty()
    } else {
        let r = siblings_in(panes.drop_last(), me, tab, other);
        let p = panes.last();
        if is_sibling(p, me, tab, other) && p.0 is Some {
            r.push(p.0->0)
        } else {
            r
        }
    }
}

/// Pane ids in the same tab as `me` that belong to the `other` view; none
/// when `me` is not listed or has no tab.
pub open spec fn spec_sibling_panes(panes: Seq<PaneSpec>, me: Seq<char>, other: SidebarView) -> Seq<Seq<char>> {
    match tab_of(panes, me) {
        Some(tab) => siblings_in(panes, me, tab, other),
        None => Seq::empty(),
    }
}

fn opt_eq(o: &Option<String>, s: &String) -> (b: bool)
    ensures
        b == (opt_view(*o) == Some(s@)),
{
    match o {
        Some(v) => *v == *s,
        None => false,
    }
}

fn contains_string(v: &Vec<String>, s: &String) -> (b: bool)
    ensures
        b == v@.map_values(|t: String| t@).contains(s@),
{
    let ghost vv = v@.map_values(|t: String| t@);
    for i in 0..v.len()
        invariant
            vv == v@.map_values(|t: String| t@),
            forall|j: int| 0 <= j < i ==> vv[j] != s@,
    {
        if v[i] == *s {
            assert(vv[i as int] == s@);
            return true;
        }
    }
    false
}

fn find_tab(panes: &Vec<PaneInfo>, me: &String) -> (tab: Option<String>)
    ensures
        opt_view(tab) == tab_of(panes_view(panes@), me@),
{
    let ghost pv = panes_view(panes@);
    assert(pv.skip(0) == pv);
    for i in 0..panes.len()
        invariant
            pv == panes_view(panes@),
            tab_of(pv, me@) == tab_of(pv.skip(i as int), me@),
    {
        assert(pv.skip(i as int).drop_first() == pv.skip(i + 1));
        assert(pv.skip(i as int)[0] == panes@[i as int]@);
        if opt_eq(&panes[i].pane_id, me) {
            return panes[i].tab_id.clone();
        }
    }
    assert(pv.skip(pv.len() as int).len() == 0);
    None
}

/// Pane ids in the same tab as `my_pane_id` that belong to the `other`
/// view, matched by its standalone label or its metadata token.
pub fn sibling_panes(panes: &Vec<PaneInfo>, my_pane_id: &str, other: SidebarView) -> (ids: Vec<String>)
    ensures
        ids@.map_values(|s: String| s@) == spec_sibling_panes(panes_view(panes@), my_pane_id@, other),
{
    let me = String::from_str(my_pane_id);
    let tab = match find_tab(panes, &me) {
        Some(t) => t,
        None => return Vec::new(),
    };
    let label = String::from_str(other.label());
    let token = String::from_str(other.plugin_id());
    let ghost pv = panes_view(panes@);
    let mut ids: Vec<String> = Vec::new();
    for i in 0..panes.len()
        invariant
            pv == panes_view(panes@),
            label@ == view_label(other),
            token@ == view_plugin_id(other),
            ids@.map_values(|s: String| s@) == siblings_in(pv.take(i as int), me@, tab@, other),
    {
        let p = &panes[i];
        assert(pv.take(i + 1).drop_last() == pv.take(i as int));
        assert(pv.take(i + 1).last() == p@);
        let sibling = opt_eq(&p.tab_id, &tab) && !opt_eq(&p.pane_id, &me) && (opt_eq(&p.label, &label)
            || contains_string(&p.tokens, &token));
        if sibling {
            match &p.pane_id {
                Some(id) => {
                    let ghost before = ids@;
                    ids.push(id.clone());
                    assert(ids@.map_values(|s: String| s@) == before.map_values(|s: String| s@).push(id@));
                },
                None => {},
            }
        }
    }
    assert(pv.take(pv.len() as int) == pv);
    ids
}

/// A sibling is never the asking pane itself, always shares its tab and
/// belongs to the other view.
pub proof fn lemma_siblings_share_the_tab(panes: Seq<PaneSpec>, me: Seq<char>, tab: Seq<char>, other: SidebarView)
    ensures
        forall|k: int|
            0 <= k < siblings_in(panes, me, tab, other).len() ==> exists|j: int|
                0 <= j < panes.len() && #[trigger] panes[j].0 == Some(
                    #[trigger] siblings_in(panes, me, tab, other)[k],
                ) && is_sibling(panes[j], me, tab, other),
    decreases panes.len(),
{
    if panes.len() > 0 {
        let p = panes.drop_last();
        lemma_siblings_share_the_tab(p, me, tab, other);
        let r = siblings_in(panes, me, tab, other);
        assert forall|k: int| 0 <= k < r.len() implies exists|j: int|
            0 <= j < panes.len() && #[trigger] panes[j].0 == Some(#[trigger] r[k]) && is_sibling(panes[j], me, tab, other) by {
            if k < siblings_in(p, me, tab, other).len() {
                let j = choose|j: int|
                    0 <= j < p.len() && #[trigger] p[j].0 == Some(siblings_in(p, me, tab, other)[k]) && is_sibling(p[j], me, tab, other);
                assert(panes[j] == p[j]);
            } else {
                assert(panes[panes.len() - 1].0 == Some(r[k]));
            }
        }
    }
}


proof fn lemma_tab_of_first(panes: Seq<PaneSpec>, me: Seq<char>, j: int)
    requires
        0 <= j < panes.len(),
        panes[j].0 == Some(me),
        forall|k: int| 0 <= k < j ==> panes[k].0 != Some(me),
    ensures
        tab_of(panes, me) == panes[j].2,
    decreases j,
{
    if j > 0 {
        let rest = panes.drop_first();
        assert forall|k: int| 0 <= k < j - 1 implies rest[k].0 != Some(me) by {
            assert(rest[k] == panes[k + 1]);
        }
        assert(panes[0].0 != Some(me));
        lemma_tab_of_first(rest, me, j - 1);
    }
}

proof fn lemma_tab_of_absent(panes: Seq<PaneSpec>, me: Seq<char>)
    requires
        forall|k: int| 0 <= k < panes.len() ==> panes[k].0 != Some(me),
    ensures
        tab_of(panes, me) is None,
    decreases panes.len(),
{
    if panes.len() > 0 {
        let rest = panes.drop_first();
        assert forall|k: int| 0 <= k < rest.len() implies rest[k].0 != Some(me) by {
            assert(rest[k] == panes[k + 1]);
        }
        lemma_tab_of_absent(rest, me);
    }
}

proof fn lemma_siblings_in_complete(panes: Seq<PaneSpec>, me: Seq<char>, tab: Seq<char>, other: SidebarView, k: int)
    requires
        0 <= k < panes.len(),
        is_sibling(panes[k], me, tab, other),
        panes[k].0 is Some,
    ensures
        siblings_in(panes, me, tab, other).contains(panes[k].0->0),
    decreases panes.len(),
{
    let r = siblings_in(panes.drop_last(), me, tab, other);
    if k == panes.len() - 1 {
        assert(siblings_in(panes, me, tab, other) == r.push(panes[k].0->0));
        assert(siblings_in(panes, me, tab, other)[r.len() as int] == panes[k].0->0);
    } else {
        assert(panes.drop_last()[k] == panes[k]);
        lemma_siblings_in_complete(panes.drop_last(), me, tab, other, k);
        let i = choose|i: int| 0 <= i < r.len() && r[i] == panes[k].0->0;
        let full = siblings_in(panes, me, tab, other);
        assert(full[i] == r[i]);
    }
}

/// The lookup finds exactly the right panes. When the asking pane `me` is
/// listed (the first listing of it, at `j`, in tab `tab`; wherever it
/// sits in the list), every pane of that tab other than `me` that belongs
/// to the `other` view, by label or token, has its id among the results,
/// and every result is the id of such a pane. When `me` is not listed,
/// nothing is found.
pub proof fn lemma_sibling_lookup_is_complete(panes: Seq<PaneSpec>, me: Seq<char>, other: SidebarView, j: int, tab: Seq<char>)
    requires
        0 <= j < panes.len(),
        panes[j].0 == Some(me),
        panes[j].2 == Some(tab),
        forall|k: int| 0 <= k < j ==> panes[k].0 != Some(me),
    ensures
        forall|k: int|
            0 <= k < panes.len() && panes[k].2 == Some(tab) && panes[k].0 is Some && panes[k].0 != Some(me) && (
            panes[k].1 == Some(view_label(other)) || panes[k].3.contains(view_plugin_id(other)))
                ==> #[trigger] spec_sibling_panes(panes, me, other).contains(panes[k].0->0),
        forall|n: int|
            0 <= n < spec_sibling_panes(panes, me, other).len() ==> exists|k: int|
                0 <= k < panes.len() && #[trigger] panes[k].0 == Some(
                    #[trigger] spec_sibling_panes(panes, me, other)[n],
                ) && panes[k].2 == Some(tab) && panes[k].0 != Some(me),
{
    lemma_tab_of_first(panes, me, j);
    lemma_siblings_share_the_tab(panes, me, tab, other);
    assert forall|k: int|
        0 <= k < panes.len() && panes[k].2 == Some(tab) && panes[k].0 is Some && panes[k].0 != Some(me) && (
        panes[k].1 == Some(view_label(other)) || panes[k].3.contains(view_plugin_id(other)))
            implies #[trigger] spec_sibling_panes(panes, me, other).contains(panes[k].0->0) by {
        lemma_siblings_in_complete(panes, me, tab, other, k);
    }
}

/// A pane that is not listed finds no siblings.
pub proof fn lemma_unlisted_pane_finds_nothing(panes: Seq<PaneSpec>, me: Seq<char>, other: SidebarView)
    requires
        forall|k: int| 0 <= k < panes.len() ==> panes[k].0 != Some(me),
    ensures
        spec_sibling_panes(panes, me, other).len() == 0,
{
    lemma_tab_of_absent(panes, me);
}

} // verus!
