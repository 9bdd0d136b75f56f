//! Launch resolution: the launch-parameter table keyed by product id, the
//! argument normalization, and the resolver that decides between the
//! hide-and-exit branch of the virtual desktop entry and a process spawn.

use vstd::prelude::*;

use crate::LauncherError;
use crate::catalog::DesktopIdSet;
use crate::records::LaunchParams;
use crate::records::StationProduct;
use crate::records::launch_matches;
use crate::text::str_eq;
use crate::text::trim_str;
use crate::text::trimmed_of;
use crate::text::unquoted;
use crate::text::unwrap_outer_quotes;

verus! {

/// Resolves a station record's launch descriptor: each override field,
/// defaulted to the empty string.
pub fn build_launch_params(item: &StationProduct) -> (r: LaunchParams)
    ensures
        launch_matches(r, *item),
{
    let exe_path: String = match &item.game_path {
        Some(s) => s.clone(),
        None => String::new(),
    };
    let work_dir: String = match &item.work_path {
        Some(s) => s.clone(),
        None => String::new(),
    };
    let args: String = match &item.args {
        Some(s) => s.clone(),
        None => String::new(),
    };
    LaunchParams { exe_path, work_dir, args }
}

/// The map that a sequence of keyed launch descriptors builds when each
/// pair is inserted in order: a later pair overwrites an earlier one with
/// the same key.
pub open spec fn launch_map_of(s: Seq<(String, LaunchParams)>) -> Map<Seq<char>, LaunchParams>
    decreases s.len(),
{
    if s.len() == 0 {
        Map::<Seq<char>, LaunchParams>::empty()
    } else {
        launch_map_of(s.drop_last()).insert(s.last().0@, s.last().1)
    }
}

proof fn lemma_launch_map_of_domain(s: Seq<(String, LaunchParams)>, id: Seq<char>)
    ensures
        launch_map_of(s).contains_key(id) <==> exists|i: int|
            0 <= i < s.len() && (#[trigger] s[i]).0@ == id,
    decreases s.len(),
{
    if s.len() > 0 {
        lemma_launch_map_of_domain(s.drop_last(), id);
        if s.last().0@ == id {
            assert(s[s.len() - 1].0@ == id);
        } else {
            if launch_map_of(s).contains_key(id) {
                let i = choose|i: int|
                    0 <= i < s.drop_last().len() && (#[trigger] s.drop_last()[i]).0@ == id;
                assert(s[i].0@ == id);
            }
            if exists|i: int| 0 <= i < s.len() && (#[trigger] s[i]).0@ == id {
                let i = choose|i: int| 0 <= i < s.len() && (#[trigger] s[i]).0@ == id;
                assert(s.drop_last()[i].0@ == id);
            }
        }
    }
}

proof fn lemma_launch_map_of_last(s: Seq<(String, LaunchParams)>, i: int)
    requires
        0 <= i < s.len(),
        forall|j: int| i < j < s.len() ==> (#[trigger] s[j]).0@ != s[i].0@,
    ensures
        launch_map_of(s).contains_key(s[i].0@),
        launch_map_of(s)[s[i].0@] == s[i].1,
    decreases s.len(),
{
    if i == s.len() - 1 {
    } else {
        assert(s.drop_last()[i] == s[i]);
        lemma_launch_map_of_last(s.drop_last(), i);
        assert(s.last().0@ != s[i].0@);
    }
}

/// A pair list with keys pairwise distinct.
pub open spec fn distinct_keys(s: Seq<(String, LaunchParams)>) -> bool {
    forall|i: int, j: int| 0 <= i < j < s.len() ==> (#[trigger] s[i]).0@ != (#[trigger] s[j]).0@
}

proof fn lemma_launch_map_of_update(s: Seq<(String, LaunchParams)>, i: int, p: (
    String,
    LaunchParams,
))
    requires
        0 <= i < s.len(),
        s[i].0@ == p.0@,
        distinct_keys(s),
    ensures
        launch_map_of(s.update(i, p)) == launch_map_of(s).insert(p.0@, p.1),
    decreases s.len(),
{
    let key = p.0@;
    if i == s.len() - 1 {
        assert(s.update(i, p).drop_last() =~= s.drop_last());
        assert(s.update(i, p).last() == p);
        assert(launch_map_of(s.drop_last()).insert(s.last().0@, s.last().1).insert(key, p.1)
            =~= launch_map_of(s.drop_last()).insert(key, p.1));
    } else {
        assert(s.update(i, p).drop_last() =~= s.drop_last().update(i, p));
        assert(s.update(i, p).last() == s.last());
        assert(forall|a: int, b: int|
            0 <= a < b < s.drop_last().len() ==> (#[trigger] s.drop_last()[a]).0@ != (
            #[trigger] s.drop_last()[b]).0@);
        assert(s.drop_last()[i] == s[i]);
        lemma_launch_map_of_update(s.drop_last(), i, p);
        let lastk = s.last().0@;
        assert(lastk != key);
        assert(launch_map_of(s.drop_last()).insert(key, p.1).insert(lastk, s.last().1)
            =~= launch_map_of(s.drop_last()).insert(lastk, s.last().1).insert(key, p.1));
    }
}

/// The launch-descriptor table of the current catalog load, keyed by
/// product id.
pub struct LaunchTable {
    entries: Vec<(String, LaunchParams)>,
}

impl View for LaunchTable {
    type V = Map<Seq<char>, LaunchParams>;

    closed spec fn view(&self) -> Map<Seq<char>, LaunchParams> {
        launch_map_of(self.entries@)
    }
}

impl LaunchTable {
    /// Entries hold pairwise distinct product ids.  Constructors establish
    /// this and every method preserves it.
    pub closed spec fn wf(self) -> bool {
        distinct_keys(self.entries@)
    }

    /// An empty table.
    pub fn new() -> (r: LaunchTable)
        ensures
            r.wf(),
            r@ == Map::<Seq<char>, LaunchParams>::empty(),
    {
        LaunchTable { entries: Vec::new() }
    }

    /// Stores a launch descriptor under a product id, overwriting an entry
    /// that already carries the same id.
    pub fn insert(&mut self, product_id: String, params: LaunchParams)
        requires
            old(self).wf(),
        ensures
            final(self).wf(),
            final(self)@ == old(self)@.insert(product_id@, params),
    {
        let n = self.entries.len();
        let mut i: usize = 0;
        while i < n
            invariant
                n == self.entries@.len(),
                i <= n,
                forall|j: int| 0 <= j < i ==> (#[trigger] self.entries@[j]).0@ != product_id@,
                self.wf(),
                self == old(self),
            decreases n - i,
        {
            if str_eq(self.entries[i].0.as_str(), product_id.as_str()) {
                proof {
                    lemma_launch_map_of_update(
                        self.entries@,
                        i as int,
                        (product_id, params),
                    );
                }
                self.entries.set(i, (product_id, params));
                return ;
            }
            i = i + 1;
        }
        proof {
            assert(self.entries@.push((product_id, params)).drop_last() =~= self.entries@);
        }
        self.entries.push((product_id, params));
    }

    /// Looks a product id up.
    pub fn get(&self, product_id: &str) -> (r: Option<&LaunchParams>)
        requires
            self.wf(),
        ensures
            match r {
                Some(lp) => self@.contains_key(product_id@) && *lp == self@[product_id@],
                None => !self@.contains_key(product_id@),
            },
    {
        let n = self.entries.len();
        let mut i: usize = 0;
        while i < n
            invariant
                n == self.entries@.len(),
                i <= n,
                forall|j: int| 0 <= j < i ==> (#[trigger] self.entries@[j]).0@ != product_id@,
                self.wf(),
            decreases n - i,
        {
            if str_eq(self.entries[i].0.as_str(), product_id) {
                proof {
                    lemma_launch_map_of_last(self.entries@, i as int);
                }
                return Some(&self.entries[i].1);
            }
            i = i + 1;
        }
        proof {
            lemma_launch_map_of_domain(self.entries@, product_id@);
        }
        None
    }
}

/// The launch table covers a station list: it holds exactly the listed
/// product ids, and under each id the descriptor of the id's last
/// occurrence.
pub open spec fn launch_table_covers(
    m: Map<Seq<char>, LaunchParams>,
    s: Seq<StationProduct>,
) -> bool {
    &&& forall|id: Seq<char>|
        m.contains_key(id) <==> exists|i: int|
            0 <= i < s.len() && (#[trigger] s[i]).product_id@ == id
    &&& forall|i: int|
        0 <= i < s.len() && (forall|j: int|
            i < j < s.len() ==> (#[trigger] s[j]).product_id@ != s[i].product_id@)
            ==> launch_matches(m[(#[trigger] s[i]).product_id@], s[i])
}

/// Builds the launch table of the ready records: one descriptor per
/// product id, the last occurrence winning on duplicates.
pub fn build_launch_map(enabled: &Vec<StationProduct>) -> (r: LaunchTable)
    ensures
        r.wf(),
        launch_table_covers(r@, enabled@),
{
    let mut r = LaunchTable::new();
    let n = enabled.len();
    let mut i: usize = 0;
    while i < n
        invariant
            n == enabled@.len(),
            i <= n,
            r.wf(),
            launch_table_covers(r@, enabled@.take(i as int)),
        decreases n - i,
    {
        let item = &enabled[i];
        let params = build_launch_params(item);
        let ghost prev = r@;
        r.insert(item.product_id.clone(), params);
        proof {
            let part = enabled@.take(i + 1);
            let old_part = enabled@.take(i as int);
            assert(part.drop_last() =~= old_part);
            assert(part.last() == enabled@[i as int]);
            let key = enabled@[i as int].product_id@;
            assert forall|id: Seq<char>| r@.contains_key(id) implies exists|k: int|
                0 <= k < part.len() && (#[trigger] part[k]).product_id@ == id by {
                if id == key {
                    assert(part[i as int].product_id@ == id);
                } else {
                    let k = choose|k: int|
                        0 <= k < old_part.len() && (#[trigger] old_part[k]).product_id@ == id;
                    assert(part[k].product_id@ == id);
                }
            }
            assert forall|id: Seq<char>|
                exists|k: int|
                    0 <= k < part.len() && (#[trigger] part[k]).product_id@
                        == id implies r@.contains_key(id) by {
                let k = choose|k: int| 0 <= k < part.len() && (#[trigger] part[k]).product_id@ == id;
                if k < i {
                    assert(old_part[k].product_id@ == id);
                    assert(prev.contains_key(id));
                }
            }
            assert forall|k: int|
                0 <= k < part.len() && (forall|j: int|
                    k < j < part.len() ==> (#[trigger] part[j]).product_id@
                        != part[k].product_id@) implies launch_matches(
                r@[part[k].product_id@],
                part[k],
            ) by {
                if k == i {
                } else {
                    assert(part[i as int].product_id@ != part[k].product_id@);
                    assert(old_part[k] == part[k]);
                    assert(forall|j: int|
                        k < j < old_part.len() ==> (#[trigger] old_part[j]).product_id@
                            != old_part[k].product_id@);
                    assert(launch_matches(prev[old_part[k].product_id@], old_part[k]));
                    assert(r@[part[k].product_id@] == prev[part[k].product_id@]);
                }
            }
        }
        i = i + 1;
    }
    proof {
        assert(enabled@.take(n as int) =~= enabled@);
    }
    r
}

/// Normalizes a raw launch-argument string: trimmed of surrounding
/// whitespace, handed on as one argument without its outer quotes, or
/// dropped entirely when nothing but whitespace is left.
pub fn normalize_launch_args(raw: &str) -> (r: Option<String>)
    ensures
        trimmed_of(raw@).len() == 0 ==> r is None,
        trimmed_of(raw@).len() > 0 ==> (r matches Some(s) && s@ == unquoted(trimmed_of(raw@))),
{
    let trimmed = trim_str(raw);
    if trimmed.as_str().is_empty() {
        None
    } else {
        Some(unwrap_outer_quotes(trimmed.as_str()))
    }
}

/// What a launch request resolves to: either the kiosk shell hides and
/// exits to the desktop, or a child process is spawned.
pub enum LaunchAction {
    HideAndExit,
    Spawn { exe_path: String, work_dir: Option<String>, arg: Option<String> },
}

/// A spawn action carries the descriptor's executable path, its working
/// directory only when non-empty, and its normalized argument.
pub open spec fn spawn_matches(a: LaunchAction, lp: LaunchParams) -> bool {
    &&& a matches LaunchAction::Spawn { exe_path, work_dir, arg }
    &&& exe_path@ == lp.exe_path@
    &&& match work_dir {
        Some(w) => lp.work_dir@.len() > 0 && w@ == lp.work_dir@,
        None => lp.work_dir@.len() == 0,
    }
    &&& match arg {
        Some(s) => trimmed_of(lp.args@).len() > 0 && s@ == unquoted(trimmed_of(lp.args@)),
        None => trimmed_of(lp.args@).len() == 0,
    }
}

/// Resolves one launch request.  A product id in the desktop set, or the
/// literal sentinel id, resolves to hide-and-exit without any lookup into
/// the launch table; otherwise the table decides: a missing descriptor and
/// an empty executable path fail with their distinct errors, and any other
/// descriptor resolves to a spawn action.
pub fn resolve_launch(
    table: &LaunchTable,
    desktop_ids: &DesktopIdSet,
    product_id: &str,
) -> (r: Result<LaunchAction, LauncherError>)
    requires
        table.wf(),
    ensures
        ({
            let desk = desktop_ids@.contains(product_id@) || product_id@ == "desktop"@;
            &&& desk ==> (r matches Ok(a) && a is HideAndExit)
            &&& !desk && !table@.contains_key(product_id@) ==> (r matches Err(e) && e
                == LauncherError::LaunchNotFound)
            &&& !desk && table@.contains_key(product_id@)
                && table@[product_id@].exe_path@.len() == 0 ==> (r matches Err(e) && e
                == LauncherError::EmptyLaunchPath)
            &&& !desk && table@.contains_key(product_id@)
                && table@[product_id@].exe_path@.len() > 0 ==> (r matches Ok(a) && spawn_matches(
                a,
                table@[product_id@],
            ))
        }),
{
    if desktop_ids.contains(product_id) || str_eq(product_id, "desktop") {
        return Ok(LaunchAction::HideAndExit);
    }
    let lp = match table.get(product_id) {
        Some(lp) => lp,
        None => {
            return Err(LauncherError::LaunchNotFound);
        },
    };
    if lp.exe_path.as_str().is_empty() {
        return Err(LauncherError::EmptyLaunchPath);
    }
    let work_dir: Option<String> = if lp.work_dir.as_str().is_empty() {
        None
    } else {
        Some(lp.work_dir.clone())
    };
    let arg = normalize_launch_args(lp.args.as_str());
    Ok(LaunchAction::Spawn { exe_path: lp.exe_path.clone(), work_dir, arg })
}

} // verus!
