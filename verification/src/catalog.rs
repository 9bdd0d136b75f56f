//! The aggregation pipeline: readiness filtering of station records, the
//! product-metadata map with last-write-wins on duplicate ids, desktop
//! classification, and assembly of the display cards.

use vstd::prelude::*;

use crate::LauncherError;
use crate::records::Card;
use crate::records::ProductMeta;
use crate::records::StationProduct;
use crate::records::card_matches;
use crate::records::fallback_title;
use crate::records::desktop_entry_spec;
use crate::records::is_desktop_spec;
use crate::records::meta_ref;
use crate::records::ready_spec;
use crate::records::spec_desktop_id;
use crate::text::eq_ignore_ascii_case;
use crate::text::lowercase;
use crate::text::str_eq;
use crate::text::truncate_chars;

verus! {

/// The map that a sequence of metadata entries builds when each entry is
/// inserted in order under its product id: a later entry overwrites an
/// earlier one with the same id.
pub open spec fn meta_map_of(s: Seq<ProductMeta>) -> Map<Seq<char>, ProductMeta>
    decreases s.len(),
{
    if s.len() == 0 {
        Map::<Seq<char>, ProductMeta>::empty()
    } else {
        meta_map_of(s.drop_last()).insert(s.last().product_id@, s.last())
    }
}

/// The optional metadata entry that a map holds for a product id.
pub open spec fn map_meta(m: Map<Seq<char>, ProductMeta>, id: Seq<char>) -> Option<ProductMeta> {
    if m.contains_key(id) {
        Some(m[id])
    } else {
        None
    }
}

/// A product id is a key of the built map exactly when some entry of the
/// list carries it.
pub proof fn lemma_meta_map_of_domain(s: Seq<ProductMeta>, id: Seq<char>)
    ensures
        meta_map_of(s).contains_key(id) <==> exists|i: int|
            0 <= i < s.len() && (#[trigger] s[i]).product_id@ == id,
    decreases s.len(),
{
    if s.len() > 0 {
        lemma_meta_map_of_domain(s.drop_last(), id);
        if s.last().product_id@ == id {
            assert(s[s.len() - 1].product_id@ == id);
        } else {
            if meta_map_of(s).contains_key(id) {
                let i = choose|i: int|
                    0 <= i < s.drop_last().len() && (#[trigger] s.drop_last()[i]).product_id@
                        == id;
                assert(s[i].product_id@ == id);
            }
            if exists|i: int| 0 <= i < s.len() && (#[trigger] s[i]).product_id@ == id {
                let i = choose|i: int| 0 <= i < s.len() && (#[trigger] s[i]).product_id@ == id;
                assert(s.drop_last()[i].product_id@ == id);
            }
        }
    }
}

/// Law: duplicate product ids resolve by last-write-wins.  If entry `i` is
/// the last occurrence of its product id in the list, the built map holds
/// exactly that entry under the id.
pub proof fn lemma_last_write_wins(s: Seq<ProductMeta>, i: int)
    requires
        0 <= i < s.len(),
        forall|j: int| i < j < s.len() ==> (#[trigger] s[j]).product_id@ != s[i].product_id@,
    ensures
        meta_map_of(s).contains_key(s[i].product_id@),
        meta_map_of(s)[s[i].product_id@] == s[i],
    decreases s.len(),
{
    if i == s.len() - 1 {
    } else {
        assert(s.drop_last()[i] == s[i]);
        lemma_last_write_wins(s.drop_last(), i);
        assert(s.last().product_id@ != s[i].product_id@);
    }
}

/// A metadata list with keys pairwise distinct.
pub open spec fn distinct_ids(s: Seq<ProductMeta>) -> bool {
    forall|i: int, j: int|
        0 <= i < j < s.len() ==> (#[trigger] s[i]).product_id@ != (#[trigger] s[j]).product_id@
}

proof fn lemma_meta_map_of_update(s: Seq<ProductMeta>, i: int, m: ProductMeta)
    requires
        0 <= i < s.len(),
        s[i].product_id@ == m.product_id@,
        distinct_ids(s),
    ensures
        meta_map_of(s.update(i, m)) == meta_map_of(s).insert(m.product_id@, m),
    decreases s.len(),
{
    let key = m.product_id@;
    if i == s.len() - 1 {
        assert(s.update(i, m).drop_last() =~= s.drop_last());
        assert(s.update(i, m).last() == m);
        assert(meta_map_of(s.drop_last()).insert(s.last().product_id@, s.last()).insert(key, m)
            =~= meta_map_of(s.drop_last()).insert(key, m));
    } else {
        assert(s.update(i, m).drop_last() =~= s.drop_last().update(i, m));
        assert(s.update(i, m).last() == s.last());
        assert(forall|p: int, q: int|
            0 <= p < q < s.drop_last().len() ==> (#[trigger] s.drop_last()[p]).product_id@ != (
            #[trigger] s.drop_last()[q]).product_id@);
        assert(s.drop_last()[i] == s[i]);
        lemma_meta_map_of_update(s.drop_last(), i, m);
        let lastk = s.last().product_id@;
        assert(lastk != key);
        assert(meta_map_of(s.drop_last()).insert(key, m).insert(lastk, s.last())
            =~= meta_map_of(s.drop_last()).insert(lastk, s.last()).insert(key, m));
    }
}

proof fn lemma_meta_map_of_card(s: Seq<ProductMeta>)
    requires
        distinct_ids(s),
    ensures
        meta_map_of(s).dom().finite(),
        meta_map_of(s).dom().len() == s.len(),
    decreases s.len(),
{
    if s.len() > 0 {
        assert(forall|p: int, q: int|
            0 <= p < q < s.drop_last().len() ==> (#[trigger] s.drop_last()[p]).product_id@ != (
            #[trigger] s.drop_last()[q]).product_id@);
        lemma_meta_map_of_card(s.drop_last());
        lemma_meta_map_of_domain(s.drop_last(), s.last().product_id@);
        assert(forall|i: int|
            0 <= i < s.drop_last().len() ==> (#[trigger] s.drop_last()[i]).product_id@
                != s.last().product_id@);
        assert(!meta_map_of(s.drop_last()).contains_key(s.last().product_id@));
        assert(meta_map_of(s).dom() =~= meta_map_of(s.drop_last()).dom().insert(
            s.last().product_id@,
        ));
    }
}

/// The product-metadata lookup table, keyed by product id, with
/// last-write-wins on duplicate ids.
pub struct MetaMap {
    entries: Vec<ProductMeta>,
}

impl View for MetaMap {
    type V = Map<Seq<char>, ProductMeta>;

    closed spec fn view(&self) -> Map<Seq<char>, ProductMeta> {
        meta_map_of(self.entries@)
    }
}

impl MetaMap {
    /// Entries hold pairwise distinct product ids.  Constructors establish
    /// this and every method preserves it.
    pub closed spec fn wf(self) -> bool {
        distinct_ids(self.entries@)
    }

    /// An empty map.
    pub fn new() -> (r: MetaMap)
        ensures
            r.wf(),
            r@ == Map::<Seq<char>, ProductMeta>::empty(),
    {
        MetaMap { entries: Vec::new() }
    }

    /// Stores `meta` under its product id, overwriting an entry that
    /// already carries the same id.
    pub fn insert(&mut self, meta: ProductMeta)
        requires
            old(self).wf(),
        ensures
            final(self).wf(),
            final(self)@ == old(self)@.insert(meta.product_id@, meta),
    {
        let n = self.entries.len();
        let mut i: usize = 0;
        while i < n
            invariant
                n == self.entries@.len(),
                i <= n,
                forall|j: int|
                    0 <= j < i ==> (#[trigger] self.entries@[j]).product_id@ != meta.product_id@,
                self.wf(),
                self == old(self),
            decreases n - i,
        {
            if str_eq(self.entries[i].product_id.as_str(), meta.product_id.as_str()) {
                proof {
                    lemma_meta_map_of_update(self.entries@, i as int, meta);
                }
                self.entries.set(i, meta);
                return ;
            }
            i = i + 1;
        }
        proof {
            assert(self.entries@.push(meta).drop_last() =~= self.entries@);
        }
        self.entries.push(meta);
    }

    /// Looks a product id up.
    pub fn get(&self, product_id: &str) -> (r: Option<&ProductMeta>)
        requires
            self.wf(),
        ensures
            match r {
                Some(m) => self@.contains_key(product_id@) && *m == self@[product_id@],
                None => !self@.contains_key(product_id@),
            },
    {
        let n = self.entries.len();
        let mut i: usize = 0;
        while i < n
            invariant
                n == self.entries@.len(),
                i <= n,
                forall|j: int|
                    0 <= j < i ==> (#[trigger] self.entries@[j]).product_id@ != product_id@,
                self.wf(),
            decreases n - i,
        {
            if str_eq(self.entries[i].product_id.as_str(), product_id) {
                proof {
                    lemma_last_write_wins(self.entries@, i as int);
                }
                return Some(&self.entries[i]);
            }
            i = i + 1;
        }
        proof {
            lemma_meta_map_of_domain(self.entries@, product_id@);
        }
        None
    }

    /// The number of distinct product ids held.
    pub fn len(&self) -> (r: usize)
        requires
            self.wf(),
        ensures
            r == self@.dom().len(),
    {
        proof {
            lemma_meta_map_of_card(self.entries@);
        }
        self.entries.len()
    }
}

/// Builds the metadata lookup map of a catalog list: every entry inserted
/// in input order, so that a duplicate id keeps its last occurrence.
pub fn build_product_map(list: &Vec<ProductMeta>) -> (r: MetaMap)
    ensures
        r.wf(),
        r@ == meta_map_of(list@),
{
    let mut r = MetaMap::new();
    let n = list.len();
    let mut i: usize = 0;
    while i < n
        invariant
            n == list@.len(),
            i <= n,
            r.wf(),
            r@ == meta_map_of(list@.take(i as int)),
        decreases n - i,
    {
        proof {
            assert(list@.take(i + 1).drop_last() =~= list@.take(i as int));
            assert(list@.take(i + 1).last() == list@[i as int]);
        }
        r.insert(list[i].clone());
        i = i + 1;
    }
    proof {
        assert(list@.take(n as int) =~= list@);
    }
    r
}

/// Whether a station record is ready: enabled, and its verification
/// indicator absent or equal to the ready marker up to ASCII case.
pub fn is_station_product_ready(item: &StationProduct) -> (r: bool)
    ensures
        r == ready_spec(*item),
{
    if !item.enabled {
        return false;
    }
    match &item.verified {
        Some(v) => eq_ignore_ascii_case(v.as_str(), "READY"),
        None => true,
    }
}

/// Law: a disabled record is never ready, whatever its verification
/// indicator holds.
pub proof fn lemma_disabled_never_ready(p: StationProduct)
    requires
        !p.enabled,
    ensures
        !ready_spec(p),
{
}

/// The ready records of a station list, in input order.
pub open spec fn ready_filter(s: Seq<StationProduct>) -> Seq<StationProduct>
    decreases s.len(),
{
    if s.len() == 0 {
        Seq::<StationProduct>::empty()
    } else if ready_spec(s.last()) {
        ready_filter(s.drop_last()).push(s.last())
    } else {
        ready_filter(s.drop_last())
    }
}

/// Filters a station list to its ready records, and reports the empty
/// catalog as a distinct error when none is left.
pub fn select_ready(products: Vec<StationProduct>) -> (r: Result<
    Vec<StationProduct>,
    LauncherError,
>)
    ensures
        match r {
            Ok(v) => v@ == ready_filter(products@) && v@.len() > 0,
            Err(e) => e == LauncherError::EmptyCatalog && ready_filter(products@).len() == 0,
        },
{
    let mut out: Vec<StationProduct> = Vec::new();
    let n = products.len();
    let mut i: usize = 0;
    while i < n
        invariant
            n == products@.len(),
            i <= n,
            out@ == ready_filter(products@.take(i as int)),
        decreases n - i,
    {
        proof {
            assert(products@.take(i + 1).drop_last() =~= products@.take(i as int));
            assert(products@.take(i + 1).last() == products@[i as int]);
        }
        if is_station_product_ready(&products[i]) {
            out.push(products[i].clone());
        }
        i = i + 1;
    }
    proof {
        assert(products@.take(n as int) =~= products@);
    }
    if out.len() == 0 {
        Err(LauncherError::EmptyCatalog)
    } else {
        Ok(out)
    }
}

/// Whether a record is the virtual desktop entry: by sentinel id, by
/// lower-cased title, or by lower-cased localized display name.
pub fn is_desktop_product(item: &StationProduct, meta: Option<&ProductMeta>) -> (r: bool)
    ensures
        r == is_desktop_spec(*item, meta_ref(meta)),
{
    proof {
        reveal_strlit("");
        assert(""@ =~= Seq::<char>::empty());
    }
    if str_eq(item.product_id.as_str(), "9fd0eb43-b2bb-4ce3-93b8-9df63f209098") {
        proof {
            assert(item.product_id@ == spec_desktop_id());
        }
        return true;
    }
    let title_src: &str = match meta {
        Some(m) => match &m.title {
            Some(t) => t.as_str(),
            None => match &item.title {
                Some(t) => t.as_str(),
                None => "",
            },
        },
        None => match &item.title {
            Some(t) => t.as_str(),
            None => "",
        },
    };
    let lowered = lowercase(title_src);
    if str_eq(lowered.as_str(), "desktop") {
        return true;
    }
    let display_src: &str = match meta {
        Some(m) => match &m.display_name {
            Some(d) => d.as_str(),
            None => "",
        },
        None => "",
    };
    let lowered_display = lowercase(display_src);
    str_eq(lowered_display.as_str(), "рабочий стол")
}

/// The set of product ids among `enabled` whose records belong to the
/// desktop-id set against the metadata map `m`.
pub open spec fn desktop_ids_spec(
    enabled: Seq<StationProduct>,
    m: Map<Seq<char>, ProductMeta>,
) -> Set<Seq<char>> {
    Set::new(
        |id: Seq<char>|
            exists|i: int|
                0 <= i < enabled.len() && (#[trigger] enabled[i]).product_id@ == id
                    && desktop_entry_spec(enabled[i], map_meta(m, id)),
    )
}

/// The set of product ids classified as virtual desktop entries.
pub struct DesktopIdSet {
    ids: Vec<String>,
}

impl View for DesktopIdSet {
    type V = Set<Seq<char>>;

    closed spec fn view(&self) -> Set<Seq<char>> {
        Set::new(
            |id: Seq<char>|
                exists|i: int| 0 <= i < self.ids@.len() && (#[trigger] self.ids@[i])@ == id,
        )
    }
}

impl DesktopIdSet {
    /// An empty set.
    pub fn new() -> (r: DesktopIdSet)
        ensures
            r@ == Set::<Seq<char>>::empty(),
    {
        let r = DesktopIdSet { ids: Vec::new() };
        proof {
            assert(r@ =~= Set::<Seq<char>>::empty());
        }
        r
    }

    /// Adds a product id.
    pub fn insert(&mut self, id: String)
        ensures
            final(self)@ == old(self)@.insert(id@),
    {
        self.ids.push(id);
        proof {
            assert forall|x: Seq<char>| self@.contains(x) implies old(self)@.insert(id@).contains(
                x,
            ) by {
                let i = choose|i: int|
                    0 <= i < self.ids@.len() && (#[trigger] self.ids@[i])@ == x;
                if i < self.ids@.len() - 1 {
                    assert(old(self).ids@[i]@ == x);
                }
            }
            assert forall|x: Seq<char>| old(self)@.insert(id@).contains(x) implies self@.contains(
                x,
            ) by {
                if old(self)@.contains(x) {
                    let i = choose|i: int|
                        0 <= i < old(self).ids@.len() && (#[trigger] old(self).ids@[i])@ == x;
                    assert(self.ids@[i]@ == x);
                } else {
                    assert(self.ids@[self.ids@.len() - 1]@ == x);
                }
            }
            assert(self@ =~= old(self)@.insert(id@));
        }
    }

    /// Whether the set holds a product id.
    pub fn contains(&self, id: &str) -> (r: bool)
        ensures
            r == self@.contains(id@),
    {
        let n = self.ids.len();
        let mut i: usize = 0;
        while i < n
            invariant
                n == self.ids@.len(),
                i <= n,
                forall|j: int| 0 <= j < i ==> (#[trigger] self.ids@[j])@ != id@,
            decreases n - i,
        {
            if str_eq(self.ids[i].as_str(), id) {
                return true;
            }
            i = i + 1;
        }
        false
    }
}

/// Builds the desktop-id set of the ready records: every id whose record
/// carries the explicit default-desktop flag, or classifies as a desktop
/// entry against its metadata.
pub fn build_desktop_set(enabled: &Vec<StationProduct>, product_map: &MetaMap) -> (r: DesktopIdSet)
    requires
        product_map.wf(),
    ensures
        r@ == desktop_ids_spec(enabled@, product_map@),
{
    let mut r = DesktopIdSet::new();
    let n = enabled.len();
    let mut i: usize = 0;
    while i < n
        invariant
            n == enabled@.len(),
            i <= n,
            product_map.wf(),
            r@ == desktop_ids_spec(enabled@.take(i as int), product_map@),
        decreases n - i,
    {
        let item = &enabled[i];
        let meta = product_map.get(item.product_id.as_str());
        let ghost prev = r@;
        let flagged = (match item.use_default_desktop {
            Some(b) => b,
            None => false,
        }) || (match meta {
            Some(m) => match m.use_default_desktop {
                Some(b) => b,
                None => false,
            },
            None => false,
        });
        if flagged || is_desktop_product(item, meta) {
            r.insert(item.product_id.clone());
        }
        proof {
            let part = enabled@.take(i + 1);
            assert(part.drop_last() =~= enabled@.take(i as int));
            assert(part.last() == enabled@[i as int]);
            assert forall|id: Seq<char>| r@.contains(id) implies desktop_ids_spec(
                part,
                product_map@,
            ).contains(id) by {
                if prev.contains(id) {
                    let k = choose|k: int|
                        0 <= k < enabled@.take(i as int).len() && (#[trigger] enabled@.take(
                            i as int,
                        )[k]).product_id@ == id && desktop_entry_spec(
                            enabled@.take(i as int)[k],
                            map_meta(product_map@, id),
                        );
                    assert(part[k].product_id@ == id && desktop_entry_spec(
                        part[k],
                        map_meta(product_map@, id),
                    ));
                } else {
                    assert(part[i as int].product_id@ == id && desktop_entry_spec(
                        part[i as int],
                        map_meta(product_map@, id),
                    ));
                }
            }
            assert forall|id: Seq<char>| desktop_ids_spec(part, product_map@).contains(
                id,
            ) implies r@.contains(id) by {
                let k = choose|k: int|
                    0 <= k < part.len() && (#[trigger] part[k]).product_id@ == id
                        && desktop_entry_spec(part[k], map_meta(product_map@, id));
                if k < i {
                    assert(enabled@.take(i as int)[k] == part[k]);
                    assert(prev.contains(id));
                }
            }
            assert(r@ =~= desktop_ids_spec(part, product_map@));
        }
        i = i + 1;
    }
    proof {
        assert(enabled@.take(n as int) =~= enabled@);
    }
    r
}

fn resolve_fallback_title(item: &StationProduct) -> (r: String)
    ensures
        r@ == fallback_title(*item),
{
    match &item.title {
        Some(t) => t.clone(),
        None => String::from_str("Игра"),
    }
}

/// The remote image URL of a record's metadata entry, if one is present.
pub fn card_picture_of(meta: Option<&ProductMeta>) -> (r: Option<String>)
    ensures
        r == (match meta_ref(meta) {
            Some(m) => m.card_picture,
            None => None::<String>,
        }),
{
    match meta {
        Some(m) => match &m.card_picture {
            Some(u) => Some(u.clone()),
            None => None,
        },
        None => None,
    }
}

/// Builds the display card of one ready record: title by the documented
/// priority, description truncated to the alt text, account and license
/// fields defaulted, and the image URL as previously resolved.
pub fn build_card(item: &StationProduct, meta: Option<&ProductMeta>, image_url: String) -> (c:
    Card)
    ensures
        card_matches(c, *item, meta_ref(meta), image_url@),
{
    proof {
        reveal_strlit("");
        assert(""@ =~= Seq::<char>::empty());
    }
    let title: String = match meta {
        Some(m) => match &m.display_name {
            Some(d) => d.clone(),
            None => match &m.title {
                Some(t) => t.clone(),
                None => resolve_fallback_title(item),
            },
        },
        None => resolve_fallback_title(item),
    };
    let description: &str = match meta {
        Some(m) => match &m.description_ru {
            Some(d) => d.as_str(),
            None => "",
        },
        None => "",
    };
    let alt = truncate_chars(description, 100);
    let required_account: String = match meta {
        Some(m) => match &m.required_account {
            Some(a) => a.clone(),
            None => String::new(),
        },
        None => String::new(),
    };
    let is_free: bool = match meta {
        Some(m) => match m.no_license_requred {
            Some(b) => b,
            None => false,
        },
        None => false,
    };
    let is_desktop = is_desktop_product(item, meta);
    Card {
        product_id: item.product_id.clone(),
        title,
        image_url,
        alt,
        required_account,
        is_free,
        is_desktop,
    }
}

/// Builds the whole card list of the ready records, one card per record,
/// joining each with its metadata entry and its resolved image URL.
pub fn build_cards(
    enabled: &Vec<StationProduct>,
    product_map: &MetaMap,
    image_urls: &Vec<String>,
) -> (r: Vec<Card>)
    requires
        product_map.wf(),
        image_urls@.len() == enabled@.len(),
    ensures
        r@.len() == enabled@.len(),
        forall|i: int|
            0 <= i < enabled@.len() ==> card_matches(
                #[trigger] r@[i],
                enabled@[i],
                map_meta(product_map@, enabled@[i].product_id@),
                image_urls@[i]@,
            ),
{
    let mut out: Vec<Card> = Vec::new();
    let n = enabled.len();
    let mut i: usize = 0;
    while i < n
        invariant
            n == enabled@.len(),
            image_urls@.len() == enabled@.len(),
            i <= n,
            product_map.wf(),
            out@.len() == i,
            forall|k: int|
                0 <= k < i ==> card_matches(
                    #[trigger] out@[k],
                    enabled@[k],
                    map_meta(product_map@, enabled@[k].product_id@),
                    image_urls@[k]@,
                ),
        decreases n - i,
    {
        let item = &enabled[i];
        let meta = product_map.get(item.product_id.as_str());
        let card = build_card(item, meta, image_urls[i].clone());
        out.push(card);
        i = i + 1;
    }
    out
}

} // verus!
