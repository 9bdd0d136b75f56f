//! The data records of the catalog: a station's assigned-product entry, a
//! catalog-wide metadata entry, a resolved launch descriptor and the
//! display card, together with the spec-level predicates that the
//! aggregation and launch contracts are stated over.

use vstd::prelude::*;

use crate::text::eq_ignore_ascii;
use crate::text::lower_of;
use crate::text::truncated;

verus! {

/// A raw entry of the station's assigned-product list.
pub struct StationProduct {
    pub product_id: String,
    pub enabled: bool,
    pub use_default_desktop: Option<bool>,
    pub game_path: Option<String>,
    pub work_path: Option<String>,
    pub args: Option<String>,
    pub title: Option<String>,
    pub verified: Option<String>,
}

/// A catalog-wide descriptive entry, keyed by product id.
pub struct ProductMeta {
    pub product_id: String,
    pub title: Option<String>,
    pub display_name: Option<String>,
    pub description_ru: Option<String>,
    pub card_picture: Option<String>,
    pub required_account: Option<String>,
    pub no_license_requred: Option<bool>,
    pub use_default_desktop: Option<bool>,
}

/// The resolved launch descriptor of one product.  All three fields default
/// to the empty string, never to an absent value.
pub struct LaunchParams {
    pub exe_path: String,
    pub work_dir: String,
    pub args: String,
}

/// The display-ready projection of one product.
pub struct Card {
    pub product_id: String,
    pub title: String,
    pub image_url: String,
    pub alt: String,
    pub required_account: String,
    pub is_free: bool,
    pub is_desktop: bool,
}

fn clone_opt_string(o: &Option<String>) -> (r: Option<String>)
    ensures
        r == *o,
{
    match o {
        Some(s) => Some(s.clone()),
        None => None,
    }
}

impl Clone for StationProduct {
    fn clone(&self) -> (r: Self)
        ensures
            r == *self,
    {
        StationProduct {
            product_id: self.product_id.clone(),
            enabled: self.enabled,
            use_default_desktop: self.use_default_desktop,
            game_path: clone_opt_string(&self.game_path),
            work_path: clone_opt_string(&self.work_path),
            args: clone_opt_string(&self.args),
            title: clone_opt_string(&self.title),
            verified: clone_opt_string(&self.verified),
        }
    }
}

impl Clone for ProductMeta {
    fn clone(&self) -> (r: Self)
        ensures
            r == *self,
    {
        ProductMeta {
            product_id: self.product_id.clone(),
            title: clone_opt_string(&self.title),
            display_name: clone_opt_string(&self.display_name),
            description_ru: clone_opt_string(&self.description_ru),
            card_picture: clone_opt_string(&self.card_picture),
            required_account: clone_opt_string(&self.required_account),
            no_license_requred: self.no_license_requred,
            use_default_desktop: self.use_default_desktop,
        }
    }
}

impl Clone for LaunchParams {
    fn clone(&self) -> (r: Self)
        ensures
            r == *self,
    {
        LaunchParams {
            exe_path: self.exe_path.clone(),
            work_dir: self.work_dir.clone(),
            args: self.args.clone(),
        }
    }
}

/// The characters of an optional string, the empty sequence when absent.
pub open spec fn or_empty(o: Option<String>) -> Seq<char> {
    match o {
        Some(s) => s@,
        None => Seq::<char>::empty(),
    }
}

/// Lifts an optional metadata reference to an optional value, for use in
/// contracts of functions that take `Option<&ProductMeta>`.
pub open spec fn meta_ref(m: Option<&ProductMeta>) -> Option<ProductMeta> {
    match m {
        Some(r) => Some(*r),
        None => None,
    }
}

/// A station record is ready when it is enabled and its verification
/// indicator, if present, equals the ready marker up to ASCII case.
pub open spec fn ready_spec(p: StationProduct) -> bool {
    &&& p.enabled
    &&& match p.verified {
        Some(v) => eq_ignore_ascii(v@, "READY"@),
        None => true,
    }
}

/// The well-known sentinel product id of the virtual desktop entry.
pub open spec fn spec_desktop_id() -> Seq<char> {
    "9fd0eb43-b2bb-4ce3-93b8-9df63f209098"@
}

/// The title a desktop check reads: the metadata title, else the station
/// record's own title, else empty.
pub open spec fn desktop_title_source(item: StationProduct, meta: Option<ProductMeta>) -> Seq<
    char,
> {
    match meta {
        Some(m) => match m.title {
            Some(t) => t@,
            None => or_empty(item.title),
        },
        None => or_empty(item.title),
    }
}

/// The display name a desktop check reads: the metadata display name, else
/// empty.
pub open spec fn desktop_display_source(meta: Option<ProductMeta>) -> Seq<char> {
    match meta {
        Some(m) => or_empty(m.display_name),
        None => Seq::<char>::empty(),
    }
}

/// A product is the virtual desktop entry when its id equals the sentinel
/// id, or its resolved title lower-cases exactly to `"desktop"`, or its
/// display name lower-cases exactly to the localized desktop name.  The
/// explicit `use_default_desktop` flags play no part: the id and the
/// lower-cased exact matches alone decide.
pub open spec fn is_desktop_spec(item: StationProduct, meta: Option<ProductMeta>) -> bool {
    ||| item.product_id@ == spec_desktop_id()
    ||| lower_of(desktop_title_source(item, meta)) == "desktop"@
    ||| lower_of(desktop_display_source(meta)) == "рабочий стол"@
}

/// Whether the explicit `use_default_desktop` flag is set on the station
/// record or on its metadata entry.
pub open spec fn desktop_flag_set(item: StationProduct, meta: Option<ProductMeta>) -> bool {
    ||| item.use_default_desktop == Some(true)
    ||| match meta {
        Some(m) => m.use_default_desktop == Some(true),
        None => false,
    }
}

/// Whether a ready record belongs to the desktop-id set: either the
/// explicit flag asks for the default desktop, or the record classifies as
/// a desktop entry by id and names.  The flag is honored here, where the
/// launch branch is decided, while the per-card desktop indicator reads
/// only the id and the names.
pub open spec fn desktop_entry_spec(item: StationProduct, meta: Option<ProductMeta>) -> bool {
    desktop_flag_set(item, meta) || is_desktop_spec(item, meta)
}

/// The card title: metadata display name, else metadata title, else the
/// station record's title, else the localized default.
pub open spec fn card_title_spec(item: StationProduct, meta: Option<ProductMeta>) -> Seq<char> {
    match meta {
        Some(m) => match m.display_name {
            Some(d) => d@,
            None => match m.title {
                Some(t) => t@,
                None => fallback_title(item),
            },
        },
        None => fallback_title(item),
    }
}

/// The station record's title, else the localized default title.
pub open spec fn fallback_title(item: StationProduct) -> Seq<char> {
    match item.title {
        Some(t) => t@,
        None => "Игра"@,
    }
}

/// The localized description of the metadata entry, empty when absent.
pub open spec fn description_of(meta: Option<ProductMeta>) -> Seq<char> {
    match meta {
        Some(m) => or_empty(m.description_ru),
        None => Seq::<char>::empty(),
    }
}

/// The required-account field of the metadata entry, empty when absent.
pub open spec fn required_account_of(meta: Option<ProductMeta>) -> Seq<char> {
    match meta {
        Some(m) => or_empty(m.required_account),
        None => Seq::<char>::empty(),
    }
}

/// The license-free marker of the metadata entry, false when absent.
pub open spec fn is_free_of(meta: Option<ProductMeta>) -> bool {
    match meta {
        Some(m) => match m.no_license_requred {
            Some(b) => b,
            None => false,
        },
        None => false,
    }
}

/// A launch descriptor carries exactly the override fields of the station
/// record, each defaulted to the empty string.
pub open spec fn launch_matches(lp: LaunchParams, item: StationProduct) -> bool {
    &&& lp.exe_path@ == or_empty(item.game_path)
    &&& lp.work_dir@ == or_empty(item.work_path)
    &&& lp.args@ == or_empty(item.args)
}

/// A card carries exactly the projection of one ready station record joined
/// with its optional metadata entry and a previously resolved image URL.
pub open spec fn card_matches(
    c: Card,
    item: StationProduct,
    meta: Option<ProductMeta>,
    image: Seq<char>,
) -> bool {
    &&& c.product_id@ == item.product_id@
    &&& c.title@ == card_title_spec(item, meta)
    &&& c.image_url@ == image
    &&& c.alt@ == truncated(description_of(meta), 100)
    &&& c.required_account@ == required_account_of(meta)
    &&& c.is_free == is_free_of(meta)
    &&& c.is_desktop == is_desktop_spec(item, meta)
}

} // verus!
