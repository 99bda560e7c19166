//! From what the compositor reports of each window to the windows that are
//! wanted, as flat values with every gap filled.

use vstd::prelude::*;
use crate::criteria::{clone_names, name_set, CriteriaView, WindowSearchCriteria};

verus! {

/// The bounds text of a window whose record carries no bounds.
pub open spec fn bounds_not_found() -> Seq<char> {
    "bounds_not_found"@
}

/// The bit pattern of the opacity 1.0 as a 64-bit IEEE 754 number: the
/// opacity of a window whose record carries none.
pub const OPAQUE_ALPHA_BITS: u64 = 0x3FF0_0000_0000_0000;

/// One window as the compositor reported it. A field is `None` where the
/// report lacks it or holds a value of another kind.
#[derive(Debug, Clone)]
pub struct WindowRecord {
    pub owner_name: Option<String>,
    pub title: Option<String>,
    /// The bounds, already written out as text.
    pub bounds: Option<String>,
    pub window_number: Option<i64>,
    pub pid: Option<i32>,
    pub layer: Option<i32>,
    /// The bit pattern of the opacity, a 64-bit IEEE 754 number.
    pub alpha_bits: Option<u64>,
    pub sharing_state: Option<i32>,
    pub memory_usage: Option<i64>,
    pub is_onscreen: Option<bool>,
}

/// One wanted window.
#[derive(Debug, Clone)]
pub struct WindowInfo {
    pub title: String,
    pub app_name: String,
    /// Left empty by `find_windows`: the caller looks it up by `pid`.
    pub bundle_identifier: Option<String>,
    pub bounds: String,
    pub window_number: i64,
    pub pid: i32,
    pub layer: i32,
    /// The bit pattern of the opacity, a 64-bit IEEE 754 number.
    pub alpha_bits: u64,
    pub sharing_state: i32,
    pub memory_usage: i64,
    pub is_onscreen: bool,
}

/// What a `WindowInfo` holds.
pub ghost struct WindowInfoView {
    pub title: Seq<char>,
    pub app_name: Seq<char>,
    pub bundle_identifier: Option<Seq<char>>,
    pub bounds: Seq<char>,
    pub window_number: i64,
    pub pid: i32,
    pub layer: i32,
    pub alpha_bits: u64,
    pub sharing_state: i32,
    pub memory_usage: i64,
    pub is_onscreen: bool,
}

impl View for WindowInfo {
    type V = WindowInfoView;

    open spec fn view(&self) -> WindowInfoView {
        WindowInfoView {
            title: self.title@,
            app_name: self.app_name@,
            bundle_identifier: match self.bundle_identifier {
                Some(b) => Some(b@),
                None => None,
            },
            bounds: self.bounds@,
            window_number: self.window_number,
            pid: self.pid,
            layer: self.layer,
            alpha_bits: self.alpha_bits,
            sharing_state: self.sharing_state,
            memory_usage: self.memory_usage,
            is_onscreen: self.is_onscreen,
        }
    }
}

/// The outcome of a search.
#[derive(Debug)]
pub struct WindowSearchResults {
    /// How many windows had an owner that is not ignored.
    pub total_windows: usize,
    /// The wanted windows, in the order in which they were reported.
    pub matched_windows: Vec<WindowInfo>,
}

/// The text of `field`, or `fallback` where there is none.
pub open spec fn text_or(field: Option<String>, fallback: Seq<char>) -> Seq<char> {
    match field {
        Some(s) => s@,
        None => fallback,
    }
}

/// `field`'s value, or `fallback` where there is none.
pub open spec fn value_or<T>(field: Option<T>, fallback: T) -> T {
    match field {
        Some(v) => v,
        None => fallback,
    }
}

impl WindowRecord {
    /// The owner's name; empty where the record has none.
    pub open spec fn owner(self) -> Seq<char> {
        text_or(self.owner_name, Seq::empty())
    }

    /// The window's title; empty where the record has none.
    pub open spec fn title_text(self) -> Seq<char> {
        text_or(self.title, Seq::empty())
    }

    /// The record as a flat value: an absent text is empty, absent bounds
    /// read `bounds_not_found`, an absent number is 0, an absent opacity is
    /// 1.0, a window not reported as on screen is off screen, and the bundle
    /// identifier is left open.
    pub open spec fn info(self) -> WindowInfoView {
        WindowInfoView {
            title: self.title_text(),
            app_name: self.owner(),
            bundle_identifier: None,
            bounds: text_or(self.bounds, bounds_not_found()),
            window_number: value_or(self.window_number, 0),
            pid: value_or(self.pid, 0),
            layer: value_or(self.layer, 0),
            alpha_bits: value_or(self.alpha_bits, OPAQUE_ALPHA_BITS),
            sharing_state: value_or(self.sharing_state, 0),
            memory_usage: value_or(self.memory_usage, 0),
            is_onscreen: value_or(self.is_onscreen, false),
        }
    }

    /// The record as a flat value, with every gap filled.
    pub fn to_info(&self) -> (info: WindowInfo)
        ensures
            info@ == self.info(),
    {
        WindowInfo {
            title: text_or_empty(&self.title),
            app_name: text_or_empty(&self.owner_name),
            bundle_identifier: None,
            bounds: match &self.bounds {
                Some(b) => b.clone(),
                None => "bounds_not_found".to_owned(),
            },
            window_number: self.window_number.unwrap_or(0),
            pid: self.pid.unwrap_or(0),
            layer: self.layer.unwrap_or(0),
            alpha_bits: self.alpha_bits.unwrap_or(OPAQUE_ALPHA_BITS),
            sharing_state: self.sharing_state.unwrap_or(0),
            memory_usage: self.memory_usage.unwrap_or(0),
            is_onscreen: self.is_onscreen.unwrap_or(false),
        }
    }
}

/// A copy of the text of `field`; the empty text where there is none.
pub fn text_or_empty(field: &Option<String>) -> (text: String)
    ensures
        text@ == text_or(*field, Seq::empty()),
{
    match field {
        Some(s) => s.clone(),
        None => String::new(),
    }
}

/// The records that count towards the total: those whose owner is not ignored.
pub open spec fn counted(criteria: CriteriaView) -> spec_fn(WindowRecord) -> bool {
    |r: WindowRecord| !criteria.ignores(r.owner())
}

/// The records of wanted windows.
pub open spec fn wanted(criteria: CriteriaView) -> spec_fn(WindowRecord) -> bool {
    |r: WindowRecord| criteria.admits(r.title_text(), r.owner())
}

/// What `windows` hold, in order.
pub open spec fn info_views(windows: Seq<WindowInfo>) -> Seq<WindowInfoView> {
    windows.map_values(|w: WindowInfo| w@)
}

/// Picks the wanted windows out of `records`.
///
/// The total counts every record whose owner is not ignored. The matched
/// windows are the records that the criteria admit, in the order of
/// `records`, each as a flat value. Every matched window is counted.
pub fn find_windows(criteria: &WindowSearchCriteria, records: &Vec<WindowRecord>) -> (results:
    WindowSearchResults)
    ensures
        results.total_windows == records@.filter(counted(criteria@)).len(),
        info_views(results.matched_windows@) == records@.filter(wanted(criteria@)).map_values(
            |r: WindowRecord| r.info(),
        ),
        results.matched_windows@.len() <= results.total_windows <= records@.len(),
{
    let mut matched_windows: Vec<WindowInfo> = Vec::new();
    let mut total_processed: usize = 0;
    let mut i: usize = 0;
    while i < records.len()
        invariant
            i <= records.len(),
            total_processed == records@.take(i as int).filter(counted(criteria@)).len(),
            matched_windows@.len() <= total_processed <= i,
            info_views(matched_windows@) == records@.take(i as int).filter(
                wanted(criteria@),
            ).map_values(|r: WindowRecord| r.info()),
        decreases records.len() - i,
    {
        let record = &records[i];
        let ghost seen = records@.take(i as int);
        proof {
            assert(records@.take(i + 1) =~= seen.push(*record));
            seen.lemma_filter_push(*record, counted(criteria@));
            seen.lemma_filter_push(*record, wanted(criteria@));
        }
        let app_name = text_or_empty(&record.owner_name);
        if !criteria.ignores(app_name.as_str()) {
            total_processed += 1;
            let title = text_or_empty(&record.title);
            if criteria.matches(title.as_str(), app_name.as_str()) {
                matched_windows.push(record.to_info());
                assert(seen.filter(wanted(criteria@)).push(*record).map_values(
                    |r: WindowRecord| r.info(),
                ) =~= seen.filter(wanted(criteria@)).map_values(|r: WindowRecord| r.info()).push(
                    record.info(),
                ));
            }
        }
        i += 1;
    }
    assert(records@.take(i as int) =~= records@);
    WindowSearchResults { total_windows: total_processed, matched_windows }
}

/// Criteria that ask for nothing and ignore nothing keep every record: all
/// are counted and all are wanted.
pub proof fn lemma_open_criteria_keep_all(records: Seq<WindowRecord>)
    ensures
        records.filter(
            counted((CriteriaView { title: None, app_name: None, ignored: Set::empty() })),
        ) == records,
        records.filter(
            wanted((CriteriaView { title: None, app_name: None, ignored: Set::empty() })),
        ) == records,
    decreases records.len(),
{
    let open = CriteriaView { title: None, app_name: None, ignored: Set::empty() };
    if records.len() > 0 {
        let head = records.drop_last();
        lemma_open_criteria_keep_all(head);
        head.lemma_filter_push(records.last(), counted(open));
        head.lemma_filter_push(records.last(), wanted(open));
        assert(head.push(records.last()) =~= records);
    } else {
        assert(records.filter(counted(open)) =~= records);
        assert(records.filter(wanted(open)) =~= records);
    }
}

/// Every wanted record is counted.
pub proof fn lemma_wanted_is_counted(criteria: CriteriaView, record: WindowRecord)
    requires
        wanted(criteria)(record),
    ensures
        counted(criteria)(record),
{
}

/// The name under which a window without an owner's name is listed.
pub open spec fn unknown_owner() -> Seq<char> {
    "Unknown"@
}

/// The title under which a window without a title is listed.
pub open spec fn no_title() -> Seq<char> {
    "No Title"@
}

/// The title of the windows that get an overlay.
pub open spec fn open_title() -> Seq<char> {
    "Open"@
}

/// The criteria of the search for open dialogs: the title is `Open`, any
/// owner will do unless `ignored` rules it out.
pub open spec fn open_criteria(ignored: Set<Seq<char>>) -> CriteriaView {
    CriteriaView { title: Some(open_title()), app_name: None, ignored }
}

impl WindowRecord {
    /// The owner's name; `Unknown` where the record has none.
    pub open spec fn named_owner(self) -> Seq<char> {
        text_or(self.owner_name, unknown_owner())
    }

    /// The window's title; `No Title` where the record has none.
    pub open spec fn named_title(self) -> Seq<char> {
        text_or(self.title, no_title())
    }

    /// The record as a flat value, listed under `Unknown` and `No Title`
    /// where owner or title are missing; every other gap filled as `info`
    /// fills it.
    pub open spec fn named_info(self) -> WindowInfoView {
        WindowInfoView { title: self.named_title(), app_name: self.named_owner(), ..self.info() }
    }
}

/// `named` is `record` with the gaps in owner and title named, and nothing
/// else changed.
pub open spec fn named_of(record: WindowRecord, named: WindowRecord) -> bool {
    &&& named.owner_name is Some
    &&& named.owner_name->Some_0@ == text_or(record.owner_name, unknown_owner())
    &&& named.title is Some
    &&& named.title->Some_0@ == text_or(record.title, no_title())
    &&& named.bounds == record.bounds
    &&& named.window_number == record.window_number
    &&& named.pid == record.pid
    &&& named.layer == record.layer
    &&& named.alpha_bits == record.alpha_bits
    &&& named.sharing_state == record.sharing_state
    &&& named.memory_usage == record.memory_usage
    &&& named.is_onscreen == record.is_onscreen
}

/// Gives a name to an owner or a title that the record lacks: `Unknown` and
/// `No Title`. It is under these names that the record is held against the
/// criteria and listed.
pub fn name_gaps(record: WindowRecord) -> (named: WindowRecord)
    ensures
        named.owner_name is Some,
        named.owner_name->Some_0@ == text_or(record.owner_name, unknown_owner()),
        named.title is Some,
        named.title->Some_0@ == text_or(record.title, no_title()),
        named.bounds == record.bounds,
        named.window_number == record.window_number,
        named.pid == record.pid,
        named.layer == record.layer,
        named.alpha_bits == record.alpha_bits,
        named.sharing_state == record.sharing_state,
        named.memory_usage == record.memory_usage,
        named.is_onscreen == record.is_onscreen,
{
    let owner_name = match record.owner_name {
        Some(owner) => Some(owner),
        None => Some("Unknown".to_owned()),
    };
    let title = match record.title {
        Some(title) => Some(title),
        None => Some("No Title".to_owned()),
    };
    WindowRecord {
        owner_name,
        title,
        bounds: record.bounds,
        window_number: record.window_number,
        pid: record.pid,
        layer: record.layer,
        alpha_bits: record.alpha_bits,
        sharing_state: record.sharing_state,
        memory_usage: record.memory_usage,
        is_onscreen: record.is_onscreen,
    }
}

/// A copy of a text that may be missing.
pub fn copy_text(field: &Option<String>) -> (copy: Option<String>)
    ensures
        copy == *field,
{
    match field {
        Some(s) => Some(s.clone()),
        None => None,
    }
}

/// Every record with the gaps in owner and title named, in order.
pub fn name_all(records: &Vec<WindowRecord>) -> (named: Vec<WindowRecord>)
    ensures
        named@.len() == records@.len(),
        forall|i: int| 0 <= i < records@.len() ==> named_of(records@[i], #[trigger] named@[i]),
{
    let mut named: Vec<WindowRecord> = Vec::new();
    let mut i: usize = 0;
    while i < records.len()
        invariant
            i <= records.len(),
            named@.len() == i,
            forall|j: int| 0 <= j < i ==> named_of(records@[j], #[trigger] named@[j]),
        decreases records.len() - i,
    {
        let record = &records[i];
        let copy = WindowRecord {
            owner_name: copy_text(&record.owner_name),
            title: copy_text(&record.title),
            bounds: copy_text(&record.bounds),
            window_number: record.window_number,
            pid: record.pid,
            layer: record.layer,
            alpha_bits: record.alpha_bits,
            sharing_state: record.sharing_state,
            memory_usage: record.memory_usage,
            is_onscreen: record.is_onscreen,
        };
        named.push(name_gaps(copy));
        i += 1;
    }
    named
}

/// The records that count towards the total once their gaps are named.
pub open spec fn named_counted(criteria: CriteriaView) -> spec_fn(WindowRecord) -> bool {
    |r: WindowRecord| !criteria.ignores(r.named_owner())
}

/// The records of wanted windows once their gaps are named.
pub open spec fn named_wanted(criteria: CriteriaView) -> spec_fn(WindowRecord) -> bool {
    |r: WindowRecord| criteria.admits(r.named_title(), r.named_owner())
}

/// Searching the named records gives what searching the records under
/// their default names gives.
pub proof fn lemma_search_named(
    records: Seq<WindowRecord>,
    named: Seq<WindowRecord>,
    criteria: CriteriaView,
)
    requires
        named.len() == records.len(),
        forall|i: int| 0 <= i < records.len() ==> named_of(records[i], #[trigger] named[i]),
    ensures
        named.filter(counted(criteria)).len() == records.filter(named_counted(criteria)).len(),
        named.filter(wanted(criteria)).map_values(|r: WindowRecord| r.info()) == records.filter(
            named_wanted(criteria),
        ).map_values(|r: WindowRecord| r.named_info()),
    decreases records.len(),
{
    if records.len() > 0 {
        let r = records.last();
        let n = named.last();
        let rs = records.drop_last();
        let ns = named.drop_last();
        assert forall|i: int| 0 <= i < rs.len() implies named_of(rs[i], #[trigger] ns[i]) by {
            assert(named_of(records[i], named[i]));
        }
        lemma_search_named(rs, ns, criteria);
        assert(named_of(r, n)) by {
            assert(named_of(records[records.len() - 1], named[records.len() - 1]));
        }
        assert(n.owner() == r.named_owner());
        assert(n.title_text() == r.named_title());
        assert(n.info() == r.named_info());
        assert(rs.push(r) =~= records);
        assert(ns.push(n) =~= named);
        rs.lemma_filter_push(r, named_counted(criteria));
        rs.lemma_filter_push(r, named_wanted(criteria));
        ns.lemma_filter_push(n, counted(criteria));
        ns.lemma_filter_push(n, wanted(criteria));
        let kept = ns.filter(wanted(criteria));
        let named_kept = rs.filter(named_wanted(criteria));
        assert(wanted(criteria)(n) == named_wanted(criteria)(r));
        assert(counted(criteria)(n) == named_counted(criteria)(r));
        if wanted(criteria)(n) {
            assert(kept.push(n).map_values(|r: WindowRecord| r.info()) =~= kept.map_values(
                |r: WindowRecord| r.info(),
            ).push(n.info()));
            assert(named_kept.push(r).map_values(|r: WindowRecord| r.named_info())
                =~= named_kept.map_values(|r: WindowRecord| r.named_info()).push(r.named_info()));
        }
    } else {
        assert(named.filter(wanted(criteria)).map_values(|r: WindowRecord| r.info())
            =~= records.filter(named_wanted(criteria)).map_values(
            |r: WindowRecord| r.named_info(),
        ));
    }
}

/// Picks the windows titled `Open` out of `records`.
///
/// A record without an owner's name is taken as owned by `Unknown`, one
/// without a title as titled `No Title`. The total counts every record
/// whose owner is not ruled out by `ignored_apps`. The matched windows are
/// the counted records titled `Open`, in the order of `records`, each as a
/// flat value with every gap filled.
pub fn find_open_windows(ignored_apps: &Vec<String>, records: &Vec<WindowRecord>) -> (results:
    WindowSearchResults)
    ensures
        results.total_windows == records@.filter(
            named_counted(open_criteria(name_set(ignored_apps@))),
        ).len(),
        info_views(results.matched_windows@) == records@.filter(
            named_wanted(open_criteria(name_set(ignored_apps@))),
        ).map_values(|r: WindowRecord| r.named_info()),
        results.matched_windows@.len() <= results.total_windows <= records@.len(),
{
    let criteria = WindowSearchCriteria::new().with_title("Open").with_ignored_apps(
        clone_names(ignored_apps),
    );
    assert(criteria@ == open_criteria(name_set(ignored_apps@)));
    let named = name_all(records);
    proof {
        lemma_search_named(records@, named@, criteria@);
    }
    find_windows(&criteria, &named)
}

} // verus!
