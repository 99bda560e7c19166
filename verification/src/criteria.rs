//! Which windows are wanted: an optional exact title, an optional exact
//! owner name, and a list of owners that are never wanted.

use vstd::prelude::*;
use crate::text::{chars_of, contains_chars, is_substring, lowercase, same_text, to_lowercase};

verus! {

/// Some name of `names` occurs in `text`.
pub open spec fn any_contained(names: Seq<String>, text: Seq<char>) -> bool {
    exists|i: int| 0 <= i < names.len() && is_substring(#[trigger] names[i]@, text)
}

/// The owner `app_name` is ruled out by `names`: the lowercase form of some
/// name occurs in the lowercase form of the owner's name.
pub open spec fn any_ignored(names: Seq<String>, app_name: Seq<char>) -> bool {
    exists|i: int|
        0 <= i < names.len() && is_substring(lowercase(#[trigger] names[i]@), lowercase(app_name))
}

/// `lowered` holds the lowercase form of each name of `names`, in order.
pub open spec fn lowercase_of(names: Seq<String>, lowered: Seq<String>) -> bool {
    &&& lowered.len() == names.len()
    &&& forall|i: int| 0 <= i < names.len() ==> (#[trigger] lowered[i])@ == lowercase(names[i]@)
}

/// The texts that `names` holds, without order or multiplicity.
pub open spec fn name_set(names: Seq<String>) -> Set<Seq<char>> {
    Set::new(|n: Seq<char>| exists|i: int| 0 <= i < names.len() && #[trigger] names[i]@ == n)
}

/// No text occurs twice in `names`.
pub open spec fn distinct_names(names: Seq<String>) -> bool {
    forall|i: int, j: int| 0 <= i < j < names.len() ==> names[i]@ != names[j]@
}

/// The texts of `names`, in order.
pub open spec fn name_texts(names: Seq<String>) -> Seq<Seq<char>> {
    names.map_values(|s: String| s@)
}

/// The owners that are ignored unless the caller says otherwise: parts of the
/// desktop itself, which never carry a window worth an overlay.
pub open spec fn default_ignored() -> Seq<Seq<char>> {
    seq![
        "notification center"@,
        "notificationcenter"@,
        "sketchybar"@,
        "borders"@,
        "control center"@,
        "controlcenter"@,
        "dock"@,
        "menubar"@,
        "spotlight"@,
    ]
}

/// Whether `text` contains one of `names`.
pub fn contains_any(text: &str, names: &Vec<String>) -> (found: bool)
    ensures
        found == any_contained(names@, text@),
{
    let hay = chars_of(text);
    let mut i: usize = 0;
    while i < names.len()
        invariant
            i <= names.len(),
            hay@ == text@,
            forall|j: int| 0 <= j < i ==> !is_substring(#[trigger] names[j]@, text@),
        decreases names.len() - i,
    {
        let needle = chars_of(names[i].as_str());
        if contains_chars(&hay, &needle) {
            return true;
        }
        i += 1;
    }
    false
}

/// The lowercase form of each name, in order.
pub fn lowercase_names(names: &Vec<String>) -> (lowered: Vec<String>)
    ensures
        lowercase_of(names@, lowered@),
{
    let mut lowered: Vec<String> = Vec::new();
    let mut i: usize = 0;
    while i < names.len()
        invariant
            i <= names.len(),
            lowered@.len() == i,
            forall|j: int| 0 <= j < i ==> (#[trigger] lowered@[j])@ == lowercase(names@[j]@),
        decreases names.len() - i,
    {
        lowered.push(to_lowercase(names[i].as_str()));
        i += 1;
    }
    lowered
}

/// Whether a window owned by `app_name` is to be passed over: the owner's
/// name contains one of `ignored_apps`, letter case set aside. Both the
/// owner's name and the entry are compared in their lowercase form.
pub fn should_ignore_app(app_name: &str, ignored_apps: &Vec<String>) -> (ignore: bool)
    ensures
        ignore == any_ignored(ignored_apps@, app_name@),
{
    let app_lower = to_lowercase(app_name);
    let lowered = lowercase_names(ignored_apps);
    let ignore = contains_any(app_lower.as_str(), &lowered);
    proof {
        if any_contained(lowered@, app_lower@) {
            let i = choose|i: int|
                0 <= i < lowered@.len() && is_substring(#[trigger] lowered@[i]@, app_lower@);
            assert(is_substring(lowercase(ignored_apps@[i]@), lowercase(app_name@)));
        }
        if any_ignored(ignored_apps@, app_name@) {
            let i = choose|i: int|
                0 <= i < ignored_apps@.len() && is_substring(
                    lowercase(#[trigger] ignored_apps@[i]@),
                    lowercase(app_name@),
                );
            assert(is_substring(lowered@[i]@, app_lower@));
        }
    }
    ignore
}

/// The default list of ignored owners.
pub fn get_ignored_apps() -> (ignored: Vec<String>)
    ensures
        name_texts(ignored@) == default_ignored(),
{
    let mut ignored: Vec<String> = Vec::new();
    ignored.push("notification center".to_owned());
    ignored.push("notificationcenter".to_owned());
    ignored.push("sketchybar".to_owned());
    ignored.push("borders".to_owned());
    ignored.push("control center".to_owned());
    ignored.push("controlcenter".to_owned());
    ignored.push("dock".to_owned());
    ignored.push("menubar".to_owned());
    ignored.push("spotlight".to_owned());
    ignored
}

/// Whether `names` holds `name`.
pub fn holds_name(names: &Vec<String>, name: &String) -> (held: bool)
    ensures
        held == name_set(names@).contains(name@),
{
    let mut i: usize = 0;
    while i < names.len()
        invariant
            i <= names.len(),
            forall|j: int| 0 <= j < i ==> #[trigger] names[j]@ != name@,
        decreases names.len() - i,
    {
        if names[i] == *name {
            return true;
        }
        i += 1;
    }
    false
}

/// Adds `name` to `names` unless it is there already. A list without
/// repetition stays so.
pub fn insert_name(names: &mut Vec<String>, name: String)
    ensures
        distinct_names(old(names)@) ==> distinct_names(final(names)@),
        name_set(final(names)@) == name_set(old(names)@).insert(name@),
        name_set(old(names)@).contains(name@) ==> final(names)@ == old(names)@,
        !name_set(old(names)@).contains(name@) ==> final(names)@ == old(names)@.push(name),
{
    if !holds_name(names, &name) {
        let ghost before = names@;
        names.push(name);
        assert forall|n: Seq<char>| name_set(names@).contains(n) <==> name_set(before).insert(
            name@,
        ).contains(n) by {
            if name_set(before).contains(n) {
                let i = choose|i: int| 0 <= i < before.len() && #[trigger] before[i]@ == n;
                assert(names@[i]@ == n);
            }
            if n == name@ {
                assert(names@[before.len() as int]@ == n);
            }
        }
    }
}

/// What a `WindowSearchCriteria` asks for.
pub ghost struct CriteriaView {
    /// The title a window must have, if any is asked for.
    pub title: Option<Seq<char>>,
    /// The owner a window must have, if any is asked for.
    pub app_name: Option<Seq<char>>,
    /// The names that rule an owner out.
    pub ignored: Set<Seq<char>>,
}

impl CriteriaView {
    /// The owner `app_name` is ruled out: its lowercase form contains the
    /// lowercase form of an ignored name.
    pub open spec fn ignores(self, app_name: Seq<char>) -> bool {
        exists|n: Seq<char>| #[trigger]
            self.ignored.contains(n) && is_substring(lowercase(n), lowercase(app_name))
    }

    /// The title and the owner are the ones asked for, where any are.
    pub open spec fn selects(self, title: Seq<char>, app_name: Seq<char>) -> bool {
        &&& self.title is Some ==> self.title->Some_0 == title
        &&& self.app_name is Some ==> self.app_name->Some_0 == app_name
    }

    /// A window with this title and owner is wanted.
    pub open spec fn admits(self, title: Seq<char>, app_name: Seq<char>) -> bool {
        !self.ignores(app_name) && self.selects(title, app_name)
    }
}

/// Search criteria for windows. Built from `new` by the `with_` methods.
#[derive(Debug)]
pub struct WindowSearchCriteria {
    title: Option<String>,
    app_name: Option<String>,
    ignored_apps: Vec<String>,
}

impl View for WindowSearchCriteria {
    type V = CriteriaView;

    closed spec fn view(&self) -> CriteriaView {
        CriteriaView {
            title: match self.title {
                Some(t) => Some(t@),
                None => None,
            },
            app_name: match self.app_name {
                Some(a) => Some(a@),
                None => None,
            },
            ignored: name_set(self.ignored_apps@),
        }
    }
}

/// A name of the set rules an owner out exactly when one of the list does.
pub proof fn lemma_any_ignored_by_set(names: Seq<String>, app_name: Seq<char>)
    ensures
        any_ignored(names, app_name) <==> exists|n: Seq<char>| #[trigger]
            name_set(names).contains(n) && is_substring(lowercase(n), lowercase(app_name)),
{
    if any_ignored(names, app_name) {
        let i = choose|i: int|
            0 <= i < names.len() && is_substring(
                lowercase(#[trigger] names[i]@),
                lowercase(app_name),
            );
        assert(name_set(names).contains(names[i]@));
    }
    if exists|n: Seq<char>| #[trigger]
        name_set(names).contains(n) && is_substring(lowercase(n), lowercase(app_name)) {
        let n = choose|n: Seq<char>| #[trigger]
            name_set(names).contains(n) && is_substring(lowercase(n), lowercase(app_name));
        let i = choose|i: int| 0 <= i < names.len() && #[trigger] names[i]@ == n;
        assert(is_substring(lowercase(names[i]@), lowercase(app_name)));
    }
}

impl WindowSearchCriteria {
    #[verifier::type_invariant]
    spec fn ignored_are_distinct(self) -> bool {
        distinct_names(self.ignored_apps@)
    }

    /// Criteria that admit every window.
    pub fn new() -> (criteria: Self)
        ensures
            criteria@ == (CriteriaView { title: None, app_name: None, ignored: Set::empty() }),
    {
        let criteria = Self { title: None, app_name: None, ignored_apps: Vec::new() };
        assert(name_set(criteria.ignored_apps@) =~= Set::empty());
        criteria
    }

    /// Asks for windows with exactly this title.
    pub fn with_title(self, title: &str) -> (criteria: Self)
        ensures
            criteria@ == (CriteriaView { title: Some(title@), ..self@ }),
    {
        proof {
            use_type_invariant(&self);
        }
        Self { title: Some(title.to_owned()), app_name: self.app_name, ignored_apps: self.ignored_apps }
    }

    /// Asks for windows whose owner has exactly this name.
    pub fn with_app_name(self, app_name: &str) -> (criteria: Self)
        ensures
            criteria@ == (CriteriaView { app_name: Some(app_name@), ..self@ }),
    {
        proof {
            use_type_invariant(&self);
        }
        Self { title: self.title, app_name: Some(app_name.to_owned()), ignored_apps: self.ignored_apps }
    }

    /// Replaces the ignored names by those of `ignored_apps`. They are kept as
    /// given; letter case is set aside when an owner is held against them.
    pub fn with_ignored_apps(self, ignored_apps: Vec<String>) -> (criteria: Self)
        ensures
            criteria@ == (CriteriaView { ignored: name_set(ignored_apps@), ..self@ }),
    {
        let mut distinct: Vec<String> = Vec::new();
        let mut i: usize = 0;
        while i < ignored_apps.len()
            invariant
                i <= ignored_apps.len(),
                distinct_names(distinct@),
                name_set(distinct@) == name_set(ignored_apps@.take(i as int)),
            decreases ignored_apps.len() - i,
        {
            let name = ignored_apps[i].clone();
            insert_name(&mut distinct, name);
            proof {
                lemma_name_set_take(ignored_apps@, i as int);
            }
            i += 1;
        }
        assert(ignored_apps@.take(i as int) =~= ignored_apps@);
        Self { title: self.title, app_name: self.app_name, ignored_apps: distinct }
    }

    /// Adds the lowercase form of `app` to the ignored names.
    pub fn add_ignored_app(self, app: &str) -> (criteria: Self)
        ensures
            criteria@ == (CriteriaView { ignored: self@.ignored.insert(lowercase(app@)), ..self@ }),
    {
        proof {
            use_type_invariant(&self);
        }
        let mut ignored_apps = self.ignored_apps;
        insert_name(&mut ignored_apps, to_lowercase(app));
        Self { title: self.title, app_name: self.app_name, ignored_apps }
    }

    /// Whether the title and the owner are the ones asked for, where any are.
    /// The ignored names play no part in this.
    pub fn selects(&self, window_title: &str, window_app_name: &str) -> (selected: bool)
        ensures
            selected == self@.selects(window_title@, window_app_name@),
    {
        let title_matches = match &self.title {
            Some(t) => same_text(window_title, t.as_str()),
            None => true,
        };
        let app_name_matches = match &self.app_name {
            Some(a) => same_text(window_app_name, a.as_str()),
            None => true,
        };
        title_matches && app_name_matches
    }

    /// Whether the owner is ruled out by the ignored names.
    pub fn ignores(&self, window_app_name: &str) -> (ignored: bool)
        ensures
            ignored == self@.ignores(window_app_name@),
    {
        let ignored = should_ignore_app(window_app_name, &self.ignored_apps);
        proof {
            lemma_any_ignored_by_set(self.ignored_apps@, window_app_name@);
            assert(self@.ignored == name_set(self.ignored_apps@));
        }
        ignored
    }

    /// Whether a window with this title and owner is wanted: its owner is not
    /// ignored, and title and owner are the ones asked for, where any are.
    pub fn matches(&self, window_title: &str, window_app_name: &str) -> (wanted: bool)
        ensures
            wanted == self@.admits(window_title@, window_app_name@),
    {
        if self.ignores(window_app_name) {
            return false;
        }
        self.selects(window_title, window_app_name)
    }
}

/// The names among the first `i + 1` of `names` are those among the first `i`
/// and the one at `i`.
pub proof fn lemma_name_set_take(names: Seq<String>, i: int)
    requires
        0 <= i < names.len(),
    ensures
        name_set(names.take(i + 1)) == name_set(names.take(i)).insert(names[i]@),
{
    let a = names.take(i + 1);
    let b = names.take(i);
    assert forall|n: Seq<char>| name_set(a).contains(n) <==> name_set(b).insert(names[i]@).contains(
        n,
    ) by {
        if n == names[i]@ {
            assert(a[i]@ == n);
        }
    }
}

/// A copy of `names`, text for text.
pub fn clone_names(names: &Vec<String>) -> (copy: Vec<String>)
    ensures
        copy@ == names@,
{
    let mut copy: Vec<String> = Vec::new();
    let mut i: usize = 0;
    while i < names.len()
        invariant
            i <= names.len(),
            copy@ == names@.take(i as int),
        decreases names.len() - i,
    {
        copy.push(names[i].clone());
        i += 1;
    }
    copy
}

impl Clone for WindowSearchCriteria {
    fn clone(&self) -> (criteria: Self)
        ensures
            criteria@ == self@,
    {
        proof {
            use_type_invariant(self);
        }
        let title = match &self.title {
            Some(t) => Some(t.clone()),
            None => None,
        };
        let app_name = match &self.app_name {
            Some(a) => Some(a.clone()),
            None => None,
        };
        Self { title, app_name, ignored_apps: clone_names(&self.ignored_apps) }
    }
}

impl Default for WindowSearchCriteria {
    fn default() -> (criteria: Self)
        ensures
            criteria@ == (CriteriaView { title: None, app_name: None, ignored: Set::empty() }),
    {
        Self::new()
    }
}

/// Criteria that ask for nothing and ignore nothing admit every window.
pub proof fn lemma_open_criteria_admit_all(title: Seq<char>, app_name: Seq<char>)
    ensures
        (CriteriaView { title: None, app_name: None, ignored: Set::empty() }).admits(title, app_name),
{
}

/// One more ignored name never lets a window in that was kept out before.
pub proof fn lemma_ignoring_more_admits_less(
    criteria: CriteriaView,
    name: Seq<char>,
    title: Seq<char>,
    app_name: Seq<char>,
)
    ensures
        (CriteriaView { ignored: criteria.ignored.insert(name), ..criteria }).admits(title, app_name)
            ==> criteria.admits(title, app_name),
{
    let more = CriteriaView { ignored: criteria.ignored.insert(name), ..criteria };
    if criteria.ignores(app_name) {
        let n = choose|n: Seq<char>| #[trigger]
            criteria.ignored.contains(n) && is_substring(lowercase(n), lowercase(app_name));
        assert(more.ignored.contains(n));
    }
}

/// A window that is admitted has the title and the owner asked for, and
/// its owner is not ignored.
pub proof fn lemma_admitted_window(criteria: CriteriaView, title: Seq<char>, app_name: Seq<char>)
    requires
        criteria.admits(title, app_name),
    ensures
        criteria.title is Some ==> criteria.title == Some(title),
        criteria.app_name is Some ==> criteria.app_name == Some(app_name),
        forall|n: Seq<char>|
            criteria.ignored.contains(n) ==> !is_substring(lowercase(n), lowercase(app_name)),
{
}

} // verus!
