//! The inventory of installed applications: which entries of a directory
//! walk are application bundles, and in what order they are listed.

use crate::request::{slice_text_of, text_of};
use crate::text::{chars_of, push_text, texts};
use vstd::prelude::*;

verus! {

/// How deep below a root the walk goes.
pub const WALK_DEPTH: usize = 4;

/// Whether the walk follows symbolic links.
pub const FOLLOW_LINKS: bool = false;

/// An application, as plain values.
pub struct AppModel {
    pub name: Seq<char>,
    pub path: Seq<char>,
}

/// An entry of a directory walk, as plain values.
pub struct EntryModel {
    pub path: Seq<char>,
    pub extension: Option<Seq<char>>,
    pub file_stem: Option<Seq<char>>,
}

/// An installed application: the name shown for it and where it lies.
#[derive(Clone, Debug)]
pub struct AppInfo {
    pub name: String,
    pub path: String,
}

/// What a directory walk found at one place: the path, and the extension and
/// the stem of its last part where it has them and they are valid text.
pub struct ScannedEntry {
    pub path: String,
    pub extension: Option<String>,
    pub file_stem: Option<String>,
}

impl View for AppInfo {
    type V = AppModel;

    open spec fn view(&self) -> AppModel {
        AppModel { name: self.name@, path: self.path@ }
    }
}

impl View for ScannedEntry {
    type V = EntryModel;

    open spec fn view(&self) -> EntryModel {
        EntryModel {
            path: self.path@,
            extension: text_of(self.extension),
            file_stem: text_of(self.file_stem),
        }
    }
}

/// The applications in a list, as plain values.
pub open spec fn app_models(v: Seq<AppInfo>) -> Seq<AppModel> {
    v.map_values(|a: AppInfo| a@)
}

/// The entries in a list, as plain values.
pub open spec fn entry_models(v: Seq<ScannedEntry>) -> Seq<EntryModel> {
    v.map_values(|e: ScannedEntry| e@)
}

/// The application that an entry stands for, if it is a bundle: its
/// extension is `app`, and its name is its stem, or `Unknown` without one.
pub open spec fn bundle_of(entry: EntryModel) -> Option<AppModel> {
    if entry.extension == Some("app"@) {
        Some(
            AppModel {
                name: match entry.file_stem {
                    Some(stem) => stem,
                    None => "Unknown"@,
                },
                path: entry.path,
            },
        )
    } else {
        None
    }
}

/// The applications among `entries`, in the order of the walk.
pub open spec fn bundles(entries: Seq<EntryModel>) -> Seq<AppModel>
    decreases entries.len(),
{
    if entries.len() == 0 {
        Seq::empty()
    } else {
        match bundle_of(entries.last()) {
            Some(app) => bundles(entries.drop_last()).push(app),
            None => bundles(entries.drop_last()),
        }
    }
}

/// The lower-case form of a text, as `str::to_lowercase` gives it.
pub uninterp spec fn lowercase(s: Seq<char>) -> Seq<char>;

/// `str::to_lowercase` returns the lower-case form of its argument. Which
/// characters that form holds is the standard library's matter; the crate
/// only relies on equal texts having equal forms.
pub assume_specification[ str::to_lowercase ](s: &str) -> (r: String)
    ensures
        r@ == lowercase(s@),
;

/// Whether `a` comes no later than `b` in the order of texts: character by
/// character by code point, a text before every text that it begins.
pub open spec fn text_le(a: Seq<char>, b: Seq<char>) -> bool
    decreases a.len(),
{
    if a.len() == 0 {
        true
    } else if b.len() == 0 {
        false
    } else if a[0] != b[0] {
        (a[0] as int) < (b[0] as int)
    } else {
        text_le(a.drop_first(), b.drop_first())
    }
}

/// The text by which an application is ordered: its name in lower case.
pub open spec fn sort_key(app: AppModel) -> Seq<char> {
    lowercase(app.name)
}

/// The place of `app` in `list`: the number of applications at the front
/// of `list` that come before it.
pub open spec fn place_by_name(list: Seq<AppModel>, app: AppModel) -> int
    decreases list.len(),
{
    if list.len() == 0 || text_le(sort_key(app), sort_key(list[0])) {
        0
    } else {
        1 + place_by_name(list.drop_first(), app)
    }
}

/// `list` with `app` put in front of the first application that does not
/// come before it.
pub open spec fn insert_by_name(list: Seq<AppModel>, app: AppModel) -> Seq<AppModel> {
    list.insert(place_by_name(list, app), app)
}

/// `list` ordered by name in lower case; applications whose keys are equal
/// stay in the order they had.
pub open spec fn sorted_by_name(list: Seq<AppModel>) -> Seq<AppModel>
    decreases list.len(),
{
    if list.len() == 0 {
        Seq::empty()
    } else {
        insert_by_name(sorted_by_name(list.drop_first()), list[0])
    }
}

/// `list` without each application that has the path of the one before it.
pub open spec fn dedup_by_path(list: Seq<AppModel>) -> Seq<AppModel>
    decreases list.len(),
{
    if list.len() <= 1 {
        list
    } else if list[list.len() - 2].path == list.last().path {
        dedup_by_path(list.drop_last())
    } else {
        dedup_by_path(list.drop_last()).push(list.last())
    }
}

/// The inventory made from the entries of a walk.
pub open spec fn inventory(entries: Seq<EntryModel>) -> Seq<AppModel> {
    dedup_by_path(sorted_by_name(bundles(entries)))
}

/// Whether `list` is in the order of its keys.
pub open spec fn ordered_by_name(list: Seq<AppModel>) -> bool {
    forall|i: int, j: int|
        0 <= i < j < list.len() ==> text_le(sort_key(#[trigger] list[i]), sort_key(#[trigger] list[j]))
}

/// The directory of a user's own applications below the home directory
/// `home`.
pub open spec fn home_applications(home: Seq<char>) -> Seq<char> {
    if home.len() == 0 || home.last() == '/' {
        home + "Applications"@
    } else {
        home + "/Applications"@
    }
}

/// The directories that are searched for applications: the system's three,
/// then the user's own where a home directory is known.
pub open spec fn scan_root_texts(home: Option<Seq<char>>) -> Seq<Seq<char>> {
    let system = seq![
        "/Applications"@,
        "/System/Applications"@,
        "/System/Applications/Utilities"@,
    ];
    match home {
        Some(h) => system.push(home_applications(h)),
        None => system,
    }
}

/// Tells whether text `a` comes no later than text `b`.
pub fn text_no_later(a: &Vec<char>, b: &Vec<char>) -> (r: bool)
    ensures
        r == text_le(a@, b@),
{
    let mut i: usize = 0;
    proof {
        assert(a@.skip(0) =~= a@);
        assert(b@.skip(0) =~= b@);
    }
    while i < a.len() && i < b.len() && a[i] == b[i]
        invariant
            i <= a.len(),
            i <= b.len(),
            text_le(a@, b@) == text_le(a@.skip(i as int), b@.skip(i as int)),
        decreases a.len() - i,
    {
        proof {
            let ra = a@.skip(i as int);
            let rb = b@.skip(i as int);
            assert(ra.drop_first() =~= a@.skip(i + 1));
            assert(rb.drop_first() =~= b@.skip(i + 1));
        }
        i += 1;
    }
    if i == a.len() {
        true
    } else if i == b.len() {
        false
    } else {
        a[i] < b[i]
    }
}

/// Appends to `out` the application bundles among `entries`, in the order
/// in which the walk met them.
pub fn scan_dir_for_apps(entries: &Vec<ScannedEntry>, out: &mut Vec<AppInfo>)
    ensures
        app_models(final(out)@) == app_models(old(out)@) + bundles(entry_models(entries@)),
{
    let ghost all = entry_models(entries@);
    let bundle_extension = String::from_str("app");
    let mut i: usize = 0;
    assert(all.take(0) =~= Seq::<EntryModel>::empty());
    assert(app_models(out@) =~= app_models(old(out)@) + bundles(all.take(0)));
    while i < entries.len()
        invariant
            i <= entries.len(),
            all == entry_models(entries@),
            bundle_extension@ == "app"@,
            app_models(out@) == app_models(old(out)@) + bundles(all.take(i as int)),
        decreases entries.len() - i,
    {
        let entry = &entries[i];
        let ghost before = out@;
        proof {
            assert(all.take(i + 1).drop_last() =~= all.take(i as int));
            assert(all.take(i + 1).last() == entry@);
        }
        let is_bundle = match &entry.extension {
            Some(extension) => *extension == bundle_extension,
            None => false,
        };
        if is_bundle {
            let name = match &entry.file_stem {
                Some(stem) => stem.clone(),
                None => String::from_str("Unknown"),
            };
            out.push(AppInfo { name, path: entry.path.clone() });
            assert(app_models(out@) =~= app_models(before).push(bundle_of(entry@)->0));
        }
        assert(app_models(out@) =~= app_models(old(out)@) + bundles(all.take(i + 1)));
        i += 1;
    }
    assert(all.take(entries.len() as int) =~= all);
}

proof fn lemma_place_is(list: Seq<AppModel>, app: AppModel, p: int)
    requires
        0 <= p <= list.len(),
        forall|i: int| 0 <= i < p ==> !text_le(sort_key(app), sort_key(#[trigger] list[i])),
        p < list.len() ==> text_le(sort_key(app), sort_key(list[p])),
    ensures
        place_by_name(list, app) == p,
    decreases p,
{
    if p > 0 {
        assert(!text_le(sort_key(app), sort_key(list[0])));
        let rest = list.drop_first();
        assert forall|i: int| 0 <= i < p - 1 implies !text_le(
            sort_key(app),
            sort_key(#[trigger] rest[i]),
        ) by {
            assert(rest[i] == list[i + 1]);
        }
        lemma_place_is(rest, app, p - 1);
    }
}

proof fn lemma_place_bounds(list: Seq<AppModel>, app: AppModel)
    ensures
        0 <= place_by_name(list, app) <= list.len(),
        forall|i: int|
            0 <= i < place_by_name(list, app) ==> !text_le(
                sort_key(app),
                sort_key(#[trigger] list[i]),
            ),
        place_by_name(list, app) < list.len() ==> text_le(
            sort_key(app),
            sort_key(list[place_by_name(list, app)]),
        ),
    decreases list.len(),
{
    if list.len() == 0 || text_le(sort_key(app), sort_key(list[0])) {
    } else {
        let rest = list.drop_first();
        lemma_place_bounds(rest, app);
        let p = place_by_name(list, app);
        assert forall|i: int| 0 <= i < p implies !text_le(
            sort_key(app),
            sort_key(#[trigger] list[i]),
        ) by {
            if i > 0 {
                assert(list[i] == rest[i - 1]);
            }
        }
        if p < list.len() {
            assert(list[p] == rest[p - 1]);
        }
    }
}

/// Of two texts one comes no later than the other.
pub proof fn lemma_text_le_total(a: Seq<char>, b: Seq<char>)
    ensures
        text_le(a, b) || text_le(b, a),
    decreases a.len(),
{
    if a.len() > 0 && b.len() > 0 {
        if a[0] == b[0] {
            lemma_text_le_total(a.drop_first(), b.drop_first());
        }
    }
}

/// The order of texts has no loops: what comes no later than a text that
/// comes no later than a third comes no later than the third.
pub proof fn lemma_text_le_transitive(a: Seq<char>, b: Seq<char>, c: Seq<char>)
    requires
        text_le(a, b),
        text_le(b, c),
    ensures
        text_le(a, c),
    decreases a.len(),
{
    if a.len() > 0 && a[0] == b[0] && b[0] == c[0] {
        lemma_text_le_transitive(a.drop_first(), b.drop_first(), c.drop_first());
    }
}

proof fn lemma_insert_keeps_order(list: Seq<AppModel>, app: AppModel)
    requires
        ordered_by_name(list),
    ensures
        ordered_by_name(insert_by_name(list, app)),
{
    let p = place_by_name(list, app);
    let r = insert_by_name(list, app);
    lemma_place_bounds(list, app);
    assert forall|i: int, j: int| 0 <= i < j < r.len() implies text_le(
        sort_key(#[trigger] r[i]),
        sort_key(#[trigger] r[j]),
    ) by {
        if j < p {
            assert(r[i] == list[i] && r[j] == list[j]);
        } else if j == p {
            assert(r[i] == list[i]);
            lemma_text_le_total(sort_key(app), sort_key(list[i]));
        } else if i < p {
            assert(r[i] == list[i] && r[j] == list[j - 1]);
        } else if i == p {
            assert(r[j] == list[j - 1]);
            if j - 1 > p {
                assert(text_le(sort_key(list[p]), sort_key(list[j - 1])));
                lemma_text_le_transitive(sort_key(app), sort_key(list[p]), sort_key(list[j - 1]));
            }
        } else {
            assert(r[i] == list[i - 1] && r[j] == list[j - 1]);
        }
    }
}

/// What `sorted_by_name` gives is in the order of its keys.
pub proof fn lemma_sorted_is_ordered(list: Seq<AppModel>)
    ensures
        ordered_by_name(sorted_by_name(list)),
    decreases list.len(),
{
    if list.len() > 0 {
        lemma_sorted_is_ordered(list.drop_first());
        lemma_insert_keeps_order(sorted_by_name(list.drop_first()), list[0]);
    }
}

/// `sorted_by_name` neither drops nor adds nor changes an application.
pub proof fn lemma_sorted_keeps_all(list: Seq<AppModel>)
    ensures
        sorted_by_name(list).to_multiset() == list.to_multiset(),
        sorted_by_name(list).len() == list.len(),
    decreases list.len(),
{
    if list.len() > 0 {
        let rest = list.drop_first();
        let sorted = sorted_by_name(rest);
        lemma_sorted_keeps_all(rest);
        lemma_place_bounds(sorted, list[0]);
        vstd::seq_lib::to_multiset_insert(sorted, place_by_name(sorted, list[0]), list[0]);
        vstd::seq_lib::to_multiset_insert(rest, 0, list[0]);
        assert(rest.insert(0, list[0]) =~= list);
    } else {
        assert(list =~= Seq::<AppModel>::empty());
    }
}

/// Applications that are in order already stay as they are: among equal
/// keys the sort keeps the order that it found.
pub proof fn lemma_sorted_of_ordered(list: Seq<AppModel>)
    requires
        ordered_by_name(list),
    ensures
        sorted_by_name(list) == list,
    decreases list.len(),
{
    if list.len() > 0 {
        let rest = list.drop_first();
        assert forall|i: int, j: int| 0 <= i < j < rest.len() implies text_le(
            sort_key(#[trigger] rest[i]),
            sort_key(#[trigger] rest[j]),
        ) by {
            assert(rest[i] == list[i + 1] && rest[j] == list[j + 1]);
        }
        lemma_sorted_of_ordered(rest);
        if rest.len() > 0 {
            assert(rest[0] == list[1]);
            assert(text_le(sort_key(list[0]), sort_key(list[1])));
        }
        assert(rest.insert(0, list[0]) =~= list);
    }
}

/// In what `dedup_by_path` gives, no application has the path of the one
/// before it; and the last one is the last one of the list it was made from.
pub proof fn lemma_dedup_has_no_repeats(list: Seq<AppModel>)
    ensures
        forall|i: int|
            0 < i < dedup_by_path(list).len() ==> dedup_by_path(list)[i - 1].path != (
            #[trigger] dedup_by_path(list)[i]).path,
        list.len() > 0 ==> dedup_by_path(list).len() > 0 && dedup_by_path(list).last().path
            == list.last().path,
        dedup_by_path(list).len() <= list.len(),
    decreases list.len(),
{
    if list.len() > 1 {
        let shorter = list.drop_last();
        lemma_dedup_has_no_repeats(shorter);
        assert(shorter.last() == list[list.len() - 2]);
    }
}

fn sort_by_name(apps: Vec<AppInfo>) -> (out: Vec<AppInfo>)
    ensures
        app_models(out@) == sorted_by_name(app_models(apps@)),
{
    let ghost given = app_models(apps@);
    let mut apps = apps;
    let mut out: Vec<AppInfo> = Vec::new();
    let mut keys: Vec<Vec<char>> = Vec::new();
    proof {
        assert(given.skip(given.len() as int) =~= Seq::<AppModel>::empty());
        assert(app_models(out@) =~= Seq::<AppModel>::empty());
    }
    while apps.len() > 0
        invariant
            app_models(apps@) == given.take(apps.len() as int),
            apps.len() <= given.len(),
            app_models(out@) == sorted_by_name(given.skip(apps.len() as int)),
            keys.len() == out.len(),
            forall|i: int| 0 <= i < keys.len() ==> (#[trigger] keys[i])@ == sort_key(out[i]@),
        decreases apps.len(),
    {
        let ghost n = apps.len() as int;
        let ghost held = app_models(apps@);
        let app = apps.pop().unwrap();
        proof {
            assert(app@ == held[n - 1]);
            assert(app@ == given[n - 1]);
            assert(app_models(apps@) =~= given.take(n - 1));
            assert(given.skip(n - 1).drop_first() =~= given.skip(n));
        }
        let key = chars_of(app.name.to_lowercase().as_str());
        let mut p: usize = 0;
        while p < keys.len() && !text_no_later(&key, &keys[p])
            invariant
                p <= keys.len(),
                forall|i: int| 0 <= i < p ==> !text_le(key@, (#[trigger] keys[i])@),
            decreases keys.len() - p,
        {
            p += 1;
        }
        proof {
            let list = app_models(out@);
            assert forall|i: int| 0 <= i < p implies !text_le(
                sort_key(app@),
                sort_key(#[trigger] list[i]),
            ) by {
                assert(keys[i]@ == sort_key(out[i]@));
            }
            if p < keys.len() {
                assert(keys[p as int]@ == sort_key(out[p as int]@));
            }
            lemma_place_is(list, app@, p as int);
        }
        let ghost before = out@;
        let ghost app_model = app@;
        out.insert(p, app);
        keys.insert(p, key);
        proof {
            assert(app_models(out@) =~= app_models(before).insert(p as int, app_model));
        }
    }
    proof {
        assert(given.skip(0) =~= given);
    }
    out
}

fn dedup_paths(apps: Vec<AppInfo>) -> (out: Vec<AppInfo>)
    ensures
        app_models(out@) == dedup_by_path(app_models(apps@)),
{
    let ghost input = apps@;
    let ghost given = app_models(apps@);
    let mut out: Vec<AppInfo> = Vec::new();
    proof {
        assert(app_models(out@) =~= dedup_by_path(given.take(0)));
    }
    for app in it: apps
        invariant
            it.seq() == input,
            given == app_models(input),
            app_models(out@) == dedup_by_path(given.take(it.index() as int)),
            it.index() > 0 ==> out.len() > 0 && out[out.len() - 1]@.path == given[it.index()
                - 1].path,
    {
        let ghost i = it.index() as int;
        let ghost before = out@;
        proof {
            assert(app@ == given[i]);
            assert(given.take(i + 1).drop_last() =~= given.take(i));
            assert(given.take(i + 1).last() == given[i]);
            if i > 0 {
                assert(given.take(i + 1)[i - 1] == given[i - 1]);
            }
        }
        let n = out.len();
        if n == 0 || out[n - 1].path != app.path {
            out.push(app);
            proof {
                assert(app_models(out@) =~= app_models(before).push(given[i]));
                if i == 0 {
                    assert(given.take(1) =~= seq![given[0]]);
                    assert(app_models(before) =~= Seq::<AppModel>::empty());
                }
            }
        }
    }
    proof {
        assert(given.take(given.len() as int) =~= given);
    }
    out
}

/// Makes the inventory from the entries of a walk over the scan roots: the
/// bundles among them, ordered by name without regard to case, each path
/// listed once where its entries end up next to each other.
pub fn list_macos_apps(entries: &Vec<ScannedEntry>) -> (apps: Vec<AppInfo>)
    ensures
        app_models(apps@) == inventory(entry_models(entries@)),
{
    let mut apps: Vec<AppInfo> = Vec::new();
    assert(app_models(apps@) =~= Seq::<AppModel>::empty());
    scan_dir_for_apps(entries, &mut apps);
    assert(app_models(apps@) =~= bundles(entry_models(entries@)));
    dedup_paths(sort_by_name(apps))
}

/// Names the directory of a user's own applications below `home`.
pub fn home_applications_dir(home: &str) -> (r: String)
    ensures
        r@ == home_applications(home@),
{
    let chars = chars_of(home);
    let n = chars.len();
    let mut r = String::from_str(home);
    if n == 0 || chars[n - 1] == '/' {
        r.append("Applications");
    } else {
        r.append("/Applications");
    }
    r
}

/// Lists the directories to search, given the home directory if one is
/// known.
pub fn scan_roots(home: Option<&str>) -> (roots: Vec<String>)
    ensures
        texts(roots@) == scan_root_texts(slice_text_of(home)),
{
    let mut roots: Vec<String> = Vec::new();
    assert(texts(roots@) =~= Seq::<Seq<char>>::empty());
    push_text(&mut roots, "/Applications");
    push_text(&mut roots, "/System/Applications");
    push_text(&mut roots, "/System/Applications/Utilities");
    match home {
        Some(h) => {
            push_text(&mut roots, home_applications_dir(h).as_str());
        },
        None => {},
    }
    assert(texts(roots@) =~= scan_root_texts(slice_text_of(home)));
    roots
}

/// Calls `dirs::home_dir` and gives the path as text, with replacement
/// characters where it is no valid Unicode. Nothing is claimed of the
/// result: it depends on the environment of the process.
#[verifier::external_body]
fn home_dir() -> (home: Option<String>) {
    dirs::home_dir().map(|path| path.to_string_lossy().into_owned())
}

/// Lists the directories to search for the user who runs the program: the
/// system's three, and the user's own if the home directory can be found.
pub fn default_scan_roots() -> (roots: Vec<String>)
    ensures
        exists|home: Option<Seq<char>>| texts(roots@) == scan_root_texts(home),
{
    let roots = match home_dir() {
        Some(home) => scan_roots(Some(home.as_str())),
        None => scan_roots(None),
    };
    roots
}

} // verus!
