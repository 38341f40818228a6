//! The pollable manifest: a mapping from URL path to freshness token for
//! every file under the served root, except files below hidden or
//! `node_modules` components — those are covered by an explicit exclusion
//! list, so their absence from the mapping does not read as nonexistence.

use vstd::prelude::*;
use crate::etag::{dec_digits, freshness_token};

verus! {

/// One entry the directory walk found: its path relative to the served
/// root, split into components, whether it is a regular file, and its
/// last-modified time in seconds after the epoch.
pub struct WalkEntry {
    pub components: Vec<String>,
    pub is_file: bool,
    pub mtime_secs: u64,
}

/// The mathematical content of a [`WalkEntry`].
#[verifier::ext_equal]
pub ghost struct WalkEntryView {
    pub components: Seq<Seq<char>>,
    pub is_file: bool,
    pub mtime_secs: u64,
}

impl View for WalkEntry {
    type V = WalkEntryView;

    open spec fn view(&self) -> WalkEntryView {
        WalkEntryView {
            components: self.components@.map_values(|c: String| c@),
            is_file: self.is_file,
            mtime_secs: self.mtime_secs,
        }
    }
}

/// The views of a sequence of walked entries.
pub open spec fn entry_views(entries: Seq<WalkEntry>) -> Seq<WalkEntryView> {
    entries.map_values(|e: WalkEntry| e@)
}

/// The views of a mapping held as string pairs.
pub open spec fn pair_views(pairs: Seq<(String, String)>) -> Seq<(Seq<char>, Seq<char>)> {
    pairs.map_values(|p: (String, String)| (p.0@, p.1@))
}

/// The views of a list of strings.
pub open spec fn string_views(strings: Seq<String>) -> Seq<Seq<char>> {
    strings.map_values(|s: String| s@)
}

/// A name the walk treats as hidden: it starts with a dot.
pub open spec fn hidden_name(name: Seq<char>) -> bool {
    name.len() > 0 && name[0] == '.'
}

/// The name of a build-artifact subtree the walk never descends into.
pub open spec fn node_modules_name(name: Seq<char>) -> bool {
    name == "node_modules"@
}

/// A path component that keeps everything below it out of the mapping.
pub open spec fn excluded_component(c: Seq<char>) -> bool {
    hidden_name(c) || node_modules_name(c)
}

/// An entry below a hidden or `node_modules` component stays out of the
/// mapping.
pub open spec fn entry_excluded(e: WalkEntryView) -> bool {
    exists|i: int| 0 <= i < e.components.len() && excluded_component(#[trigger] e.components[i])
}

/// An entry the mapping covers: a regular file on an unexcluded path.
pub open spec fn entry_included(e: WalkEntryView) -> bool {
    e.is_file && !entry_excluded(e)
}

/// True when the walk treats this file or directory name as hidden.
pub fn is_hidden(name: &str) -> (r: bool)
    ensures
        r == hidden_name(name@),
{
    let n = name.unicode_len();
    n > 0 && name.get_char(0) == '.'
}

/// True when this name is the `node_modules` build-artifact directory.
pub fn is_node_modules(name: &str) -> (r: bool)
    ensures
        r == node_modules_name(name@),
{
    let a: String = name.to_owned();
    let b: String = "node_modules".to_owned();
    a == b
}

/// The URL path of a relative path given by components: a leading slash
/// before each component.
pub open spec fn url_path(components: Seq<Seq<char>>) -> Seq<char>
    decreases components.len(),
{
    if components.len() == 0 {
        Seq::empty()
    } else {
        seq!['/'] + components[0] + url_path(components.drop_first())
    }
}

proof fn lemma_url_path_push(components: Seq<Seq<char>>, c: Seq<char>)
    ensures
        url_path(components.push(c)) == url_path(components) + seq!['/'] + c,
    decreases components.len(),
{
    if components.len() == 0 {
        let p = components.push(c);
        assert(p.drop_first() =~= Seq::<Seq<char>>::empty());
        assert(p[0] == c);
        assert(url_path(p.drop_first()) == Seq::<char>::empty());
        assert(url_path(p) == seq!['/'] + c + url_path(p.drop_first()));
        assert(url_path(components.push(c)) =~= url_path(components) + seq!['/'] + c);
    } else {
        assert(components.push(c).drop_first() =~= components.drop_first().push(c));
        lemma_url_path_push(components.drop_first(), c);
        assert(url_path(components.push(c)) =~= url_path(components) + seq!['/'] + c);
    }
}

/// Index of the first excluded component, or the component count when
/// none is excluded.
pub open spec fn first_excluded(components: Seq<Seq<char>>) -> int
    decreases components.len(),
{
    if components.len() == 0 {
        0
    } else if excluded_component(components[0]) {
        0
    } else {
        1 + first_excluded(components.drop_first())
    }
}

proof fn lemma_first_excluded_at(components: Seq<Seq<char>>, k: int)
    requires
        0 <= k <= components.len(),
        forall|j: int| 0 <= j < k ==> !excluded_component(#[trigger] components[j]),
        k < components.len() ==> excluded_component(components[k]),
    ensures
        first_excluded(components) == k,
    decreases k,
{
    if components.len() != 0 && k > 0 {
        let t = components.drop_first();
        assert(forall|j: int| 0 <= j < k - 1 ==> !excluded_component(#[trigger] t[j]));
        lemma_first_excluded_at(t, k - 1);
    }
}

/// The exclusion-list prefix that covers an excluded entry: the URL path
/// of its components up to and including the first excluded one, closed
/// with a slash.
pub open spec fn exclusion_prefix(e: WalkEntryView) -> Seq<char> {
    url_path(e.components.take(first_excluded(e.components) + 1)) + seq!['/']
}

/// The mapping rows of the manifest, one per included entry, in walk
/// order: the entry's URL path and its freshness token.
pub open spec fn manifest_files(entries: Seq<WalkEntryView>) -> Seq<(Seq<char>, Seq<char>)>
    decreases entries.len(),
{
    if entries.len() == 0 {
        Seq::empty()
    } else {
        let rest = manifest_files(entries.drop_last());
        let e = entries.last();
        if entry_included(e) {
            rest.push((url_path(e.components), dec_digits(e.mtime_secs as nat)))
        } else {
            rest
        }
    }
}

/// The URL prefixes the mapping never covers, whatever stands on disk:
/// the dependency mount and the built-in worker scripts.
pub open spec fn static_exclusions() -> Seq<Seq<char>> {
    seq!["/deps/"@, "/mho-client.js"@, "/mho-worker.js"@]
}

/// The full exclusion list: the static prefixes, then one prefix for each
/// excluded entry the walk saw, in walk order and without repetition.
pub open spec fn manifest_exclusions(entries: Seq<WalkEntryView>) -> Seq<Seq<char>>
    decreases entries.len(),
{
    if entries.len() == 0 {
        static_exclusions()
    } else {
        let rest = manifest_exclusions(entries.drop_last());
        let e = entries.last();
        if entry_excluded(e) && !rest.contains(exclusion_prefix(e)) {
            rest.push(exclusion_prefix(e))
        } else {
            rest
        }
    }
}

/// The manifest served to clients: the freshness mapping and the explicit
/// exclusion list. A URL absent from the mapping and not under any
/// excluded prefix does not exist.
pub struct Manifest {
    pub files: Vec<(String, String)>,
    pub excluded: Vec<String>,
}

/// The URL path of `components[..up_to]` as a string.
#[verifier::loop_isolation(false)]
fn url_path_string(components: &Vec<String>, up_to: usize) -> (r: String)
    requires
        up_to <= components.len(),
    ensures
        r@ == url_path(components@.map_values(|c: String| c@).take(up_to as int)),
{
    let ghost cs = components@.map_values(|c: String| c@);
    let mut r = String::new();
    let mut i: usize = 0;
    proof {
        assert(cs.take(0) =~= Seq::<Seq<char>>::empty());
    }
    while i < up_to
        invariant
            i <= up_to,
            r@ == url_path(cs.take(i as int)),
        decreases up_to - i,
    {
        r.append("/");
        r.append(components[i].as_str());
        proof {
            reveal_strlit("/");
            assert("/"@ =~= seq!['/']);
            assert(cs.take(i + 1) =~= cs.take(i as int).push(cs[i as int]));
            lemma_url_path_push(cs.take(i as int), cs[i as int]);
            assert(r@ =~= url_path(cs.take(i + 1)));
        }
        i += 1;
    }
    r
}

/// Index of the first excluded component, by scan.
#[verifier::loop_isolation(false)]
fn first_excluded_index(components: &Vec<String>) -> (i: usize)
    ensures
        i as int == first_excluded(string_views(components@)),
        i <= components.len(),
        forall|j: int| 0 <= j < i ==> !excluded_component(#[trigger] string_views(components@)[j]),
        i < components.len() ==> excluded_component(string_views(components@)[i as int]),
{
    let ghost cs = string_views(components@);
    let count = components.len();
    let mut i: usize = 0;
    while i < count
        invariant
            i <= count,
            forall|j: int| 0 <= j < i ==> !excluded_component(#[trigger] cs[j]),
        decreases count - i,
    {
        let c = &components[i];
        if is_hidden(c.as_str()) || is_node_modules(c.as_str()) {
            proof {
                lemma_first_excluded_at(cs, i as int);
            }
            return i;
        }
        i += 1;
    }
    proof {
        lemma_first_excluded_at(cs, count as int);
    }
    count
}

/// True when one of the strings in `v` reads as `s`.
#[verifier::loop_isolation(false)]
fn contains_string(v: &Vec<String>, s: &str) -> (r: bool)
    ensures
        r == string_views(v@).contains(s@),
{
    let needle: String = s.to_owned();
    let count = v.len();
    let mut i: usize = 0;
    while i < count
        invariant
            i <= count,
            needle@ == s@,
            forall|j: int| 0 <= j < i ==> string_views(v@)[j] != s@,
        decreases count - i,
    {
        if v[i] == needle {
            proof {
                assert(string_views(v@)[i as int] == s@);
            }
            return true;
        }
        i += 1;
    }
    false
}

/// Builds the manifest for the walked entries: regular files outside
/// hidden and `node_modules` subtrees make up the mapping; every excluded
/// entry is covered by an exclusion prefix instead, after the fixed
/// prefixes for the dependency mount and the worker scripts.
#[verifier::loop_isolation(false)]
pub fn manifest_from_entries(entries: &Vec<WalkEntry>) -> (m: Manifest)
    ensures
        pair_views(m.files@) == manifest_files(entry_views(entries@)),
        string_views(m.excluded@) == manifest_exclusions(entry_views(entries@)),
{
    let ghost ev = entry_views(entries@);
    let mut files: Vec<(String, String)> = Vec::new();
    let mut excluded: Vec<String> = Vec::new();
    excluded.push("/deps/".to_owned());
    excluded.push("/mho-client.js".to_owned());
    excluded.push("/mho-worker.js".to_owned());
    proof {
        assert(ev.take(0) =~= Seq::<WalkEntryView>::empty());
        assert(pair_views(files@) =~= manifest_files(ev.take(0)));
        assert(string_views(excluded@) =~= static_exclusions());
    }
    let count = entries.len();
    let mut i: usize = 0;
    while i < count
        invariant
            i <= count,
            pair_views(files@) == manifest_files(ev.take(i as int)),
            string_views(excluded@) == manifest_exclusions(ev.take(i as int)),
        decreases count - i,
    {
        let ghost files0 = pair_views(files@);
        let ghost excluded0 = string_views(excluded@);
        let e = &entries[i];
        let fe = first_excluded_index(&e.components);
        proof {
            assert(ev.take(i + 1).drop_last() =~= ev.take(i as int));
            assert(ev.take(i + 1).last() == ev[i as int]);
        }
        if fe == e.components.len() {
            proof {
                assert(ev[i as int].components == string_views(e.components@));
                assert(!entry_excluded(ev[i as int]));
            }
            if e.is_file {
                let row = summarize(e);
                files.push(row);
                proof {
                    assert(pair_views(files@) =~= files0.push(
                        (url_path(ev[i as int].components), dec_digits(e.mtime_secs as nat)),
                    ));
                }
            }
        } else {
            let mut prefix = url_path_string(&e.components, fe + 1);
            prefix.append("/");
            proof {
                reveal_strlit("/");
                assert("/"@ =~= seq!['/']);
                assert(ev[i as int].components == string_views(e.components@));
                assert(prefix@ =~= exclusion_prefix(ev[i as int]));
                assert(excluded_component(ev[i as int].components[fe as int]));
                assert(entry_excluded(ev[i as int]));
            }
            if !contains_string(&excluded, prefix.as_str()) {
                excluded.push(prefix);
                proof {
                    assert(string_views(excluded@) =~= excluded0.push(
                        exclusion_prefix(ev[i as int]),
                    ));
                }
            }
        }
        proof {
            assert(pair_views(files@) =~= manifest_files(ev.take(i + 1)));
            assert(string_views(excluded@) =~= manifest_exclusions(ev.take(i + 1)));
        }
        i += 1;
    }
    proof {
        assert(ev.take(count as int) =~= ev);
    }
    Manifest { files, excluded }
}


/// The manifest line for one included entry: its URL path and the
/// freshness token of its modification time.
pub fn summarize(e: &WalkEntry) -> (r: (String, String))
    ensures
        r.0@ == url_path(e@.components),
        r.1@ == dec_digits(e.mtime_secs as nat),
{
    let name = url_path_string(&e.components, e.components.len());
    proof {
        assert(e@.components.take(e@.components.len() as int) =~= e@.components);
    }
    (name, freshness_token(e.mtime_secs))
}

} // verus!
