use vstd::prelude::*;

use crate::order::{is_stable_order, key_seqs, lemma_order_covers, precedes, stable_order};
use crate::paths::{path_join, path_joined};
use crate::text::{chars_lt, chars_of, same_text, string_views};

verus! {

/// A set of strings, without duplicates, in insertion order. It is a vector
/// rather than a `HashSet<String>` because vstd specifies hashed collections
/// only for keys whose hashing it models, which `String` is not.
#[derive(Debug)]
pub struct StrSet {
    items: Vec<String>,
}

impl View for StrSet {
    type V = Set<Seq<char>>;

    closed spec fn view(&self) -> Set<Seq<char>> {
        string_views(self.items@).to_set()
    }
}

impl Clone for StrSet {
    /// A copy of the set, with the same strings in the same order.
    fn clone(&self) -> (r: Self)
        ensures
            r@ == self@,
    {
        proof {
            use_type_invariant(self);
        }
        let mut items: Vec<String> = Vec::new();
        let mut i: usize = 0;
        while i < self.items.len()
            invariant
                i <= self.items@.len(),
                items@ == self.items@.take(i as int),
                string_views(self.items@).no_duplicates(),
            decreases self.items@.len() - i,
        {
            items.push(self.items[i].clone());
            i = i + 1;
            assert(items@ =~= self.items@.take(i as int));
        }
        assert(items@ =~= self.items@);
        StrSet { items }
    }
}

impl StrSet {
    #[verifier::type_invariant]
    closed spec fn no_duplicates(&self) -> bool {
        string_views(self.items@).no_duplicates()
    }

    /// The empty set.
    pub fn new() -> (r: Self)
        ensures
            r@ == Set::<Seq<char>>::empty(),
    {
        let r = StrSet { items: Vec::new() };
        assert(string_views(r.items@).to_set() =~= Set::<Seq<char>>::empty());
        r
    }

    /// The number of strings in the set.
    pub fn len(&self) -> (n: usize)
        ensures
            n == self@.len(),
    {
        proof {
            use_type_invariant(self);
            string_views(self.items@).unique_seq_to_set();
        }
        self.items.len()
    }

    /// Whether `s` is in the set.
    pub fn contains(&self, s: &str) -> (r: bool)
        ensures
            r == self@.contains(s@),
    {
        let mut i: usize = 0;
        while i < self.items.len()
            invariant
                i <= self.items@.len(),
                forall|k: int| 0 <= k < i ==> (#[trigger] self.items@[k])@ != s@,
            decreases self.items@.len() - i,
        {
            if same_text(self.items[i].as_str(), s) {
                assert(string_views(self.items@)[i as int] == s@);
                return true;
            }
            i = i + 1;
        }
        proof {
            if string_views(self.items@).contains(s@) {
                let k = choose|k: int|
                    0 <= k < self.items@.len() && string_views(self.items@)[k] == s@;
                assert(self.items@[k]@ == s@);
            }
        }
        false
    }

    /// Adds `s`; returns whether it was not there before.
    pub fn insert(&mut self, s: String) -> (added: bool)
        ensures
            final(self)@ == old(self)@.insert(s@),
            added == !old(self)@.contains(s@),
    {
        if self.contains(s.as_str()) {
            assert(old(self)@.insert(s@) =~= old(self)@);
            return false;
        }
        proof {
            use_type_invariant(&*self);
        }
        let ghost old_items = self.items@;
        let ghost sv = s@;
        let mut items: Vec<String> = Vec::new();
        std::mem::swap(&mut items, &mut self.items);
        items.push(s);
        proof {
            assert(string_views(items@) =~= string_views(old_items).push(sv));
            let w = string_views(items@);
            let o = string_views(old_items);
            assert forall|x: Seq<char>| w.to_set().contains(x) <==> o.to_set().insert(sv).contains(x) by {
                if w.contains(x) {
                    let k = choose|k: int| 0 <= k < w.len() && w[k] == x;
                    if k < o.len() {
                        assert(o[k] == x);
                    }
                }
                if o.contains(x) {
                    let k = choose|k: int| 0 <= k < o.len() && o[k] == x;
                    assert(w[k] == x);
                }
                if x == sv {
                    assert(w[o.len() as int] == x);
                }
            }
            assert(w.to_set() =~= o.to_set().insert(sv));
        }
        self.items = items;
        true
    }

    /// Takes `s` out of the set; returns whether it was there.
    pub fn remove(&mut self, s: &str) -> (removed: bool)
        ensures
            final(self)@ == old(self)@.remove(s@),
            removed == old(self)@.contains(s@),
    {
        proof {
            use_type_invariant(&*self);
        }
        let found = self.contains(s);
        let ghost old_views = string_views(self.items@);
        let mut kept: Vec<String> = Vec::new();
        let mut i: usize = 0;
        while i < self.items.len()
            invariant
                i <= self.items@.len(),
                old_views == string_views(self.items@),
                old_views.no_duplicates(),
                string_views(kept@).no_duplicates(),
                forall|x: Seq<char>|
                    #![trigger string_views(kept@).contains(x)]
                    string_views(kept@).contains(x) <==> (old_views.take(i as int).contains(x)
                        && x != s@),
            decreases self.items@.len() - i,
        {
            let ghost before = string_views(kept@);
            let ghost x = old_views[i as int];
            let ghost t0 = old_views.take(i as int);
            let ghost t1 = old_views.take(i + 1);
            assert(t1 =~= t0.push(x));
            if !same_text(self.items[i].as_str(), s) {
                kept.push(self.items[i].clone());
                proof {
                    assert(string_views(kept@) =~= before.push(x));
                    if before.contains(x) {
                        let k = choose|k: int| 0 <= k < i && old_views[k] == x;
                        assert(old_views[k] == old_views[i as int]);
                    }
                    assert forall|a: int, b: int|
                        0 <= a < b < string_views(kept@).len() implies string_views(kept@)[a]
                        != string_views(kept@)[b] by {
                        if b == before.len() {
                            assert(before.contains(before[a]));
                        } else {
                            assert(before[a] != before[b]);
                        }
                    }
                    assert forall|y: Seq<char>| string_views(kept@).contains(y) <==> (
                    t1.contains(y) && y != s@) by {
                        if string_views(kept@).contains(y) {
                            let k = choose|k: int|
                                0 <= k < string_views(kept@).len() && string_views(kept@)[k] == y;
                            if k < before.len() {
                                assert(before[k] == y);
                                assert(before.contains(y));
                                let j = choose|j: int| 0 <= j < t0.len() && t0[j] == y;
                                assert(t1[j] == y);
                            } else {
                                assert(y == x);
                                assert(x == self.items@[i as int]@);
                                assert(t1[i as int] == y);
                            }
                        }
                        if t1.contains(y) && y != s@ {
                            let k = choose|k: int| 0 <= k < t1.len() && t1[k] == y;
                            if k < i {
                                assert(t0[k] == y);
                                assert(before.contains(y));
                                let j = choose|j: int| 0 <= j < before.len() && before[j] == y;
                                assert(string_views(kept@)[j] == y);
                            } else {
                                assert(string_views(kept@)[before.len() as int] == y);
                            }
                        }
                    }
                }
            } else {
                proof {
                    assert forall|y: Seq<char>| before.contains(y) <==> (t1.contains(y) && y != s@) by {
                        if t1.contains(y) && y != s@ {
                            let k = choose|k: int| 0 <= k < t1.len() && t1[k] == y;
                            assert(k < i);
                            assert(t0[k] == y);
                        }
                        if before.contains(y) {
                            let k = choose|k: int| 0 <= k < t0.len() && t0[k] == y;
                            assert(t1[k] == y);
                        }
                    }
                }
            }
            i = i + 1;
        }
        proof {
            assert(old_views.take(old_views.len() as int) =~= old_views);
            assert(string_views(kept@).to_set() =~= old_views.to_set().remove(s@));
        }
        self.items = kept;
        found
    }

    /// The strings of the set in increasing code point order.
    pub fn sorted(&self) -> (r: Vec<String>)
        ensures
            string_views(r@).to_set() == self@,
            r@.len() == self@.len(),
            forall|a: int, b: int|
                0 <= a < b < r@.len() ==> chars_lt(#[trigger] r@[a]@, #[trigger] r@[b]@),
    {
        proof {
            use_type_invariant(self);
            string_views(self.items@).unique_seq_to_set();
        }
        let ghost views = string_views(self.items@);
        let mut keys: Vec<Vec<char>> = Vec::new();
        let mut i: usize = 0;
        while i < self.items.len()
            invariant
                i <= self.items@.len(),
                keys@.len() == i,
                forall|k: int| 0 <= k < i ==> (#[trigger] keys@[k])@ == self.items@[k]@,
            decreases self.items@.len() - i,
        {
            keys.push(chars_of(self.items[i].as_str()));
            i = i + 1;
        }
        assert(key_seqs(keys@) =~= views);
        let p = stable_order(&keys);
        let mut r: Vec<String> = Vec::new();
        let mut a: usize = 0;
        while a < p.len()
            invariant
                is_stable_order(views, p@),
                views == string_views(self.items@),
                a <= p@.len(),
                r@.len() == a,
                forall|k: int| 0 <= k < a ==> (#[trigger] r@[k])@ == views[p@[k] as int],
            decreases p@.len() - a,
        {
            r.push(self.items[p[a]].clone());
            a = a + 1;
        }
        proof {
            assert forall|x: int, y: int| 0 <= x < y < r@.len() implies chars_lt(
                #[trigger] r@[x]@,
                #[trigger] r@[y]@,
            ) by {
                assert(precedes(views, p@[x] as int, p@[y] as int));
            }
            assert forall|v: Seq<char>| string_views(r@).to_set().contains(v) implies views.to_set().contains(v) by {
                let k = choose|k: int| 0 <= k < r@.len() && string_views(r@)[k] == v;
                assert(views[p@[k] as int] == v);
            }
            assert forall|v: Seq<char>| views.to_set().contains(v) implies string_views(r@).to_set().contains(v) by {
                let j = choose|j: int| 0 <= j < views.len() && views[j] == v;
                lemma_order_covers(views, p@, j);
                let k = choose|k: int| 0 <= k < p@.len() && p@[k] == j;
                assert(string_views(r@)[k] == v);
            }
            assert(string_views(r@).to_set() =~= views.to_set());
        }
        r
    }
}

/// The keys of a list of string pairs, as character sequences.
pub open spec fn pair_keys(s: Seq<(String, String)>) -> Seq<Seq<char>> {
    s.map_values(|p: (String, String)| p.0@)
}

/// The map that a list of string pairs with distinct keys stands for.
pub open spec fn pairs_map(s: Seq<(String, String)>) -> Map<Seq<char>, Seq<char>> {
    Map::new(
        |k: Seq<char>| pair_keys(s).contains(k),
        |k: Seq<char>| s[pair_keys(s).index_of(k)].1@,
    )
}

/// A map from strings to strings, its keys distinct, in insertion order; a
/// vector of pairs for the reason given at `StrSet`.
#[derive(Debug)]
pub struct StrMap {
    items: Vec<(String, String)>,
}

impl View for StrMap {
    type V = Map<Seq<char>, Seq<char>>;

    closed spec fn view(&self) -> Map<Seq<char>, Seq<char>> {
        pairs_map(self.items@)
    }
}

/// In a list with distinct keys, a key found at `i` maps to the value at `i`.
proof fn lemma_pairs_map_at(s: Seq<(String, String)>, i: int)
    requires
        pair_keys(s).no_duplicates(),
        0 <= i < s.len(),
    ensures
        pairs_map(s).contains_key(s[i].0@),
        pairs_map(s)[s[i].0@] == s[i].1@,
{
    let ks = pair_keys(s);
    assert(ks[i] == s[i].0@);
    let j = ks.index_of(s[i].0@);
    assert(ks[j] == s[i].0@);
}

impl Clone for StrMap {
    /// A copy of the map, with the same pairs in the same order.
    fn clone(&self) -> (r: Self)
        ensures
            r@ == self@,
    {
        proof {
            use_type_invariant(self);
        }
        let mut items: Vec<(String, String)> = Vec::new();
        let mut i: usize = 0;
        while i < self.items.len()
            invariant
                i <= self.items@.len(),
                items@ == self.items@.take(i as int),
                pair_keys(self.items@).no_duplicates(),
            decreases self.items@.len() - i,
        {
            let key = self.items[i].0.clone();
            let value = self.items[i].1.clone();
            items.push((key, value));
            i = i + 1;
            assert(items@ =~= self.items@.take(i as int));
        }
        assert(items@ =~= self.items@);
        StrMap { items }
    }
}

impl StrMap {
    #[verifier::type_invariant]
    closed spec fn distinct_keys(&self) -> bool {
        pair_keys(self.items@).no_duplicates()
    }

    /// The empty map.
    pub fn new() -> (r: Self)
        ensures
            r@ == Map::<Seq<char>, Seq<char>>::empty(),
    {
        let r = StrMap { items: Vec::new() };
        assert(pairs_map(r.items@) =~= Map::<Seq<char>, Seq<char>>::empty());
        r
    }

    /// Empties the map.
    pub fn clear(&mut self)
        ensures
            final(self)@ == Map::<Seq<char>, Seq<char>>::empty(),
    {
        self.items = Vec::new();
        assert(pairs_map(self.items@) =~= Map::<Seq<char>, Seq<char>>::empty());
    }

    /// The position of `key` among the pairs, if it is there.
    fn find(&self, key: &str) -> (r: Option<usize>)
        ensures
            match r {
                Some(i) => i < self.items@.len() && self.items@[i as int].0@ == key@,
                None => !self@.contains_key(key@),
            },
    {
        let mut i: usize = 0;
        while i < self.items.len()
            invariant
                i <= self.items@.len(),
                forall|k: int| 0 <= k < i ==> (#[trigger] self.items@[k]).0@ != key@,
            decreases self.items@.len() - i,
        {
            if same_text(self.items[i].0.as_str(), key) {
                return Some(i);
            }
            i = i + 1;
        }
        proof {
            if pair_keys(self.items@).contains(key@) {
                let k = choose|k: int|
                    0 <= k < self.items@.len() && pair_keys(self.items@)[k] == key@;
                assert(self.items@[k].0@ == key@);
            }
        }
        None
    }

    /// The value stored under `key`, if any.
    pub fn get(&self, key: &str) -> (r: Option<&String>)
        ensures
            match r {
                Some(v) => self@.contains_key(key@) && self@[key@] == v@,
                None => !self@.contains_key(key@),
            },
    {
        proof {
            use_type_invariant(self);
        }
        match self.find(key) {
            Some(i) => {
                proof {
                    lemma_pairs_map_at(self.items@, i as int);
                }
                Some(&self.items[i].1)
            },
            None => None,
        }
    }

    /// Whether `key` has a value.
    pub fn contains_key(&self, key: &str) -> (r: bool)
        ensures
            r == self@.contains_key(key@),
    {
        proof {
            use_type_invariant(self);
        }
        match self.find(key) {
            Some(i) => {
                proof {
                    lemma_pairs_map_at(self.items@, i as int);
                }
                true
            },
            None => false,
        }
    }

    /// Stores `value` under `key`, replacing what was there.
    pub fn insert(&mut self, key: String, value: String)
        ensures
            final(self)@ == old(self)@.insert(key@, value@),
    {
        proof {
            use_type_invariant(&*self);
        }
        let ghost kv = key@;
        let ghost vv = value@;
        let ghost old_items = self.items@;
        let found = self.find(key.as_str());
        let mut items: Vec<(String, String)> = Vec::new();
        std::mem::swap(&mut items, &mut self.items);
        match found {
            Some(i) => {
                items.set(i, (key, value));
                proof {
                    assert(pair_keys(items@) =~= pair_keys(old_items));
                }
            },
            None => {
                items.push((key, value));
                proof {
                    assert(pair_keys(items@) =~= pair_keys(old_items).push(kv));
                }
            },
        }
        proof {
            let ks = pair_keys(items@);
            assert(ks.no_duplicates());
            let m1 = pairs_map(items@);
            let m2 = pairs_map(old_items).insert(kv, vv);
            assert forall|k: Seq<char>| #[trigger] m1.dom().contains(k) <==> m2.dom().contains(k) by {
                if m1.contains_key(k) {
                    let j = choose|j: int| 0 <= j < ks.len() && ks[j] == k;
                    if k != kv {
                        assert(items@[j].0@ == k);
                        assert(items@[j] == old_items[j]);
                        assert(pair_keys(old_items)[j] == k);
                    }
                }
                if m2.contains_key(k) {
                    if k == kv {
                        let j: int = match found {
                            Some(i) => i as int,
                            None => old_items.len() as int,
                        };
                        assert(items@[j].0@ == kv);
                        lemma_pairs_map_at(items@, j);
                    } else {
                        let j = choose|j: int| 0 <= j < old_items.len() && pair_keys(old_items)[j] == k;
                        assert(items@[j] == old_items[j]);
                        lemma_pairs_map_at(items@, j);
                    }
                }
            }
            assert(m1.dom() =~= m2.dom());
            assert forall|k: Seq<char>| #[trigger] m1.contains_key(k) implies m1[k] == m2[k] by {
                if k == kv {
                    let j: int = match found {
                        Some(i) => i as int,
                        None => old_items.len() as int,
                    };
                    assert(items@[j].0@ == kv);
                    lemma_pairs_map_at(items@, j);
                } else {
                    let j = pair_keys(old_items).index_of(k);
                    assert(pair_keys(old_items)[j] == k);
                    lemma_pairs_map_at(old_items, j);
                    assert(items@[j] == old_items[j]);
                    lemma_pairs_map_at(items@, j);
                }
            }
            assert(m1 =~= m2);
        }
        self.items = items;
    }

    /// The pairs of the map, each key once.
    pub fn pairs(&self) -> (r: &Vec<(String, String)>)
        ensures
            pair_keys(r@).no_duplicates(),
            pairs_map(r@) == self@,
    {
        proof {
            use_type_invariant(self);
        }
        &self.items
    }
}

/// The extensions that the viewer opens when no configuration says otherwise.
pub open spec fn default_text_extensions() -> Set<Seq<char>> {
    set!["txt"@, "md"@, "rs"@, "cs"@, "py"@, "java"@, "c"@, "cpp"@, "h"@, "csproj"@, "json"@, "toml"@, "js"@, "ts"@, "html"@, "css"@, "yaml"@, "yml"@, "sh"@, "bat"@]
}

/// The size, in KB, of the largest file that is prettified when no
/// configuration says otherwise.
pub const DEFAULT_MAX_PRETTIFY_SIZE_KB: usize = 512;

/// The application's configuration: the extensions of the files that the
/// viewer opens, the paths of the editors found so far, by editor id, and
/// the size limit, in KB, of the files that are prettified.
#[derive(Debug, Clone)]
pub struct AppConfig {
    pub text_extensions: StrSet,
    pub editors: StrMap,
    pub max_prettify_size_kb: usize,
}

/// What a configuration is: the viewer's extensions, the editors' paths and
/// the prettify size limit in KB.
#[verifier::ext_equal]
pub struct ConfigView {
    pub extensions: Set<Seq<char>>,
    pub editors: Map<Seq<char>, Seq<char>>,
    pub max_prettify_size_kb: usize,
}

impl View for AppConfig {
    type V = ConfigView;

    open spec fn view(&self) -> ConfigView {
        ConfigView {
            extensions: self.text_extensions@,
            editors: self.editors@,
            max_prettify_size_kb: self.max_prettify_size_kb,
        }
    }
}

/// The configuration used when none is given.
pub open spec fn default_config() -> ConfigView {
    ConfigView {
        extensions: default_text_extensions(),
        editors: Map::<Seq<char>, Seq<char>>::empty(),
        max_prettify_size_kb: 512,
    }
}

impl Default for AppConfig {
    fn default() -> (r: Self)
        ensures
            r@ == default_config(),
    {
        let mut text_extensions = StrSet::new();
        text_extensions.insert(String::from_str("txt"));
        text_extensions.insert(String::from_str("md"));
        text_extensions.insert(String::from_str("rs"));
        text_extensions.insert(String::from_str("cs"));
        text_extensions.insert(String::from_str("py"));
        text_extensions.insert(String::from_str("java"));
        text_extensions.insert(String::from_str("c"));
        text_extensions.insert(String::from_str("cpp"));
        text_extensions.insert(String::from_str("h"));
        text_extensions.insert(String::from_str("csproj"));
        text_extensions.insert(String::from_str("json"));
        text_extensions.insert(String::from_str("toml"));
        text_extensions.insert(String::from_str("js"));
        text_extensions.insert(String::from_str("ts"));
        text_extensions.insert(String::from_str("html"));
        text_extensions.insert(String::from_str("css"));
        text_extensions.insert(String::from_str("yaml"));
        text_extensions.insert(String::from_str("yml"));
        text_extensions.insert(String::from_str("sh"));
        text_extensions.insert(String::from_str("bat"));
        AppConfig {
            text_extensions,
            editors: StrMap::new(),
            max_prettify_size_kb: DEFAULT_MAX_PRETTIFY_SIZE_KB,
        }
    }
}

/// The editors that files can be opened in.
#[derive(Debug, Clone, Copy, PartialEq, Eq, Hash, Structural)]
pub enum SupportedEditor {
    VsCode,
}

/// Where the VS Code launcher sits in the system application folder.
pub open spec fn vscode_app_path() -> Seq<char> {
    "/Applications/Visual Studio Code.app/Contents/Resources/app/bin/code"@
}

/// Where the VS Code launcher sits below a home directory.
pub open spec fn vscode_home_suffix() -> Seq<char> {
    "/Applications/Visual Studio Code.app/Contents/Resources/app/bin/code"@
}

/// A place where an editor's launcher may be found; `must_be_file` asks
/// that it be a regular file, not only that it exist.
#[derive(Debug, Clone)]
pub struct EditorCandidate {
    pub path: String,
    pub must_be_file: bool,
}

impl SupportedEditor {
    /// The key of the editor in the configuration.
    pub fn id(&self) -> (r: &'static str)
        ensures
            r@ == "vscode"@,
    {
        match self {
            SupportedEditor::VsCode => "vscode",
        }
    }

    /// The name of the editor shown to the user.
    pub fn display_name(&self) -> (r: &'static str)
        ensures
            r@ == "VS Code"@,
    {
        match self {
            SupportedEditor::VsCode => "VS Code",
        }
    }

    /// The places searched for the editor's launcher, in order: `code` in
    /// each directory of the search path, then the system application
    /// folder, then the one below `home` where there is a home directory.
    pub fn candidates(&self, search_dirs: &Vec<String>, home: Option<&str>) -> (r: Vec<
        EditorCandidate,
    >)
        ensures
            r@.len() == search_dirs@.len() + 1 + (if home is Some {
                1int
            } else {
                0
            }),
            forall|i: int|
                0 <= i < search_dirs@.len() ==> (#[trigger] r@[i]).path@ == path_joined(
                    search_dirs@[i]@,
                    "code"@,
                ) && r@[i].must_be_file,
            r@[search_dirs@.len() as int].path@ == vscode_app_path(),
            !r@[search_dirs@.len() as int].must_be_file,
            home matches Some(h) ==> r@[search_dirs@.len() as int + 1].path@ == h@
                + vscode_home_suffix() && !r@[search_dirs@.len() as int + 1].must_be_file,
    {
        let mut r: Vec<EditorCandidate> = Vec::new();
        let mut i: usize = 0;
        while i < search_dirs.len()
            invariant
                i <= search_dirs@.len(),
                r@.len() == i,
                forall|k: int|
                    0 <= k < i ==> (#[trigger] r@[k]).path@ == path_joined(
                        search_dirs@[k]@,
                        "code"@,
                    ) && r@[k].must_be_file,
            decreases search_dirs@.len() - i,
        {
            let p = path_join(search_dirs[i].as_str(), "code");
            r.push(EditorCandidate { path: p, must_be_file: true });
            i = i + 1;
        }
        let app = String::from_str("/Applications/Visual Studio Code.app/Contents/Resources/app/bin/code");
        r.push(EditorCandidate { path: app, must_be_file: false });
        match home {
            Some(h) => {
                let mut p = String::from_str(h);
                p.append("/Applications/Visual Studio Code.app/Contents/Resources/app/bin/code");
                r.push(EditorCandidate { path: p, must_be_file: false });
            },
            None => {},
        }
        r
    }

    /// The first candidate found usable (`usable[i]` tells of candidate
    /// `i`), if any.
    pub fn first_usable(candidates: Vec<EditorCandidate>, usable: &Vec<bool>) -> (r: Option<String>)
        requires
            usable@.len() == candidates@.len(),
        ensures
            match r {
                Some(p) => exists|i: int|
                    0 <= i < candidates@.len() && usable@[i] && candidates@[i].path@ == p@
                        && forall|k: int| 0 <= k < i ==> !usable@[k],
                None => forall|k: int| 0 <= k < candidates@.len() ==> !usable@[k],
            },
    {
        let mut i: usize = 0;
        while i < candidates.len()
            invariant
                usable@.len() == candidates@.len(),
                i <= candidates@.len(),
                forall|k: int| 0 <= k < i ==> !usable@[k],
            decreases candidates@.len() - i,
        {
            if usable[i] {
                return Some(candidates[i].path.clone());
            }
            i = i + 1;
        }
        None
    }
}

} // verus!
