use vstd::prelude::*;

use crate::text::same_text;

verus! {

/// Name of the directory that holds version-control internals.
pub const VCS_DIR: &'static str = ".git";

/// Name of the directory that holds the hosting platform's configuration.
pub const PLATFORM_DIR: &'static str = ".github";

/// Extension that marks a template file.
pub const TEMPLATE_EXTENSION: &'static str = "gitignore";

/// What str::to_lowercase returns for the given characters.
pub uninterp spec fn lower_of(s: Seq<char>) -> Seq<char>;

/// Relies on str::to_lowercase: the lowercase form depends on the characters alone.
#[verifier::external_body]
fn lowercase(s: &str) -> (r: String)
    ensures
        r@ == lower_of(s@),
{
    s.to_lowercase()
}

/// A directory name whose subtree is never searched for templates.
pub open spec fn is_marker_name(name: Seq<char>) -> bool {
    name == VCS_DIR@ || name == PLATFORM_DIR@
}

/// The stem of a file name whose extension is exactly the template extension:
/// the characters before the last dot, which must not be the first character.
pub open spec fn template_stem(name: Seq<char>) -> Option<Seq<char>> {
    let n = name.len();
    let e = TEMPLATE_EXTENSION@.len();
    if n > e + 1 && name[n - e - 1] == '.' && name.subrange(n - e, n as int)
        == TEMPLATE_EXTENSION@ {
        Some(name.subrange(0, n - e - 1))
    } else {
        None
    }
}

/// The key under which an entry of the mirror is indexed, if it is a template.
pub open spec fn key_of(components: Seq<Seq<char>>, is_dir: bool) -> Option<Seq<char>> {
    if is_dir || components.len() == 0 || exists|i: int|
        0 <= i < components.len() && #[trigger] is_marker_name(components[i]) {
        None
    } else {
        match template_stem(components.last()) {
            Some(stem) => Some(lower_of(stem)),
            None => None,
        }
    }
}

/// One entry met while walking the mirror.
pub struct WalkEntry {
    /// The names on the path from the mirror's root down to the entry, the
    /// entry's own name last.
    pub components: Vec<String>,
    /// Whether the entry is a directory.
    pub is_dir: bool,
}

impl WalkEntry {
    pub open spec fn names(&self) -> Seq<Seq<char>> {
        self.components@.map_values(|c: String| c@)
    }
}

/// Whether a directory of this name is left out of the walk, with everything below it.
pub fn is_vcs_marker(name: &str) -> (r: bool)
    ensures
        r == is_marker_name(name@),
{
    same_text(name, VCS_DIR) || same_text(name, PLATFORM_DIR)
}

/// The template stem of a file name, if its extension is the template extension.
pub fn file_stem(name: &str) -> (r: Option<&str>)
    ensures
        r matches Some(s) ==> template_stem(name@) == Some(s@),
        r is None ==> template_stem(name@) is None,
{
    proof {
        reveal_strlit("gitignore");
    }
    let ext = TEMPLATE_EXTENSION;
    let n = name.unicode_len();
    let e: usize = 9;
    if n <= e + 1 || name.get_char(n - e - 1) != '.' {
        return None;
    }
    let mut j: usize = 0;
    while j < e
        invariant
            n == name@.len(),
            ext@ == TEMPLATE_EXTENSION@,
            e == ext@.len(),
            n > e + 1,
            j <= e,
            forall|k: int| 0 <= k < j ==> name@[n - e + k] == ext@[k],
        decreases e - j,
    {
        if name.get_char(n - e + j) != ext.get_char(j) {
            assert(name@.subrange(n - e, n as int)[j as int] != ext@[j as int]);
            assert(name@.subrange(n - e, n as int) != TEMPLATE_EXTENSION@);
            return None;
        }
        j = j + 1;
    }
    assert(name@.subrange(n - e, n as int) == ext@);
    Some(name.substring_char(0, n - e - 1))
}

/// The key under which a walked entry is indexed, or `None` where it is no
/// template: a directory, a file of another extension, or anything below a
/// directory named like a version-control marker, at any depth.
pub fn template_key(entry: &WalkEntry) -> (r: Option<String>)
    ensures
        r matches Some(k) ==> key_of(entry.names(), entry.is_dir) == Some(k@),
        r is None ==> key_of(entry.names(), entry.is_dir) is None,
        (exists|i: int| 0 <= i < entry.components@.len() && is_marker_name(
            #[trigger] entry.components@[i]@,
        )) ==> r is None,
{
    let ghost names = entry.names();
    let n = entry.components.len();
    if entry.is_dir || n == 0 {
        return None;
    }
    let mut i: usize = 0;
    while i < n
        invariant
            n == entry.components@.len(),
            names == entry.names(),
            i <= n,
            forall|k: int| 0 <= k < i ==> !#[trigger] is_marker_name(names[k]),
        decreases n - i,
    {
        if is_vcs_marker(entry.components[i].as_str()) {
            assert(is_marker_name(names[i as int]));
            return None;
        }
        i = i + 1;
    }
    assert forall|k: int| 0 <= k < entry.components@.len() implies !is_marker_name(
        #[trigger] entry.components@[k]@,
    ) by {
        assert(names[k] == entry.components@[k]@);
    }
    assert(names.last() == entry.components@[n - 1]@);
    match file_stem(entry.components[n - 1].as_str()) {
        Some(stem) => Some(lowercase(stem)),
        None => None,
    }
}

/// The mapping that results from inserting the pairs in order, a later pair
/// replacing an earlier one of the same key.
pub open spec fn map_of(pairs: Seq<(String, String)>) -> Map<Seq<char>, Seq<char>>
    decreases pairs.len(),
{
    if pairs.len() == 0 {
        Map::empty()
    } else {
        map_of(pairs.drop_last()).insert(pairs.last().0@, pairs.last().1@)
    }
}

/// No two pairs share a key.
pub open spec fn keys_distinct(pairs: Seq<(String, String)>) -> bool {
    forall|i: int, j: int|
        0 <= i < j < pairs.len() ==> #[trigger] pairs[i].0@ != #[trigger] pairs[j].0@
}

proof fn lemma_map_of_domain(pairs: Seq<(String, String)>, k: Seq<char>)
    ensures
        map_of(pairs).contains_key(k) <==> exists|i: int|
            0 <= i < pairs.len() && #[trigger] pairs[i].0@ == k,
    decreases pairs.len(),
{
    if pairs.len() > 0 {
        let init = pairs.drop_last();
        lemma_map_of_domain(init, k);
        if map_of(init).contains_key(k) {
            let i = choose|i: int| 0 <= i < init.len() && #[trigger] init[i].0@ == k;
            assert(pairs[i].0@ == k);
        }
        if exists|i: int| 0 <= i < pairs.len() && #[trigger] pairs[i].0@ == k {
            let i = choose|i: int| 0 <= i < pairs.len() && #[trigger] pairs[i].0@ == k;
            if i < pairs.len() - 1 {
                assert(init[i].0@ == k);
            }
        }
    }
}

proof fn lemma_map_of_value(pairs: Seq<(String, String)>, i: int)
    requires
        keys_distinct(pairs),
        0 <= i < pairs.len(),
    ensures
        map_of(pairs).contains_key(pairs[i].0@),
        map_of(pairs)[pairs[i].0@] == pairs[i].1@,
    decreases pairs.len(),
{
    let init = pairs.drop_last();
    if i < pairs.len() - 1 {
        assert(keys_distinct(init)) by {
            assert forall|a: int, b: int| 0 <= a < b < init.len() implies #[trigger] init[a].0@
                != #[trigger] init[b].0@ by {
                assert(init[a] == pairs[a] && init[b] == pairs[b]);
            }
        }
        lemma_map_of_value(init, i);
        assert(init[i] == pairs[i]);
        assert(pairs[i].0@ != pairs.last().0@);
    }
}

proof fn lemma_names_cover(pairs: Seq<(String, String)>)
    requires
        keys_distinct(pairs),
    ensures
        map_of(pairs).dom().finite(),
        map_of(pairs).dom().len() == pairs.len(),
    decreases pairs.len(),
{
    if pairs.len() > 0 {
        let init = pairs.drop_last();
        assert(keys_distinct(init)) by {
            assert forall|a: int, b: int| 0 <= a < b < init.len() implies #[trigger] init[a].0@
                != #[trigger] init[b].0@ by {
                assert(init[a] == pairs[a] && init[b] == pairs[b]);
            }
        }
        lemma_names_cover(init);
        lemma_map_of_domain(init, pairs.last().0@);
        if map_of(init).contains_key(pairs.last().0@) {
            let i = choose|i: int| 0 <= i < init.len() && #[trigger] init[i].0@ == pairs.last().0@;
            assert(pairs[i].0@ == pairs[pairs.len() - 1].0@);
        }
    }
}

/// Templates by key.
pub struct TemplateIndex {
    entries: Vec<(String, String)>,
}

impl View for TemplateIndex {
    type V = Map<Seq<char>, Seq<char>>;

    closed spec fn view(&self) -> Map<Seq<char>, Seq<char>> {
        map_of(self.entries@)
    }
}

impl TemplateIndex {
    /// No key is stored twice.
    pub closed spec fn wf(&self) -> bool {
        keys_distinct(self.entries@)
    }

    /// An index that holds no template.
    pub fn new() -> (r: TemplateIndex)
        ensures
            r.wf(),
            r@ == Map::<Seq<char>, Seq<char>>::empty(),
    {
        TemplateIndex { entries: Vec::new() }
    }

    /// The position of the entry with the given key.
    fn find(&self, key: &String) -> (r: Option<usize>)
        requires
            self.wf(),
        ensures
            r matches Some(i) ==> i < self.entries@.len() && self.entries@[i as int].0@ == key@,
            r is None ==> !self@.contains_key(key@),
    {
        let mut i: usize = 0;
        while i < self.entries.len()
            invariant
                i <= self.entries@.len(),
                forall|j: int| 0 <= j < i ==> #[trigger] self.entries@[j].0@ != key@,
            decreases self.entries@.len() - i,
        {
            if self.entries[i].0 == *key {
                return Some(i);
            }
            i = i + 1;
        }
        proof {
            lemma_map_of_domain(self.entries@, key@);
        }
        None
    }

    /// Stores `body` under `key`, replacing what the key held before.
    pub fn insert(&mut self, key: String, body: String)
        requires
            old(self).wf(),
        ensures
            final(self).wf(),
            final(self)@ == old(self)@.insert(key@, body@),
    {
        let ghost before = self.entries@;
        match self.find(&key) {
            Some(i) => {
                let ghost k = key@;
                let ghost b = body@;
                self.entries.set(i, (key, body));
                proof {
                    let after = self.entries@;
                    assert(keys_distinct(after)) by {
                        assert forall|a: int, c: int| 0 <= a < c < after.len() implies
                            #[trigger] after[a].0@ != #[trigger] after[c].0@ by {
                            assert(before[a].0@ != before[c].0@);
                        }
                    }
                    assert(map_of(after) =~= map_of(before).insert(k, b)) by {
                        assert forall|x: Seq<char>| #[trigger] map_of(after).contains_key(x)
                            <==> map_of(before).insert(k, b).contains_key(x) by {
                            lemma_map_of_domain(after, x);
                            lemma_map_of_domain(before, x);
                            if exists|j: int| 0 <= j < before.len() && #[trigger] before[j].0@ == x {
                                let j = choose|j: int|
                                    0 <= j < before.len() && #[trigger] before[j].0@ == x;
                                assert(after[j].0@ == x);
                            }
                            if exists|j: int| 0 <= j < after.len() && #[trigger] after[j].0@ == x {
                                let j = choose|j: int|
                                    0 <= j < after.len() && #[trigger] after[j].0@ == x;
                                assert(before[j].0@ == x);
                            }
                        }
                        assert forall|x: Seq<char>| #[trigger] map_of(after).contains_key(x)
                            implies map_of(after)[x] == map_of(before).insert(k, b)[x] by {
                            lemma_map_of_domain(after, x);
                            let j = choose|j: int|
                                0 <= j < after.len() && #[trigger] after[j].0@ == x;
                            lemma_map_of_value(after, j);
                            if j != i {
                                lemma_map_of_value(before, j);
                            }
                        }
                    }
                }
            },
            None => {
                self.entries.push((key, body));
                proof {
                    let after = self.entries@;
                    assert(after.drop_last() =~= before);
                    assert(keys_distinct(after)) by {
                        assert forall|a: int, c: int| 0 <= a < c < after.len() implies
                            #[trigger] after[a].0@ != #[trigger] after[c].0@ by {
                            if c == after.len() - 1 {
                                lemma_map_of_domain(before, after[c].0@);
                                assert(before[a].0@ == after[a].0@);
                            } else {
                                assert(before[a].0@ != before[c].0@);
                            }
                        }
                    }
                }
            },
        }
    }

    /// The body stored under `key`, if any.
    pub fn get(&self, key: &String) -> (r: Option<&String>)
        requires
            self.wf(),
        ensures
            r is Some <==> self@.contains_key(key@),
            r matches Some(b) ==> b@ == self@[key@],
    {
        match self.find(key) {
            Some(i) => {
                proof {
                    lemma_map_of_value(self.entries@, i as int);
                }
                Some(&self.entries[i].1)
            },
            None => None,
        }
    }

    /// Every key of the index, each once.
    pub fn names(&self) -> (r: Vec<String>)
        requires
            self.wf(),
        ensures
            r@.len() == self@.dom().len(),
            forall|i: int| 0 <= i < r@.len() ==> self@.contains_key(#[trigger] r@[i]@),
            forall|i: int, j: int| 0 <= i < j < r@.len() ==> #[trigger] r@[i]@ != #[trigger] r@[j]@,
    {
        let mut r: Vec<String> = Vec::new();
        let mut i: usize = 0;
        while i < self.entries.len()
            invariant
                i <= self.entries@.len(),
                keys_distinct(self.entries@),
                r@.len() == i,
                forall|j: int| 0 <= j < i ==> #[trigger] r@[j]@ == self.entries@[j].0@,
            decreases self.entries@.len() - i,
        {
            r.push(self.entries[i].0.clone());
            i = i + 1;
        }
        proof {
            assert forall|j: int| 0 <= j < r@.len() implies self@.contains_key(#[trigger] r@[j]@) by {
                lemma_map_of_domain(self.entries@, r@[j]@);
            }
            lemma_names_cover(self.entries@);
        }
        r
    }
}

} // verus!
