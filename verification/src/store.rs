//! The password store: an ordered list of tagged entries whose tags are
//! pairwise distinct, with the operations that the commands perform on it.

use vstd::prelude::*;
use vstd::utf8::encode_utf8;
use crate::pattern::{Pattern, regex_is_match};

verus! {

/// A point in time: whole seconds and nanoseconds since the UNIX epoch.
#[derive(Debug, Clone, Copy, PartialEq, Eq, Structural)]
pub struct Timestamp {
    pub secs: u64,
    pub nanos: u32,
}

/// Optional facts kept beside a password.
#[derive(Debug)]
pub struct Metadata {
    pub date: Option<Timestamp>,
    pub text: Option<String>,
    pub url: Option<String>,
}

/// The mathematical value of a `Metadata`.
pub struct MetadataView {
    pub date: Option<Timestamp>,
    pub text: Option<Seq<char>>,
    pub url: Option<Seq<char>>,
}

/// The view of an optional string.
pub open spec fn opt_view(o: Option<String>) -> Option<Seq<char>> {
    match o {
        Some(s) => Some(s@),
        None => None,
    }
}

impl View for Metadata {
    type V = MetadataView;

    open spec fn view(&self) -> MetadataView {
        MetadataView { date: self.date, text: opt_view(self.text), url: opt_view(self.url) }
    }
}

/// A stored password with its metadata.
#[derive(Debug)]
pub struct PasswordEntry {
    pub password: String,
    pub metadata: Metadata,
}

/// The mathematical value of a `PasswordEntry`.
pub struct EntryView {
    pub password: Seq<char>,
    pub metadata: MetadataView,
}

impl View for PasswordEntry {
    type V = EntryView;

    open spec fn view(&self) -> EntryView {
        EntryView { password: self.password@, metadata: self.metadata@ }
    }
}

/// Copies an optional string.
pub fn clone_opt(o: &Option<String>) -> (r: Option<String>)
    ensures
        opt_view(r) == opt_view(*o),
{
    match o {
        Some(s) => Some(s.clone()),
        None => None,
    }
}

impl Metadata {
    /// A copy of the metadata.
    pub fn duplicate(&self) -> (r: Metadata)
        ensures
            r@ == self@,
    {
        Metadata { date: self.date, text: clone_opt(&self.text), url: clone_opt(&self.url) }
    }
}

impl PasswordEntry {
    /// An entry made of a password and its metadata.
    pub fn new(password: String, metadata: Metadata) -> (r: Self)
        ensures
            r@ == (EntryView { password: password@, metadata: metadata@ }),
    {
        Self { password, metadata }
    }

    /// A copy of the entry.
    pub fn duplicate(&self) -> (r: PasswordEntry)
        ensures
            r@ == self@,
    {
        PasswordEntry { password: self.password.clone(), metadata: self.metadata.duplicate() }
    }
}

/// The mathematical value of a store: its (tag, entry) pairs in order.
pub type StoreView = Seq<(Seq<char>, EntryView)>;

/// No tag occurs twice.
pub open spec fn tags_distinct(s: StoreView) -> bool {
    forall|i: int, j: int| 0 <= i < s.len() && 0 <= j < s.len() && i != j ==> s[i].0 != s[j].0
}

/// Some entry carries the tag `t`.
pub open spec fn has_tag(s: StoreView, t: Seq<char>) -> bool {
    exists|i: int| 0 <= i < s.len() && s[i].0 == t
}

/// The position of the entry tagged `t` (meaningful when `has_tag(s, t)`).
pub open spec fn tag_index(s: StoreView, t: Seq<char>) -> int {
    choose|i: int| 0 <= i < s.len() && s[i].0 == t
}

/// The store read as a map from tags to entries.
pub open spec fn as_map(s: StoreView) -> Map<Seq<char>, EntryView> {
    Map::new(|t: Seq<char>| has_tag(s, t), |t: Seq<char>| s[tag_index(s, t)].1)
}

/// The store after a new entry is added under a fresh tag: it comes last.
pub open spec fn created(s: StoreView, t: Seq<char>, e: EntryView) -> StoreView {
    s.push((t, e))
}

/// The store after the entry tagged `t` is removed (unchanged if there is none).
pub open spec fn deleted(s: StoreView, t: Seq<char>) -> StoreView {
    if has_tag(s, t) {
        s.remove(tag_index(s, t))
    } else {
        s
    }
}

/// The store after `insert`: the entry under `t` is replaced in place, or added last.
pub open spec fn inserted(s: StoreView, t: Seq<char>, e: EntryView) -> StoreView {
    if has_tag(s, t) {
        s.update(tag_index(s, t), (t, e))
    } else {
        s.push((t, e))
    }
}

/// An entry with each given field replaced; fields given as `None` are kept.
pub open spec fn patch_entry(
    e: EntryView,
    text: Option<Seq<char>>,
    url: Option<Seq<char>>,
    date: Option<Timestamp>,
    password: Option<Seq<char>>,
) -> EntryView {
    EntryView {
        password: match password {
            Some(p) => p,
            None => e.password,
        },
        metadata: MetadataView {
            date: match date {
                Some(d) => Some(d),
                None => e.metadata.date,
            },
            text: match text {
                Some(x) => Some(x),
                None => e.metadata.text,
            },
            url: match url {
                Some(u) => Some(u),
                None => e.metadata.url,
            },
        },
    }
}

/// The store after the entry tagged `t` is patched (unchanged if there is none).
pub open spec fn patched(
    s: StoreView,
    t: Seq<char>,
    text: Option<Seq<char>>,
    url: Option<Seq<char>>,
    date: Option<Timestamp>,
    password: Option<Seq<char>>,
) -> StoreView {
    if has_tag(s, t) {
        let i = tag_index(s, t);
        s.update(i, (t, patch_entry(s[i].1, text, url, date, password)))
    } else {
        s
    }
}

/// The length in bytes of a tag's UTF-8 encoding.
pub open spec fn byte_len(t: Seq<char>) -> nat {
    encode_utf8(t).len()
}

/// The pattern matches the tag at position `i`.
pub open spec fn matches_at(p: Seq<char>, s: StoreView, i: int) -> bool {
    0 <= i < s.len() && regex_is_match(p, s[i].0)
}

/// Some tag matches the pattern.
pub open spec fn any_match(p: Seq<char>, s: StoreView) -> bool {
    exists|j: int| matches_at(p, s, j)
}

/// Position `i` holds the first of the shortest (in bytes) matching tags.
pub open spec fn is_best_match(p: Seq<char>, s: StoreView, i: int) -> bool {
    &&& matches_at(p, s, i)
    &&& forall|j: int| matches_at(p, s, j) ==> byte_len(s[i].0) <= byte_len(s[j].0)
    &&& forall|j: int| 0 <= j < i && matches_at(p, s, j) ==> byte_len(s[i].0) < byte_len(s[j].0)
}

/// Why a store operation was refused.
#[derive(Debug, Clone, Copy, PartialEq, Eq, Structural)]
pub enum StoreError {
    /// An entry with this tag exists already.
    AlreadyExists,
    /// No entry carries this tag.
    NotFound,
}

/// The password store. Tags are pairwise distinct; entries keep the order in
/// which they were added.
#[derive(Debug)]
pub struct Format {
    passwords: Vec<(String, PasswordEntry)>,
}

impl View for Format {
    type V = StoreView;

    closed spec fn view(&self) -> StoreView {
        self.passwords@.map_values(|p: (String, PasswordEntry)| (p.0@, p.1@))
    }
}

impl Format {
    #[verifier::type_invariant]
    spec fn inv(self) -> bool {
        tags_distinct(self@)
    }

    /// An empty store.
    pub fn new() -> (r: Format)
        ensures
            r@ == Seq::<(Seq<char>, EntryView)>::empty(),
    {
        let r = Format { passwords: Vec::new() };
        assert(r@ =~= Seq::<(Seq<char>, EntryView)>::empty());
        r
    }

    /// The number of entries.
    pub fn len(&self) -> (n: usize)
        ensures
            n == self@.len(),
    {
        self.passwords.len()
    }

    /// Whether the store holds no entry.
    pub fn is_empty(&self) -> (b: bool)
        ensures
            b == (self@.len() == 0),
    {
        self.passwords.len() == 0
    }

    /// The tag at position `i`.
    pub fn tag_at(&self, i: usize) -> (t: &String)
        requires
            i < self@.len(),
        ensures
            t@ == self@[i as int].0,
    {
        &self.passwords[i].0
    }

    /// The entry at position `i`.
    pub fn entry_at(&self, i: usize) -> (e: &PasswordEntry)
        requires
            i < self@.len(),
        ensures
            e@ == self@[i as int].1,
    {
        &self.passwords[i].1
    }

    /// The position of the entry tagged `tag`, if any.
    pub fn position(&self, tag: &str) -> (r: Option<usize>)
        ensures
            r is Some <==> has_tag(self@, tag@),
            r matches Some(i) ==> i == tag_index(self@, tag@) && i < self@.len()
                && self@[i as int].0 == tag@,
    {
        proof {
            use_type_invariant(self);
        }
        let wanted = tag.to_owned();
        let n = self.passwords.len();
        let mut i: usize = 0;
        while i < n
            invariant
                n == self@.len(),
                i <= n,
                wanted@ == tag@,
                tags_distinct(self@),
                forall|j: int| 0 <= j < i ==> self@[j].0 != tag@,
            decreases n - i,
        {
            if self.passwords[i].0 == wanted {
                proof {
                    assert(self@[i as int].0 == tag@);
                    let k = tag_index(self@, tag@);
                    assert(0 <= k < self@.len() && self@[k].0 == tag@);
                    assert(self@[k].0 == self@[i as int].0);
                }
                return Some(i);
            }
            i = i + 1;
        }
        None
    }

    /// Whether an entry carries the tag `entry`.
    pub fn exist(&self, entry: &String) -> (b: bool)
        ensures
            b == has_tag(self@, entry@),
    {
        self.position(entry.as_str()).is_some()
    }

    /// Adds `entry` under `tag`, replacing in place an entry that carries the
    /// tag already.
    pub fn insert(&mut self, tag: String, entry: PasswordEntry)
        ensures
            final(self)@ == inserted(old(self)@, tag@, entry@),
    {
        proof {
            use_type_invariant(&*self);
        }
        let ghost s = self@;
        let pos = self.position(tag.as_str());
        let mut v: Vec<(String, PasswordEntry)> = Vec::new();
        std::mem::swap(&mut v, &mut self.passwords);
        match pos {
            Some(i) => {
                v.set(i, (tag, entry));
            },
            None => {
                v.push((tag, entry));
            },
        }
        proof {
            let w = v@.map_values(|p: (String, PasswordEntry)| (p.0@, p.1@));
            assert(w =~= inserted(s, tag@, entry@));
            assert(tags_distinct(w));
        }
        self.passwords = v;
    }

    /// Adds a new entry under `tag`; refused, with the store unchanged, when
    /// the tag is taken.
    pub fn create_with(&mut self, tag: String, entry: PasswordEntry) -> (r: Result<(), StoreError>)
        ensures
            r is Err <==> has_tag(old(self)@, tag@),
            r matches Err(e) ==> e == StoreError::AlreadyExists && final(self)@ == old(self)@,
            r is Ok ==> final(self)@ == created(old(self)@, tag@, entry@),
    {
        if self.position(tag.as_str()).is_some() {
            return Err(StoreError::AlreadyExists);
        }
        self.insert(tag, entry);
        Ok(())
    }

    /// Removes the entry tagged `tag`; refused, with the store unchanged, when
    /// there is none.
    pub fn delete(&mut self, tag: &str) -> (r: Result<(), StoreError>)
        ensures
            r is Err <==> !has_tag(old(self)@, tag@),
            r matches Err(e) ==> e == StoreError::NotFound,
            final(self)@ == deleted(old(self)@, tag@),
    {
        proof {
            use_type_invariant(&*self);
        }
        let ghost s = self@;
        match self.position(tag) {
            None => Err(StoreError::NotFound),
            Some(i) => {
                let mut v: Vec<(String, PasswordEntry)> = Vec::new();
                std::mem::swap(&mut v, &mut self.passwords);
                let _ = v.remove(i);
                proof {
                    let w = v@.map_values(|p: (String, PasswordEntry)| (p.0@, p.1@));
                    assert(w =~= s.remove(i as int));
                    assert(tags_distinct(w));
                }
                self.passwords = v;
                Ok(())
            },
        }
    }

    /// Replaces the given fields of the entry tagged `tag`; returns whether
    /// there was such an entry. Without one the store is unchanged.
    pub fn update_entry(
        &mut self,
        tag: &str,
        text: Option<String>,
        url: Option<String>,
        date: Option<Timestamp>,
        password: Option<String>,
    ) -> (found: bool)
        ensures
            found == has_tag(old(self)@, tag@),
            final(self)@ == patched(
                old(self)@,
                tag@,
                opt_view(text),
                opt_view(url),
                date,
                opt_view(password),
            ),
    {
        proof {
            use_type_invariant(&*self);
        }
        let ghost s = self@;
        match self.position(tag) {
            None => false,
            Some(i) => {
                let mut v: Vec<(String, PasswordEntry)> = Vec::new();
                std::mem::swap(&mut v, &mut self.passwords);
                let (t, mut e) = v.remove(i);
                match text {
                    Some(x) => {
                        e.metadata.text = Some(x);
                    },
                    None => {},
                }
                match url {
                    Some(u) => {
                        e.metadata.url = Some(u);
                    },
                    None => {},
                }
                match date {
                    Some(d) => {
                        e.metadata.date = Some(d);
                    },
                    None => {},
                }
                match password {
                    Some(p) => {
                        e.password = p;
                    },
                    None => {},
                }
                v.insert(i, (t, e));
                proof {
                    let w = v@.map_values(|p: (String, PasswordEntry)| (p.0@, p.1@));
                    assert(w =~= patched(s, tag@, opt_view(text), opt_view(url), date, opt_view(password)));
                    assert(tags_distinct(w));
                }
                self.passwords = v;
                true
            },
        }
    }

    /// A copy of the store.
    pub fn duplicate(&self) -> (r: Format)
        ensures
            r@ == self@,
    {
        proof {
            use_type_invariant(self);
        }
        let mut r = Format::new();
        let n = self.len();
        let mut i: usize = 0;
        while i < n
            invariant
                n == self@.len(),
                i <= n,
                r@ == self@.take(i as int),
                tags_distinct(self@),
            decreases n - i,
        {
            let ghost before = r@;
            let t = self.tag_at(i).clone();
            let e = self.entry_at(i).duplicate();
            proof {
                assert(!has_tag(before, t@)) by {
                    if has_tag(before, t@) {
                        let k = tag_index(before, t@);
                        assert(self@[k].0 == self@[i as int].0);
                    }
                }
            }
            r.insert(t, e);
            assert(self@.take(i + 1) =~= self@.take(i as int).push(self@[i as int]));
            i = i + 1;
        }
        assert(self@.take(n as int) =~= self@);
        r
    }

    /// The position of the first of the shortest tags that `pattern` matches.
    pub fn best_match(&self, pattern: &Pattern) -> (r: Option<usize>)
        ensures
            r is None <==> !any_match(pattern@, self@),
            r matches Some(i) ==> is_best_match(pattern@, self@, i as int),
    {
        let n = self.passwords.len();
        let mut best: Option<usize> = None;
        let mut best_len: usize = 0;
        let mut i: usize = 0;
        while i < n
            invariant
                n == self@.len(),
                i <= n,
                best is None <==> forall|j: int| 0 <= j < i ==> !matches_at(pattern@, self@, j),
                best matches Some(b) ==> {
                    &&& b < i
                    &&& matches_at(pattern@, self@, b as int)
                    &&& best_len == byte_len(self@[b as int].0)
                    &&& forall|j: int| 0 <= j < i && matches_at(pattern@, self@, j)
                        ==> byte_len(self@[b as int].0) <= byte_len(self@[j].0)
                    &&& forall|j: int| 0 <= j < b && matches_at(pattern@, self@, j)
                        ==> byte_len(self@[b as int].0) < byte_len(self@[j].0)
                },
            decreases n - i,
        {
            let tag = self.passwords[i].0.as_str();
            assert(tag@ == self@[i as int].0);
            if pattern.is_match(tag) {
                let len = tag.as_bytes().len();
                assert(len == byte_len(self@[i as int].0));
                match best {
                    None => {
                        best = Some(i);
                        best_len = len;
                    },
                    Some(_) => {
                        if len < best_len {
                            best = Some(i);
                            best_len = len;
                        }
                    },
                }
            }
            proof {
                match best {
                    Some(b) => {
                        assert(matches_at(pattern@, self@, b as int));
                    },
                    None => {
                        assert(!matches_at(pattern@, self@, i as int));
                    },
                }
            }
            i = i + 1;
        }
        proof {
            if best is None {
                assert(!any_match(pattern@, self@));
            }
        }
        best
    }
}


/// Adding an entry under a fresh tag keeps the tags pairwise distinct.
pub proof fn lemma_create_keeps_tags_distinct(s: StoreView, t: Seq<char>, e: EntryView)
    requires
        tags_distinct(s),
        !has_tag(s, t),
    ensures
        tags_distinct(created(s, t, e)),
{
    let c = created(s, t, e);
    assert forall|i: int, j: int| 0 <= i < c.len() && 0 <= j < c.len() && i != j implies c[i].0
        != c[j].0 by {
        if i == s.len() {
            assert(s[j].0 == c[j].0);
        } else if j == s.len() {
            assert(s[i].0 == c[i].0);
        }
    }
}

/// Deleting the tag that was just created gives back the store as it was.
pub proof fn lemma_delete_undoes_create(s: StoreView, t: Seq<char>, e: EntryView)
    requires
        tags_distinct(s),
        !has_tag(s, t),
    ensures
        deleted(created(s, t, e), t) == s,
{
    let c = created(s, t, e);
    assert(c[s.len() as int].0 == t);
    assert(has_tag(c, t));
    lemma_create_keeps_tags_distinct(s, t, e);
    let k = tag_index(c, t);
    assert(c[k].0 == c[s.len() as int].0);
    assert(k == s.len());
    assert(c.remove(k) =~= s);
}

/// Read as a map, creating an entry adds exactly that tag and entry.
pub proof fn lemma_create_map(s: StoreView, t: Seq<char>, e: EntryView)
    requires
        tags_distinct(s),
        !has_tag(s, t),
    ensures
        as_map(created(s, t, e)) == as_map(s).insert(t, e),
        has_tag(created(s, t, e), t),
{
    let c = created(s, t, e);
    lemma_create_keeps_tags_distinct(s, t, e);
    assert(c[s.len() as int].0 == t);
    assert forall|u: Seq<char>| #[trigger] has_tag(c, u) == (has_tag(s, u) || u == t) by {
        if has_tag(s, u) {
            let i = tag_index(s, u);
            assert(c[i].0 == u);
        }
        if has_tag(c, u) && u != t {
            let i = tag_index(c, u);
            assert(i != s.len());
            assert(s[i].0 == u);
        }
    }
    assert forall|u: Seq<char>| has_tag(c, u) implies #[trigger] as_map(c)[u] == as_map(
        s,
    ).insert(t, e)[u] by {
        let i = tag_index(c, u);
        if u == t {
            assert(c[i].0 == c[s.len() as int].0);
            assert(i == s.len());
        } else {
            let k = tag_index(s, u);
            assert(c[k].0 == u);
            assert(c[i].0 == c[k].0);
        }
    }
    assert(as_map(c) =~= as_map(s).insert(t, e));
}

/// Read as a map, deleting a tag removes exactly that tag.
pub proof fn lemma_delete_map(s: StoreView, t: Seq<char>)
    requires
        tags_distinct(s),
    ensures
        as_map(deleted(s, t)) == as_map(s).remove(t),
        !has_tag(deleted(s, t), t),
        tags_distinct(deleted(s, t)),
{
    let d = deleted(s, t);
    if has_tag(s, t) {
        let k = tag_index(s, t);
        assert forall|i: int, j: int| 0 <= i < d.len() && 0 <= j < d.len() && i != j implies d[i].0
            != d[j].0 by {
            let si = if i < k { i } else { i + 1 };
            let sj = if j < k { j } else { j + 1 };
            assert(d[i] == s[si]);
            assert(d[j] == s[sj]);
        }
        assert forall|u: Seq<char>| #[trigger] has_tag(d, u) == (has_tag(s, u) && u != t) by {
            if has_tag(d, u) {
                let i = tag_index(d, u);
                let si = if i < k { i } else { i + 1 };
                assert(d[i] == s[si]);
                assert(si != k);
            }
            if has_tag(s, u) && u != t {
                let i = tag_index(s, u);
                assert(i != k);
                let di = if i < k { i } else { i - 1 };
                assert(d[di] == s[i]);
            }
        }
        assert forall|u: Seq<char>| has_tag(d, u) implies #[trigger] as_map(d)[u] == as_map(s)[u] by {
            let i = tag_index(d, u);
            let si = if i < k { i } else { i + 1 };
            assert(d[i] == s[si]);
            let m = tag_index(s, u);
            assert(s[m].0 == s[si].0);
        }
        assert(as_map(d) =~= as_map(s).remove(t));
    } else {
        assert(as_map(s).remove(t) =~= as_map(s));
    }
}

/// Inserting keeps the tags distinct and, read as a map, sets `t` to `e`.
pub proof fn lemma_insert_map(s: StoreView, t: Seq<char>, e: EntryView)
    requires
        tags_distinct(s),
    ensures
        tags_distinct(inserted(s, t, e)),
        as_map(inserted(s, t, e)) == as_map(s).insert(t, e),
{
    if has_tag(s, t) {
        let k = tag_index(s, t);
        let w = inserted(s, t, e);
        assert forall|i: int, j: int| 0 <= i < w.len() && 0 <= j < w.len() && i != j implies w[i].0
            != w[j].0 by {
            assert(w[i].0 == s[i].0);
            assert(w[j].0 == s[j].0);
        }
        assert forall|u: Seq<char>| #[trigger] has_tag(w, u) == has_tag(s, u) by {
            if has_tag(w, u) {
                let i = tag_index(w, u);
                assert(s[i].0 == u);
            }
            if has_tag(s, u) {
                let i = tag_index(s, u);
                assert(w[i].0 == u);
            }
        }
        assert forall|u: Seq<char>| has_tag(w, u) implies #[trigger] as_map(w)[u] == as_map(
            s,
        ).insert(t, e)[u] by {
            let i = tag_index(w, u);
            let m = tag_index(s, u);
            assert(w[m].0 == u);
            assert(w[i].0 == w[m].0);
        }
        assert(as_map(w) =~= as_map(s).insert(t, e));
    } else {
        lemma_create_keeps_tags_distinct(s, t, e);
        lemma_create_map(s, t, e);
    }
}

/// Patching an entry keeps every tag in its place, keeps the tags distinct,
/// and leaves every other entry as it was.
pub proof fn lemma_patch_keeps_tags(
    s: StoreView,
    t: Seq<char>,
    text: Option<Seq<char>>,
    url: Option<Seq<char>>,
    date: Option<Timestamp>,
    password: Option<Seq<char>>,
)
    requires
        tags_distinct(s),
    ensures
        patched(s, t, text, url, date, password).len() == s.len(),
        forall|i: int| 0 <= i < s.len() ==> #[trigger] patched(s, t, text, url, date, password)[i].0
            == s[i].0,
        forall|i: int| 0 <= i < s.len() && s[i].0 != t ==> #[trigger] patched(s, t, text, url, date, password)[i]
            == s[i],
        tags_distinct(patched(s, t, text, url, date, password)),
        as_map(patched(s, t, text, url, date, password)).dom() == as_map(s).dom(),
{
    let w = patched(s, t, text, url, date, password);
    if has_tag(s, t) {
        let k = tag_index(s, t);
        assert forall|i: int| 0 <= i < s.len() implies #[trigger] w[i].0 == s[i].0 by {}
        assert forall|u: Seq<char>| #[trigger] has_tag(w, u) == has_tag(s, u) by {
            if has_tag(w, u) {
                let i = tag_index(w, u);
                assert(s[i].0 == u);
            }
            if has_tag(s, u) {
                let i = tag_index(s, u);
                assert(w[i].0 == u);
            }
        }
        assert(as_map(w).dom() =~= as_map(s).dom());
    }
}

/// Patching twice with the same fields gives what patching once gave.
pub proof fn lemma_patch_idempotent(
    s: StoreView,
    t: Seq<char>,
    text: Option<Seq<char>>,
    url: Option<Seq<char>>,
    date: Option<Timestamp>,
    password: Option<Seq<char>>,
)
    requires
        tags_distinct(s),
    ensures
        patched(patched(s, t, text, url, date, password), t, text, url, date, password) == patched(
            s,
            t,
            text,
            url,
            date,
            password,
        ),
{
    let w = patched(s, t, text, url, date, password);
    lemma_patch_keeps_tags(s, t, text, url, date, password);
    if has_tag(s, t) {
        let i = tag_index(s, t);
        assert(w[i].0 == t);
        assert(has_tag(w, t));
        let k = tag_index(w, t);
        assert(w[k].0 == w[i].0);
        assert(k == i);
        let w2 = patched(w, t, text, url, date, password);
        assert(w2 =~= w);
    } else {
        assert(!has_tag(w, t)) by {
            if has_tag(w, t) {
                let k = tag_index(w, t);
                assert(s[k].0 == t);
            }
        }
    }
}

/// At most one position is the best match of a pattern.
pub proof fn lemma_best_match_unique(p: Seq<char>, s: StoreView, i: int, j: int)
    requires
        is_best_match(p, s, i),
        is_best_match(p, s, j),
    ensures
        i == j,
{
    if i < j {
        assert(byte_len(s[j].0) < byte_len(s[i].0));
    } else if j < i {
        assert(byte_len(s[i].0) < byte_len(s[j].0));
    }
}

} // verus!
