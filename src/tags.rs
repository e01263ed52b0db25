use vstd::prelude::*;
use vstd::string::*;

verus! {

/// Splits at the first `c`.
pub(crate) fn split_once_char(code: &str, c: char) -> (r: Option<(String, String)>)
    ensures
        match r {
            Some((a, b)) => {
                &&& code@ == a@ + seq![c] + b@
                &&& !a@.contains(c)
            },
            None => !code@.contains(c),
        },
{
    let n = code.unicode_len();
    let mut i: usize = 0;
    while i < n
        invariant
            n == code@.len(),
            i <= n,
            forall|j: int| 0 <= j < i ==> code@[j] != c,
        decreases n - i,
    {
        if code.get_char(i) == c {
            let a = code.substring_char(0, i).to_owned();
            let b = code.substring_char(i + 1, n).to_owned();
            assert(code@ =~= a@ + seq![c] + b@);
            assert(!a@.contains(c)) by {
                if a@.contains(c) {
                    let j = choose|j: int| 0 <= j < a@.len() && a@[j] == c;
                    assert(code@[j] == c);
                }
            }
            return Some((a, b));
        }
        i = i + 1;
    }
    assert(!code@.contains(c)) by {
        if code@.contains(c) {
            let j = choose|j: int| 0 <= j < code@.len() && code@[j] == c;
            assert(code@[j] != c);
        }
    }
    None
}

/// A tag key, either a static name or one composed at run time.
#[derive(Clone, Debug)]
pub enum TagKey {
    Static(&'static str),
    String(String),
}

impl View for TagKey {
    type V = Seq<char>;

    open spec fn view(&self) -> Seq<char> {
        match self {
            TagKey::Static(s) => s@,
            TagKey::String(s) => s@,
        }
    }
}

impl TagKey {
    pub fn from(string: &'static str) -> (r: Self)
        ensures
            r == TagKey::Static(string),
            r@ == string@,
    {
        TagKey::Static(string)
    }

    pub fn as_str(&self) -> (r: &str)
        ensures
            r@ == self@,
    {
        match self {
            TagKey::Static(v) => v,
            TagKey::String(v) => v.as_str(),
        }
    }

    /// Composes `self:other`.
    pub fn add(self, other: &str) -> (r: Self)
        ensures
            r@ == self@ + ":"@ + other@,
    {
        let joined = self.as_str().to_owned().concat(":").concat(other);
        TagKey::String(joined)
    }
}

/// The abstract content of a tag set: key/value pairs in storage order.
pub type TagSeq = Seq<(Seq<char>, Seq<char>)>;

pub open spec fn keys_distinct(s: TagSeq) -> bool {
    forall|i: int, j: int| 0 <= i < j < s.len() ==> s[i].0 != s[j].0
}

pub open spec fn has_key(s: TagSeq, k: Seq<char>) -> bool {
    exists|i: int| 0 <= i < s.len() && s[i].0 == k
}

pub open spec fn key_index(s: TagSeq, k: Seq<char>) -> int {
    choose|i: int| 0 <= i < s.len() && s[i].0 == k
}

/// The value stored under `k`, if any.
pub open spec fn tag_get(s: TagSeq, k: Seq<char>) -> Option<Seq<char>> {
    if has_key(s, k) {
        Some(s[key_index(s, k)].1)
    } else {
        None
    }
}

/// Setting `k` to `v`: an existing entry is overwritten in place, a new key is appended.
pub open spec fn tag_set(s: TagSeq, k: Seq<char>, v: Seq<char>) -> TagSeq {
    if has_key(s, k) {
        s.update(key_index(s, k), (k, v))
    } else {
        s.push((k, v))
    }
}

/// The tags holding the given keys, in the order of `keys`, each with its value in `s`.
pub open spec fn tag_subset(s: TagSeq, keys: Seq<Seq<char>>) -> TagSeq
    decreases keys.len(),
{
    if keys.len() == 0 {
        Seq::empty()
    } else {
        let rest = tag_subset(s, keys.drop_last());
        match tag_get(s, keys.last()) {
            Some(v) => rest.push((keys.last(), v)),
            None => rest,
        }
    }
}

/// Setting each pair in turn.
pub open spec fn tags_of_pairs(pairs: TagSeq) -> TagSeq
    decreases pairs.len(),
{
    if pairs.len() == 0 {
        Seq::empty()
    } else {
        let p = pairs.last();
        tag_set(tags_of_pairs(pairs.drop_last()), p.0, p.1)
    }
}

pub proof fn lemma_get_at(s: TagSeq, i: int)
    requires
        keys_distinct(s),
        0 <= i < s.len(),
    ensures
        tag_get(s, s[i].0) == Some(s[i].1),
{
    let k = s[i].0;
    assert(has_key(s, k));
    let j = key_index(s, k);
    assert(j == i);
}

pub proof fn lemma_set(s: TagSeq, k: Seq<char>, v: Seq<char>)
    requires
        keys_distinct(s),
    ensures
        keys_distinct(tag_set(s, k, v)),
        tag_get(tag_set(s, k, v), k) == Some(v),
        forall|k2: Seq<char>| k2 != k ==> tag_get(tag_set(s, k, v), k2) == tag_get(s, k2),
{
    let t = tag_set(s, k, v);
    if has_key(s, k) {
        let i = key_index(s, k);
        assert(keys_distinct(t));
        lemma_get_at(t, i);
    } else {
        assert(keys_distinct(t));
        lemma_get_at(t, s.len() as int);
    }
    assert forall|k2: Seq<char>| k2 != k implies tag_get(t, k2) == tag_get(s, k2) by {
        if has_key(s, k2) {
            let j = key_index(s, k2);
            lemma_get_at(t, j);
        } else {
            assert(!has_key(t, k2));
        }
    }
}

/// Queries on a tag set.
pub trait TagsRead: Sized {
    /// The tags as key/value pairs.
    spec fn tags_view(&self) -> TagSeq;

    /// The tag set is well formed: no key occurs twice.
    spec fn tags_wf(&self) -> bool;

    /// The value of `k`, if present.
    fn get(&self, k: &str) -> (r: Option<&String>)
        requires
            self.tags_wf(),
        ensures
            match r {
                Some(v) => tag_get(self.tags_view(), k@) == Some(v@),
                None => tag_get(self.tags_view(), k@) is None,
            },
    ;

    /// Whether `k` is present with value `v`.
    fn is(&self, k: &str, v: &str) -> (r: bool)
        requires
            self.tags_wf(),
        ensures
            r == (tag_get(self.tags_view(), k@) == Some(v@)),
    ;

    /// Whether `k` is present with one of `values`.
    fn is_any(&self, k: &str, values: &[&str]) -> (r: bool)
        requires
            self.tags_wf(),
        ensures
            r == exists|i: int|
                0 <= i < values@.len() && tag_get(self.tags_view(), k@) == Some(values@[i]@),
    ;

    /// The tags of the given keys that are present, in the order of `keys`.
    /// A key may be listed twice only where it is absent.
    fn subset(&self, keys: &[&str]) -> (r: Self)
        requires
            self.tags_wf(),
            forall|i: int, j: int|
                #![trigger keys@[i], keys@[j]]
                0 <= i < j < keys@.len() && keys@[i]@ == keys@[j]@ ==> !has_key(
                    self.tags_view(),
                    keys@[i]@,
                ),
        ensures
            r.tags_wf(),
            r.tags_view() == tag_subset(self.tags_view(), keys@.map_values(|k: &str| k@)),
    ;
}

/// Writes to a tag set.
pub trait TagsWrite: TagsRead {
    /// Sets `k` to `v`, returning the value it had before.
    fn insert(&mut self, k: &str, v: String) -> (r: Option<String>)
        requires
            old(self).tags_wf(),
        ensures
            final(self).tags_wf(),
            final(self).tags_view() == tag_set(old(self).tags_view(), k@, v@),
            match r {
                Some(x) => tag_get(old(self).tags_view(), k@) == Some(x@),
                None => tag_get(old(self).tags_view(), k@) is None,
            },
    ;
}

impl TagsRead for Tags {
    open spec fn tags_view(&self) -> TagSeq {
        self@
    }

    open spec fn tags_wf(&self) -> bool {
        self.wf()
    }

    /// The value of `k`, if present.
    fn get(&self, k: &str) -> (r: Option<&String>)
    {
        match self.find(k) {
            Some(i) => Some(&self.entries[i].1),
            None => None,
        }
    }

    /// Whether `k` is present with value `v`.
    fn is(&self, k: &str, v: &str) -> (r: bool)
    {
        match self.get(k) {
            Some(x) => *x == v.to_owned(),
            None => false,
        }
    }

    /// Whether `k` is present with one of `values`.
    fn is_any(&self, k: &str, values: &[&str]) -> (r: bool)
    {
        match self.get(k) {
            Some(x) => {
                let mut i: usize = 0;
                while i < values.len()
                    invariant
                        i <= values@.len(),
                        tag_get(self@, k@) == Some(x@),
                        forall|j: int| 0 <= j < i ==> x@ != values@[j]@,
                    decreases values.len() - i,
                {
                    if *x == values[i].to_owned() {
                        return true;
                    }
                    i = i + 1;
                }
                false
            },
            None => false,
        }
    }

    /// The tags of the given keys that are present, in the order of `keys`.
    fn subset(&self, keys: &[&str]) -> (r: Self)
    {
        let ghost kv = keys@.map_values(|k: &str| k@);
        let mut out = Tags::default();
        let mut i: usize = 0;
        while i < keys.len()
            invariant
                i <= keys@.len(),
                kv == keys@.map_values(|k: &str| k@),
                forall|a: int, b: int|
                    #![trigger keys@[a], keys@[b]]
                    0 <= a < b < keys@.len() && keys@[a]@ == keys@[b]@ ==> !has_key(self@, keys@[a]@),
                self.wf(),
                out.wf(),
                out@ == tag_subset(self@, kv.subrange(0, i as int)),
                forall|j: int| 0 <= j < out@.len() ==> kv.subrange(0, i as int).contains(#[trigger] out@[j].0),
            decreases keys.len() - i,
        {
            assert(kv.subrange(0, i + 1).drop_last() =~= kv.subrange(0, i as int));
            match self.get(keys[i]) {
                Some(v) => {
                    let ghost before = out@;
                    assert(!has_key(before, kv[i as int])) by {
                        if has_key(before, kv[i as int]) {
                            let j = key_index(before, kv[i as int]);
                            assert(kv.subrange(0, i as int).contains(before[j].0));
                            let a = choose|a: int| 0 <= a < i && kv.subrange(0, i as int)[a] == before[j].0;
                            assert(keys@[a]@ == keys@[i as int]@);
                            assert(has_key(self@, keys@[i as int]@));
                        }
                    }
                    out.entries.push((keys[i].to_owned(), v.clone()));
                    assert(out@ =~= before.push((kv[i as int], v@)));
                    assert(kv.subrange(0, i + 1) =~= kv.subrange(0, i as int).push(kv[i as int]));
                },
                None => {},
            }
            i = i + 1;
        }
        assert(kv.subrange(0, keys.len() as int) =~= kv);
        out
    }
}

impl TagsWrite for Tags {
    /// Sets `k` to `v`, returning the value it had before.
    fn insert(&mut self, k: &str, v: String) -> (r: Option<String>)
    {
        proof {
            lemma_set(self@, k@, v@);
        }
        match self.find(k) {
            Some(i) => {
                let ghost before = self@;
                let prev = self.entries[i].1.clone();
                self.entries.set(i, (k.to_owned(), v));
                assert(has_key(before, k@));
                assert(before[key_index(before, k@)].0 == k@);
                assert(key_index(before, k@) == i);
                assert(self@ =~= before.update(i as int, (k@, v@)));
                Some(prev)
            },
            None => {
                let ghost before = self@;
                self.entries.push((k.to_owned(), v));
                assert(self@ =~= before.push((k@, v@)));
                None
            },
        }
    }
}

/// Raised when a key is written twice where a single write was owed.
#[derive(Clone, Debug, PartialEq, Eq)]
pub struct DuplicateKeyError {
    pub key: String,
}

/// A set of OSM tags: string keys, each with one string value.
#[derive(Clone, Debug)]
pub struct Tags {
    entries: Vec<(String, String)>,
}

impl View for Tags {
    type V = TagSeq;

    closed spec fn view(&self) -> TagSeq {
        self.entries@.map_values(|p: (String, String)| (p.0@, p.1@))
    }
}

impl Default for Tags {
    fn default() -> (r: Self)
        ensures
            r@ == Seq::<(Seq<char>, Seq<char>)>::empty(),
    {
        let r = Tags { entries: Vec::new() };
        assert(r@ =~= Seq::<(Seq<char>, Seq<char>)>::empty());
        r
    }
}

impl Tags {
    pub open spec fn wf(&self) -> bool {
        keys_distinct(self@)
    }

    /// Builds a tag set from key/value pairs; a later pair overrides an earlier one of the same key.
    pub fn new(map: Vec<(String, String)>) -> (r: Tags)
        ensures
            r.wf(),
            r@ == tags_of_pairs(map@.map_values(|p: (String, String)| (p.0@, p.1@))),
    {
        let ghost pv = map@.map_values(|p: (String, String)| (p.0@, p.1@));
        let mut tags = Tags::default();
        let mut i: usize = 0;
        while i < map.len()
            invariant
                i <= map.len(),
                pv == map@.map_values(|p: (String, String)| (p.0@, p.1@)),
                tags.wf(),
                tags@ == tags_of_pairs(pv.subrange(0, i as int)),
            decreases map.len() - i,
        {
            let k = map[i].0.clone();
            let v = map[i].1.clone();
            assert(pv.subrange(0, i + 1).drop_last() =~= pv.subrange(0, i as int));
            tags.insert(k.as_str(), v);
            i = i + 1;
        }
        assert(pv.subrange(0, map.len() as int) =~= pv);
        tags
    }

    /// The stored pairs, in storage order.
    pub fn map(&self) -> (r: &Vec<(String, String)>)
        ensures
            r@.map_values(|p: (String, String)| (p.0@, p.1@)) == self@,
    {
        &self.entries
    }

    fn find(&self, k: &str) -> (r: Option<usize>)
        requires
            self.wf(),
        ensures
            match r {
                Some(i) => i < self@.len() && self@[i as int].0 == k@ && tag_get(self@, k@) == Some(
                    self@[i as int].1,
                ),
                None => !has_key(self@, k@) && tag_get(self@, k@) is None,
            },
    {
        let key = k.to_owned();
        let mut i: usize = 0;
        while i < self.entries.len()
            invariant
                i <= self.entries.len(),
                self.entries@.len() == self@.len(),
                key@ == k@,
                self.wf(),
                forall|j: int| 0 <= j < i ==> self@[j].0 != k@,
            decreases self.entries.len() - i,
        {
            if self.entries[i].0 == key {
                proof {
                    lemma_get_at(self@, i as int);
                }
                return Some(i);
            }
            i = i + 1;
        }
        None
    }

    /// Sets `k` to `v` where `k` is absent; a present key is an error and leaves the tags as they were.
    pub fn checked_insert(&mut self, k: &str, v: String) -> (r: Result<(), DuplicateKeyError>)
        requires
            old(self).wf(),
        ensures
            final(self).wf(),
            match r {
                Ok(()) => !has_key(old(self)@, k@) && final(self)@ == old(self)@.push((k@, v@)),
                Err(e) => has_key(old(self)@, k@) && final(self)@ == old(self)@ && e.key@ == k@,
            },
    {
        match self.find(k) {
            Some(_) => Err(DuplicateKeyError { key: k.to_owned() }),
            None => {
                let ghost before = self@;
                self.entries.push((k.to_owned(), v));
                assert(self@ =~= before.push((k@, v@)));
                Ok(())
            },
        }
    }

    /// A tag set of the given pairs, in order; a key given twice is an error.
    pub fn try_from_pairs(pairs: &Vec<(String, String)>) -> (r: Result<Tags, DuplicateKeyError>)
        ensures
            match r {
                Ok(t) => t.wf() && keys_distinct(string_pairs(pairs@)) && t@ == string_pairs(pairs@),
                Err(_) => !keys_distinct(string_pairs(pairs@)),
            },
    {
        let ghost pv = string_pairs(pairs@);
        let mut t = Tags::default();
        let mut i: usize = 0;
        while i < pairs.len()
            invariant
                i <= pairs@.len(),
                pv == string_pairs(pairs@),
                t.wf(),
                t@ == pv.subrange(0, i as int),
            decreases pairs.len() - i,
        {
            let k = pairs[i].0.as_str();
            match t.checked_insert(k, pairs[i].1.clone()) {
                Ok(()) => {},
                Err(e) => {
                    proof {
                        let j = key_index(t@, k@);
                        assert(pv[j].0 == pv[i as int].0);
                    }
                    return Err(e);
                },
            }
            assert(t@ =~= pv.subrange(0, i + 1));
            i = i + 1;
        }
        assert(pv.subrange(0, pairs.len() as int) =~= pv);
        Ok(t)
    }

    /// A tag set of one pair.
    pub fn from_str_pair(pair: [&str; 2]) -> (r: Tags)
        ensures
            r.wf(),
            r@ == seq![(pair@[0]@, pair@[1]@)],
    {
        let mut t = Tags::default();
        let _ = t.insert(pair[0], pair[1].to_owned());
        proof {
            assert(!has_key(Seq::<(Seq<char>, Seq<char>)>::empty(), pair@[0]@));
        }
        assert(t@ =~= seq![(pair@[0]@, pair@[1]@)]);
        t
    }

    /// A tag set of several pairs; a key given twice is an error.
    pub fn from_str_pairs(pairs: &[[&str; 2]]) -> (r: Result<Tags, DuplicateKeyError>)
        ensures
            match r {
                Ok(t) => t.wf() && keys_distinct(pairs_view(pairs@)) && t@ == pairs_view(pairs@),
                Err(_) => !keys_distinct(pairs_view(pairs@)),
            },
    {
        let ghost pv = pairs_view(pairs@);
        let mut t = Tags::default();
        let mut i: usize = 0;
        while i < pairs.len()
            invariant
                i <= pairs@.len(),
                pv == pairs_view(pairs@),
                t.wf(),
                t@ == pv.subrange(0, i as int),
            decreases pairs.len() - i,
        {
            let p = pairs[i];
            match t.checked_insert(p[0], p[1].to_owned()) {
                Ok(()) => {},
                Err(e) => {
                    proof {
                        let j = key_index(t@, p@[0]@);
                        assert(pv[j].0 == pv[i as int].0);
                    }
                    return Err(e);
                },
            }
            assert(t@ =~= pv.subrange(0, i + 1));
            i = i + 1;
        }
        assert(pv.subrange(0, pairs.len() as int) =~= pv);
        Ok(t)
    }
}

pub open spec fn string_pairs(v: Seq<(String, String)>) -> TagSeq {
    v.map_values(|p: (String, String)| (p.0@, p.1@))
}

pub open spec fn pairs_view(pairs: Seq<[&str; 2]>) -> TagSeq {
    pairs.map_values(|p: [&str; 2]| (p@[0]@, p@[1]@))
}

/// The pieces of `s` between its `\n` characters, as `str::split('\n')` gives them.
pub open spec fn newline_pieces(s: Seq<char>) -> Seq<Seq<char>>
    decreases s.len(),
{
    if s.len() == 0 {
        seq![Seq::empty()]
    } else {
        let rest = newline_pieces(s.drop_last());
        if s.last() == '\n' {
            rest.push(Seq::empty())
        } else {
            rest.update(rest.len() - 1, rest.last().push(s.last()))
        }
    }
}

/// The lines of `s` as `str::lines` gives them, before a trailing `\r` is removed:
/// the pieces between `\n`, without a final empty piece.
pub open spec fn text_lines(s: Seq<char>) -> Seq<Seq<char>> {
    let p = newline_pieces(s);
    if p.last().len() == 0 {
        p.drop_last()
    } else {
        p
    }
}

pub open spec fn strip_cr(l: Seq<char>) -> Seq<char> {
    if l.len() > 0 && l.last() == '\r' {
        l.drop_last()
    } else {
        l
    }
}

/// `p` is the line split at its first `=`.
pub open spec fn line_pair(l: Seq<char>, p: (Seq<char>, Seq<char>)) -> bool {
    &&& l == p.0 + seq!['='] + p.1
    &&& !p.0.contains('=')
}

/// `ps` holds, for each line of `s`, the line split at its first `=`.
pub open spec fn text_pairs(s: Seq<char>, ps: TagSeq) -> bool {
    &&& ps.len() == text_lines(s).len()
    &&& forall|i: int| 0 <= i < ps.len() ==> line_pair(strip_cr(text_lines(s)[i]), #[trigger] ps[i])
}

pub open spec fn strings_view(v: Seq<String>) -> Seq<Seq<char>> {
    v.map_values(|x: String| x@)
}

proof fn lemma_pieces_nonempty(s: Seq<char>)
    ensures
        newline_pieces(s).len() >= 1,
    decreases s.len(),
{
    if s.len() > 0 {
        lemma_pieces_nonempty(s.drop_last());
    }
}

fn split_lines(s: &str) -> (r: Vec<String>)
    ensures
        strings_view(r@) == text_lines(s@),
{
    let n = s.unicode_len();
    let mut done: Vec<String> = Vec::new();
    let mut start: usize = 0;
    let mut i: usize = 0;
    assert(s@.subrange(0, 0) =~= Seq::<char>::empty());
    assert(strings_view(done@).push(s@.subrange(0, 0)) =~= seq![Seq::<char>::empty()]);
    while i < n
        invariant
            n == s@.len(),
            start <= i <= n,
            newline_pieces(s@.subrange(0, i as int)) == strings_view(done@).push(
                s@.subrange(start as int, i as int),
            ),
        decreases n - i,
    {
        let ghost prev = s@.subrange(0, i as int);
        assert(s@.subrange(0, i + 1).drop_last() =~= prev);
        proof {
            lemma_pieces_nonempty(prev);
        }
        let c = s.get_char(i);
        if c == '\n' {
            let ghost before = strings_view(done@);
            done.push(s.substring_char(start, i).to_owned());
            assert(strings_view(done@) =~= before.push(s@.subrange(start as int, i as int)));
            start = i + 1;
            assert(s@.subrange(start as int, i + 1) =~= Seq::<char>::empty());
        } else {
            assert(s@.subrange(start as int, i + 1) =~= s@.subrange(start as int, i as int).push(c));
            assert(newline_pieces(s@.subrange(0, i + 1)) =~= strings_view(done@).push(
                s@.subrange(start as int, i + 1),
            ));
        }
        i = i + 1;
    }
    assert(s@.subrange(0, n as int) =~= s@);
    if start < n {
        let ghost before = strings_view(done@);
        done.push(s.substring_char(start, n).to_owned());
        assert(strings_view(done@) =~= before.push(s@.subrange(start as int, n as int)));
    } else {
        assert(strings_view(done@).push(s@.subrange(start as int, n as int)).drop_last() =~= strings_view(
            done@,
        ));
    }
    done
}

fn without_cr(l: &str) -> (r: &str)
    ensures
        r@ == strip_cr(l@),
{
    let n = l.unicode_len();
    if n > 0 && l.get_char(n - 1) == '\r' {
        l.substring_char(0, n - 1)
    } else {
        assert(l@.subrange(0, n as int) =~= l@);
        l.substring_char(0, n)
    }
}

impl Tags {
    /// Parses newline-separated `key=value` records. A line without `=` is an error; a
    /// later record of a key overrides an earlier one.
    pub fn from_text(s: &str) -> (r: Result<Tags, String>)
        ensures
            match r {
                Ok(t) => t.wf() && exists|ps: TagSeq| text_pairs(s@, ps) && t@ == tags_of_pairs(ps),
                Err(e) => {
                    &&& e@ == "tag must be = separated"@
                    &&& exists|i: int|
                        0 <= i < text_lines(s@).len() && !strip_cr(#[trigger] text_lines(s@)[i]).contains('=')
                },
            },
    {
        let lines = split_lines(s);
        let mut pairs: Vec<(String, String)> = Vec::new();
        let mut i: usize = 0;
        while i < lines.len()
            invariant
                i <= lines@.len(),
                strings_view(lines@) == text_lines(s@),
                pairs@.len() == i,
                forall|j: int|
                    0 <= j < i ==> line_pair(
                        strip_cr(text_lines(s@)[j]),
                        #[trigger] string_pairs(pairs@)[j],
                    ),
            decreases lines.len() - i,
        {
            let line = without_cr(lines[i].as_str());
            match split_once_char(line, '=') {
                Some((k, v)) => {
                    let ghost before = string_pairs(pairs@);
                    assert(strings_view(lines@)[i as int] == lines@[i as int]@);
                    pairs.push((k, v));
                    assert(string_pairs(pairs@) =~= before.push((k@, v@)));
                    assert forall|j: int| 0 <= j < i + 1 implies line_pair(
                        strip_cr(text_lines(s@)[j]),
                        #[trigger] string_pairs(pairs@)[j],
                    ) by {
                        assert(string_pairs(pairs@)[j] == (pairs@[j].0@, pairs@[j].1@));
                    }
                },
                None => {
                    assert(strings_view(lines@)[i as int] == lines@[i as int]@);
                    return Err("tag must be = separated".to_owned());
                },
            }
            i = i + 1;
        }
        let t = Tags::new(pairs);
        assert(text_pairs(s@, string_pairs(pairs@)));
        assert(string_pairs(pairs@) == pairs@.map_values(|p: (String, String)| (p.0@, p.1@)));
        Ok(t)
    }
}

/// Lexicographic order of character sequences, by code point.
pub open spec fn key_lt(a: Seq<char>, b: Seq<char>) -> bool
    decreases a.len(),
{
    if a.len() == 0 {
        b.len() > 0
    } else if b.len() == 0 {
        false
    } else if a[0] != b[0] {
        a[0] < b[0]
    } else {
        key_lt(a.drop_first(), b.drop_first())
    }
}

proof fn lemma_key_lt_irreflexive(a: Seq<char>)
    ensures
        !key_lt(a, a),
    decreases a.len(),
{
    if a.len() > 0 {
        lemma_key_lt_irreflexive(a.drop_first());
    }
}

proof fn lemma_key_lt_transitive(a: Seq<char>, b: Seq<char>, c: Seq<char>)
    requires
        key_lt(a, b),
        key_lt(b, c),
    ensures
        key_lt(a, c),
    decreases a.len(),
{
    if a.len() > 0 && b.len() > 0 && c.len() > 0 && a[0] == b[0] && b[0] == c[0] {
        lemma_key_lt_transitive(a.drop_first(), b.drop_first(), c.drop_first());
    }
}

proof fn lemma_key_lt_total(a: Seq<char>, b: Seq<char>)
    requires
        a != b,
    ensures
        key_lt(a, b) || key_lt(b, a),
    decreases a.len(),
{
    if a.len() > 0 && b.len() > 0 && a[0] == b[0] {
        if a.drop_first() == b.drop_first() {
            assert(a =~= seq![a[0]] + a.drop_first());
            assert(b =~= seq![b[0]] + b.drop_first());
        }
        lemma_key_lt_total(a.drop_first(), b.drop_first());
    } else if a.len() == 0 && b.len() == 0 {
        assert(a =~= b);
    }
}

fn key_less(a: &str, b: &str) -> (r: bool)
    ensures
        r == key_lt(a@, b@),
{
    let na = a.unicode_len();
    let nb = b.unicode_len();
    let mut i: usize = 0;
    assert(a@.subrange(0, na as int) =~= a@);
    assert(b@.subrange(0, nb as int) =~= b@);
    while i < na && i < nb
        invariant
            na == a@.len(),
            nb == b@.len(),
            i <= na,
            i <= nb,
            key_lt(a@, b@) == key_lt(a@.subrange(i as int, na as int), b@.subrange(i as int, nb as int)),
        decreases na - i,
    {
        let x = a.get_char(i);
        let y = b.get_char(i);
        let ghost sa = a@.subrange(i as int, na as int);
        let ghost sb = b@.subrange(i as int, nb as int);
        assert(sa[0] == x && sb[0] == y);
        if x != y {
            return x < y;
        }
        assert(sa.drop_first() =~= a@.subrange(i + 1, na as int));
        assert(sb.drop_first() =~= b@.subrange(i + 1, nb as int));
        i = i + 1;
    }
    i < nb && i == na
}

/// The record `key=value`.
pub open spec fn record(p: (Seq<char>, Seq<char>)) -> Seq<char> {
    p.0 + "="@ + p.1
}

/// The records of `ps`, joined by `\n`.
pub open spec fn records_text(ps: TagSeq) -> Seq<char>
    decreases ps.len(),
{
    if ps.len() == 0 {
        Seq::empty()
    } else if ps.len() == 1 {
        record(ps[0])
    } else {
        records_text(ps.drop_last()) + "\n"@ + record(ps.last())
    }
}

pub open spec fn keys_sorted(ps: TagSeq) -> bool {
    forall|i: int, j: int| 0 <= i < j < ps.len() ==> key_lt(#[trigger] ps[i].0, #[trigger] ps[j].0)
}

/// `ps` holds the entries of `s`, each once, in increasing key order.
pub open spec fn sorted_entries(s: TagSeq, ps: TagSeq) -> bool {
    &&& keys_sorted(ps)
    &&& ps.len() == s.len()
    &&& forall|e: (Seq<char>, Seq<char>)| #[trigger] ps.contains(e) <==> s.contains(e)
}

impl Tags {
    /// The entries ordered by key.
    fn sorted_entries(&self) -> (r: Vec<(String, String)>)
        requires
            self.wf(),
        ensures
            sorted_entries(self@, string_pairs(r@)),
    {
        let mut out: Vec<(String, String)> = Vec::new();
        let mut i: usize = 0;
        while i < self.entries.len()
            invariant
                self.wf(),
                self.entries@.len() == self@.len(),
                i <= self@.len(),
                sorted_entries(self@.subrange(0, i as int), string_pairs(out@)),
            decreases self.entries.len() - i,
        {
            let ghost ps = string_pairs(out@);
            let ghost pre = self@.subrange(0, i as int);
            let ghost e = self@[i as int];
            let k = self.entries[i].0.as_str();
            let mut p: usize = 0;
            while p < out.len() && !key_less(k, out[p].0.as_str())
                invariant
                    p <= out@.len(),
                    ps == string_pairs(out@),
                    k@ == e.0,
                    forall|q: int| 0 <= q < p ==> !key_lt(e.0, #[trigger] ps[q].0),
                decreases out.len() - p,
            {
                p = p + 1;
            }
            out.insert(p, (self.entries[i].0.clone(), self.entries[i].1.clone()));
            let ghost qs = string_pairs(out@);
            assert(qs =~= ps.insert(p as int, e));
            assert(self@.subrange(0, i + 1) =~= pre.push(e));
            // the new key differs from every key already placed
            assert forall|q: int| 0 <= q < ps.len() implies ps[q].0 != e.0 by {
                assert(ps.contains(ps[q]));
                assert(pre.contains(ps[q]));
                let a = choose|a: int| 0 <= a < pre.len() && pre[a] == ps[q];
                assert(self@[a].0 != self@[i as int].0);
            }
            assert forall|a: int, b: int| 0 <= a < b < qs.len() implies key_lt(#[trigger] qs[a].0, #[trigger] qs[b].0) by {
                if a < p && b == p {
                    lemma_key_lt_total(ps[a].0, e.0);
                } else if a == p && b > p {
                    lemma_key_lt_total(ps[b - 1].0, e.0);
                    if (p as int) < b - 1 {
                        assert(key_lt(e.0, ps[p as int].0));
                        assert(key_lt(ps[p as int].0, ps[b - 1].0));
                        lemma_key_lt_transitive(e.0, ps[p as int].0, ps[b - 1].0);
                    } else {
                        assert(key_lt(e.0, ps[p as int].0));
                    }
                } else if a < p && b > p {
                    assert(key_lt(ps[a].0, ps[b - 1].0));
                } else if b < p {
                    assert(key_lt(ps[a].0, ps[b].0));
                } else {
                    assert(key_lt(ps[a - 1].0, ps[b - 1].0));
                }
            }
            let ghost sub = self@.subrange(0, i + 1);
            assert(sub =~= pre.push(e));
            assert forall|x: (Seq<char>, Seq<char>)| #[trigger] qs.contains(x) <==> sub.contains(x) by {
                if qs.contains(x) {
                    let a = choose|a: int| 0 <= a < qs.len() && qs[a] == x;
                    if a != p {
                        let c = if a < p { a } else { a - 1 };
                        assert(ps[c] == x);
                        assert(ps.contains(x));
                        assert(pre.contains(x));
                        let d = choose|d: int| 0 <= d < pre.len() && pre[d] == x;
                        assert(sub[d] == x);
                    } else {
                        assert(sub[i as int] == x);
                    }
                }
                if sub.contains(x) {
                    let d = choose|d: int| 0 <= d < sub.len() && sub[d] == x;
                    if d < i {
                        assert(pre[d] == x);
                        assert(pre.contains(x));
                        assert(ps.contains(x));
                        let a = choose|a: int| 0 <= a < ps.len() && ps[a] == x;
                        if a < p {
                            assert(qs[a] == x);
                        } else {
                            assert(qs[a + 1] == x);
                        }
                    } else {
                        assert(qs[p as int] == x);
                    }
                }
            }
            i = i + 1;
        }
        assert(self@.subrange(0, self@.len() as int) =~= self@);
        out
    }

    /// Writes the tags as `key=value` records joined by `\n`, in increasing key order.
    pub fn to_text(&self) -> (r: String)
        requires
            self.wf(),
        ensures
            exists|ps: TagSeq| sorted_entries(self@, ps) && r@ == records_text(ps),
    {
        let sorted = self.sorted_entries();
        let ghost ps = string_pairs(sorted@);
        let mut acc = String::new();
        let mut i: usize = 0;
        while i < sorted.len()
            invariant
                i <= sorted@.len(),
                ps == string_pairs(sorted@),
                acc@ == records_text(ps.subrange(0, i as int)),
            decreases sorted.len() - i,
        {
            assert(ps.subrange(0, i + 1).drop_last() =~= ps.subrange(0, i as int));
            let rec = sorted[i].0.as_str().to_owned().concat("=").concat(sorted[i].1.as_str());
            if i == 0 {
                acc = rec;
            } else {
                acc = acc.concat("\n").concat(rec.as_str());
            }
            i = i + 1;
        }
        assert(ps.subrange(0, sorted@.len() as int) =~= ps);
        acc
    }
}

impl std::str::FromStr for Tags {
    type Err = String;

    fn from_str(s: &str) -> Result<Self, Self::Err> {
        Tags::from_text(s)
    }
}

} // verus!
