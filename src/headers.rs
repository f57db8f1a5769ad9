use vstd::prelude::*;

verus! {

/// One header as characters: name and value.
pub type HeaderView = (Seq<char>, Seq<char>);

/// The mapping that a sequence of entries denotes: a later entry for a name
/// replaces an earlier one.
pub open spec fn entries_map(s: Seq<HeaderView>) -> Map<Seq<char>, Seq<char>>
    decreases s.len(),
{
    if s.len() == 0 {
        Map::empty()
    } else {
        entries_map(s.drop_last()).insert(s.last().0, s.last().1)
    }
}

/// The first position at or after `i` whose entry is named `k`, or `s.len()`.
pub open spec fn key_pos(s: Seq<HeaderView>, k: Seq<char>, i: int) -> int
    decreases s.len() - i,
{
    if i >= s.len() {
        s.len() as int
    } else if s[i].0 == k {
        i
    } else {
        key_pos(s, k, i + 1)
    }
}

/// No two entries share a name.
pub open spec fn keys_unique(s: Seq<HeaderView>) -> bool {
    forall|i: int, j: int| 0 <= i < j < s.len() ==> #[trigger] s[i].0 != #[trigger] s[j].0
}

/// What inserting `(k, v)` does to a sequence of entries: the entry named `k`
/// takes the new value in place, or the pair goes at the end.
pub open spec fn entries_insert(s: Seq<HeaderView>, k: Seq<char>, v: Seq<char>) -> Seq<HeaderView> {
    let p = key_pos(s, k, 0);
    if p < s.len() {
        s.update(p, (k, v))
    } else {
        s.push((k, v))
    }
}

/// Header fields in insertion order, one entry per name.
#[derive(Debug)]
pub struct Headers {
    entries: Vec<(String, String)>,
}

impl View for Headers {
    type V = Seq<HeaderView>;

    closed spec fn view(&self) -> Seq<HeaderView> {
        self.entries@.map_values(|e: (String, String)| (e.0@, e.1@))
    }
}

proof fn lemma_key_pos(s: Seq<HeaderView>, k: Seq<char>, i: int)
    requires
        0 <= i <= s.len(),
    ensures
        i <= key_pos(s, k, i) <= s.len(),
        key_pos(s, k, i) < s.len() ==> s[key_pos(s, k, i)].0 == k,
        forall|j: int| i <= j < key_pos(s, k, i) ==> #[trigger] s[j].0 != k,
    decreases s.len() - i,
{
    if i < s.len() && s[i].0 != k {
        lemma_key_pos(s, k, i + 1);
    }
}

proof fn lemma_map_update(s: Seq<HeaderView>, p: int, k: Seq<char>, v: Seq<char>)
    requires
        keys_unique(s),
        0 <= p < s.len(),
        s[p].0 == k,
    ensures
        entries_map(s.update(p, (k, v))) == entries_map(s).insert(k, v),
    decreases s.len(),
{
    let t = s.update(p, (k, v));
    if p == s.len() - 1 {
        assert(t.drop_last() =~= s.drop_last());
        assert(entries_map(s.drop_last()).insert(k, s[p].1).insert(k, v) =~= entries_map(
            s.drop_last(),
        ).insert(k, v));
    } else {
        let d = s.drop_last();
        assert(keys_unique(d));
        lemma_map_update(d, p, k, v);
        assert(t.drop_last() =~= d.update(p, (k, v)));
        assert(s.last().0 != k);
        assert(entries_map(d).insert(k, v).insert(s.last().0, s.last().1) =~= entries_map(
            d,
        ).insert(s.last().0, s.last().1).insert(k, v));
    }
}

/// Inserting keeps names unique and adds `(k, v)` to the mapping, replacing
/// any earlier value of `k`.
pub proof fn lemma_entries_insert(s: Seq<HeaderView>, k: Seq<char>, v: Seq<char>)
    requires
        keys_unique(s),
    ensures
        keys_unique(entries_insert(s, k, v)),
        entries_map(entries_insert(s, k, v)) == entries_map(s).insert(k, v),
{
    lemma_key_pos(s, k, 0);
    let p = key_pos(s, k, 0);
    if p < s.len() {
        lemma_map_update(s, p, k, v);
        let t = s.update(p, (k, v));
        assert forall|i: int, j: int| 0 <= i < j < t.len() implies #[trigger] t[i].0
            != #[trigger] t[j].0 by {
            assert(s[i].0 != s[j].0);
        }
    } else {
        let t = s.push((k, v));
        assert(t.drop_last() =~= s);
        assert forall|i: int, j: int| 0 <= i < j < t.len() implies #[trigger] t[i].0
            != #[trigger] t[j].0 by {
            if j < s.len() {
                assert(s[i].0 != s[j].0);
            }
        }
    }
}

impl Headers {
    pub open spec fn wf(&self) -> bool {
        keys_unique(self@)
    }

    /// The name-to-value mapping that these headers hold.
    pub open spec fn map(&self) -> Map<Seq<char>, Seq<char>> {
        entries_map(self@)
    }

    /// No headers.
    pub fn new() -> (r: Headers)
        ensures
            r@ == Seq::<HeaderView>::empty(),
            r.wf(),
    {
        Headers { entries: Vec::new() }
    }

    /// Sets `key` to `value`: a header of that name keeps its place and takes
    /// the new value, otherwise the header is added at the end.
    pub fn insert(&mut self, key: String, value: String)
        requires
            old(self).wf(),
        ensures
            final(self)@ == entries_insert(old(self)@, key@, value@),
            final(self).wf(),
            final(self).map() == old(self).map().insert(key@, value@),
    {
        proof {
            lemma_key_pos(self@, key@, 0);
            lemma_entries_insert(self@, key@, value@);
        }
        let ghost s = self@;
        let n = self.entries.len();
        let mut i: usize = 0;
        let mut found = false;
        while i < n && !found
            invariant
                found ==> i < n && s[i as int].0 == key@,
                !found ==> forall|j: int| 0 <= j < i ==> #[trigger] s[j].0 != key@,
                n == self.entries@.len(),
                self@ == s,
                i <= n,
                0 <= key_pos(s, key@, 0) <= s.len(),
                key_pos(s, key@, 0) < s.len() ==> s[key_pos(s, key@, 0)].0 == key@,
                forall|j: int| 0 <= j < key_pos(s, key@, 0) ==> #[trigger] s[j].0 != key@,
            decreases (n - i) as int + (if found { 0int } else { 1int }),
        {
            if self.entries[i].0 == key {
                found = true;
            } else {
                i = i + 1;
            }
        }
        if found {
            assert(key_pos(s, key@, 0) == i);
            self.entries.set(i, (key, value));
            assert(self@ =~= s.update(i as int, (key@, value@)));
        } else {
            self.entries.push((key, value));
            assert(self@ =~= s.push((key@, value@)));
        }
    }

    /// The number of headers.
    pub fn len(&self) -> (r: usize)
        ensures
            r == self@.len(),
    {
        self.entries.len()
    }

    /// The name and value of the header at `i`.
    pub fn entry(&self, i: usize) -> (r: (&str, &str))
        requires
            i < self@.len(),
        ensures
            r.0@ == self@[i as int].0,
            r.1@ == self@[i as int].1,
    {
        (self.entries[i].0.as_str(), self.entries[i].1.as_str())
    }

    /// The value of the header named `key`, if there is one.
    pub fn get(&self, key: &str) -> (r: Option<&str>)
        requires
            self.wf(),
        ensures
            r.is_some() == self.map().contains_key(key@),
            r.is_some() ==> r.unwrap()@ == self.map()[key@],
    {
        let n = self.entries.len();
        let mut i: usize = 0;
        while i < n
            invariant
                n == self@.len(),
                i <= n,
                self.wf(),
                forall|j: int| 0 <= j < i ==> #[trigger] self@[j].0 != key@,
            decreases n - i,
        {
            if str_eq(self.entries[i].0.as_str(), key) {
                proof { lemma_map_has(self@, i as int); }
                return Some(self.entries[i].1.as_str());
            }
            i = i + 1;
        }
        proof { lemma_map_lacks(self@, key@); }
        None
    }
}

proof fn lemma_map_has(s: Seq<HeaderView>, i: int)
    requires
        keys_unique(s),
        0 <= i < s.len(),
    ensures
        entries_map(s).contains_key(s[i].0),
        entries_map(s)[s[i].0] == s[i].1,
    decreases s.len(),
{
    if i < s.len() - 1 {
        let d = s.drop_last();
        assert(keys_unique(d));
        lemma_map_has(d, i);
        assert(s.last().0 != s[i].0);
    }
}

proof fn lemma_map_lacks(s: Seq<HeaderView>, k: Seq<char>)
    requires
        forall|j: int| 0 <= j < s.len() ==> #[trigger] s[j].0 != k,
    ensures
        !entries_map(s).contains_key(k),
    decreases s.len(),
{
    if s.len() > 0 {
        let d = s.drop_last();
        assert forall|j: int| 0 <= j < d.len() implies #[trigger] d[j].0 != k by {
            assert(s[j].0 != k);
        }
        lemma_map_lacks(d, k);
    }
}

/// Whether two strings hold the same characters.
pub fn str_eq(a: &str, b: &str) -> (r: bool)
    ensures
        r == (a@ == b@),
{
    let n = a.unicode_len();
    if n != b.unicode_len() {
        return false;
    }
    let mut i: usize = 0;
    while i < n
        invariant
            n == a@.len(),
            n == b@.len(),
            i <= n,
            forall|j: int| 0 <= j < i ==> a@[j] == b@[j],
        decreases n - i,
    {
        if a.get_char(i) != b.get_char(i) {
            return false;
        }
        i = i + 1;
    }
    assert(a@ =~= b@);
    true
}

} // verus!
