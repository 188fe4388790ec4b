use vstd::prelude::*;
use crate::app::texts;
use crate::console::completion::{sort_texts, text_order};

verus! {

broadcast use vstd::string::group_string_axioms;

/// What reading JSON text gives: the value written back compactly, or the
/// parser's error message.
pub uninterp spec fn json_reading(text: Seq<char>) -> Result<Seq<char>, Seq<char>>;

/// The texts of a result of strings.
pub open spec fn reading_view(r: Result<String, String>) -> Result<Seq<char>, Seq<char>> {
    match r {
        Ok(v) => Ok(v@),
        Err(e) => Err(e@),
    }
}

/// Parses `text` with `serde_json::from_str` into a `serde_json::Value` and
/// writes it back with its `Display` (compact JSON); a parse failure gives
/// the error's message. Both are named `json_reading` of the text.
#[verifier::external_body]
fn read_json(text: &str) -> (read: Result<String, String>)
    ensures
        reading_view(read) == json_reading(text@),
{
    serde_json::from_str::<serde_json::Value>(text).map(|value| value.to_string()).map_err(|error| error.to_string())
}

/// The values a script keeps across runs, by key, as JSON text.
#[derive(Debug)]
pub struct GlobalStore {
    pub entries: Vec<(String, String)>,
}

/// The key of an entry.
pub open spec fn entry_key(e: (String, String)) -> Seq<char> {
    e.0@
}

/// The map that a list of entries describes.
pub open spec fn entries_map(s: Seq<(String, String)>) -> Map<Seq<char>, Seq<char>>
    decreases s.len(),
{
    if s.len() == 0 {
        Map::empty()
    } else {
        entries_map(s.drop_last()).insert(s.last().0@, s.last().1@)
    }
}

/// No two entries share a key.
pub open spec fn keys_unique(s: Seq<(String, String)>) -> bool {
    forall|i: int, j: int| 0 <= i < s.len() && 0 <= j < s.len() && i != j ==> s[i].0@ != s[j].0@
}

proof fn lemma_entries_map(s: Seq<(String, String)>)
    requires
        keys_unique(s),
    ensures
        forall|k: Seq<char>| #[trigger] entries_map(s).dom().contains(k) <==> exists|i: int| 0 <= i < s.len() && s[i].0@ == k,
        forall|i: int| 0 <= i < s.len() ==> entries_map(s)[#[trigger] s[i].0@] == s[i].1@,
    decreases s.len(),
{
    if s.len() > 0 {
        let rest = s.drop_last();
        assert(keys_unique(rest)) by {
            assert forall|i: int, j: int| 0 <= i < rest.len() && 0 <= j < rest.len() && i != j implies rest[i].0@
                != rest[j].0@ by {
                assert(rest[i] == s[i] && rest[j] == s[j]);
            }
        }
        lemma_entries_map(rest);
        let m = entries_map(s);
        let last = s[s.len() - 1];
        assert(s.last() == last);
        assert(m == entries_map(rest).insert(last.0@, last.1@));
        assert forall|k: Seq<char>| #[trigger] m.dom().contains(k) <==> exists|i: int| 0 <= i < s.len() && s[i].0@ == k by {
            if m.dom().contains(k) {
                if k == last.0@ {
                    assert(s[s.len() - 1].0@ == k);
                } else {
                    assert(entries_map(rest).dom().contains(k));
                    let i = choose|i: int| 0 <= i < rest.len() && rest[i].0@ == k;
                    assert(s[i] == rest[i]);
                }
            }
            if exists|i: int| 0 <= i < s.len() && s[i].0@ == k {
                let i = choose|i: int| 0 <= i < s.len() && s[i].0@ == k;
                if i < rest.len() {
                    assert(rest[i] == s[i]);
                    assert(entries_map(rest).dom().contains(k));
                }
            }
        }
        assert forall|i: int| 0 <= i < s.len() implies m[#[trigger] s[i].0@] == s[i].1@ by {
            if i < rest.len() {
                assert(rest[i] == s[i]);
                assert(s[i].0@ != s[s.len() - 1].0@);
                assert(entries_map(rest)[rest[i].0@] == rest[i].1@);
            }
        }
    }
}

impl GlobalStore {
    /// The stored values by key.
    pub open spec fn view_map(&self) -> Map<Seq<char>, Seq<char>> {
        entries_map(self.entries@)
    }

    /// Each key is stored once.
    pub open spec fn wf(&self) -> bool {
        keys_unique(self.entries@)
    }

    /// An empty store.
    pub fn new() -> (store: GlobalStore)
        ensures
            store.wf(),
            store.view_map() == Map::<Seq<char>, Seq<char>>::empty(),
    {
        GlobalStore { entries: Vec::new() }
    }

    /// The index of the entry for `key`.
    fn find(&self, key: &String) -> (index: Option<usize>)
        requires
            self.wf(),
        ensures
            index matches Some(i) ==> i < self.entries@.len() && self.entries@[i as int].0@ == key@,
            index is None ==> forall|j: int| 0 <= j < self.entries@.len() ==> self.entries@[j].0@ != key@,
    {
        let mut i: usize = 0;
        while i < self.entries.len()
            invariant
                i <= self.entries@.len(),
                forall|j: int| 0 <= j < i ==> self.entries@[j].0@ != key@,
            decreases self.entries@.len() - i,
        {
            if self.entries[i].0 == *key {
                return Some(i);
            }
            i = i + 1;
        }
        None
    }

    /// The JSON text stored under `key`, if any.
    pub fn get(&self, key: &str) -> (value: Option<String>)
        requires
            self.wf(),
        ensures
            self.view_map().dom().contains(key@) ==> (value matches Some(v) && v@ == self.view_map()[key@]),
            !self.view_map().dom().contains(key@) ==> value is None,
    {
        proof {
            lemma_entries_map(self.entries@);
        }
        let wanted = String::from_str(key);
        match self.find(&wanted) {
            Some(i) => Some(self.entries[i].1.clone()),
            None => None,
        }
    }

    /// Stores the JSON value `json` under `key`, written back compactly; text
    /// that is not JSON is refused with the parser's message and changes
    /// nothing.
    pub fn set(&mut self, key: String, json: &str) -> (stored: Result<(), String>)
        requires
            old(self).wf(),
        ensures
            final(self).wf(),
            json_reading(json@) matches Err(e) ==> (stored matches Err(m) && m@ == e) && final(self).view_map()
                == old(self).view_map(),
            json_reading(json@) matches Ok(v) ==> stored is Ok && final(self).view_map() == old(self).view_map().insert(
                key@,
                v,
            ),
    {
        let reading = read_json(json);
        self.store_reading(key, reading)
    }

    /// Stores what reading a JSON text gave: the compact text of a value is
    /// stored under `key`; a parse error is handed back and changes nothing.
    pub fn store_reading(&mut self, key: String, reading: Result<String, String>) -> (stored: Result<(), String>)
        requires
            old(self).wf(),
        ensures
            final(self).wf(),
            reading matches Err(e) ==> stored == Err::<(), String>(e) && final(self).view_map() == old(
                self,
            ).view_map(),
            reading matches Ok(v) ==> stored is Ok && final(self).view_map() == old(self).view_map().insert(key@, v@),
    {
        proof {
            lemma_entries_map(self.entries@);
        }
        let text = match reading {
            Ok(text) => text,
            Err(error) => return Err(error),
        };
        let ghost before = self.entries@;
        match self.find(&key) {
            Some(i) => {
                let ghost k = key@;
                self.entries.set(i, (key, text));
                proof {
                    let after = self.entries@;
                    assert forall|a: int, b: int| 0 <= a < after.len() && 0 <= b < after.len() && a != b implies after[a].0@
                        != after[b].0@ by {
                        if a != i && b != i {
                            assert(after[a] == before[a] && after[b] == before[b]);
                        } else if a == i {
                            assert(after[b] == before[b]);
                        } else {
                            assert(after[a] == before[a]);
                        }
                    }
                    lemma_entries_map(after);
                    let m = entries_map(after);
                    let expected = entries_map(before).insert(k, text@);
                    assert forall|x: Seq<char>| #[trigger] m.dom().contains(x) <==> expected.dom().contains(x) by {
                        if m.dom().contains(x) {
                            let j = choose|j: int| 0 <= j < after.len() && after[j].0@ == x;
                            if j != i {
                                assert(after[j] == before[j]);
                                assert(entries_map(before).dom().contains(x));
                            }
                        }
                        if expected.dom().contains(x) {
                            if x == k {
                                assert(after[i as int].0@ == x);
                            } else {
                                assert(entries_map(before).dom().contains(x));
                                let j = choose|j: int| 0 <= j < before.len() && before[j].0@ == x;
                                assert(j != i);
                                assert(after[j] == before[j]);
                                assert(after[j].0@ == x);
                            }
                        }
                    }
                    assert forall|x: Seq<char>| #[trigger] m.dom().contains(x) implies m[x] == expected[x] by {
                        let j = choose|j: int| 0 <= j < after.len() && after[j].0@ == x;
                        if j != i {
                            assert(after[j] == before[j]);
                        }
                    }
                    assert(m =~= expected);
                }
            },
            None => {
                let ghost k = key@;
                self.entries.push((key, text));
                proof {
                    let after = self.entries@;
                    assert(after.drop_last() =~= before);
                    assert forall|a: int, b: int| 0 <= a < after.len() && 0 <= b < after.len() && a != b implies after[a].0@
                        != after[b].0@ by {
                        if a < before.len() && b < before.len() {
                            assert(after[a] == before[a] && after[b] == before[b]);
                        } else if a < before.len() {
                            assert(after[a] == before[a]);
                        } else {
                            assert(after[b] == before[b]);
                        }
                    }
                }
            },
        }
        Ok(())
    }

    /// Removes the value stored under `key`; says whether there was one.
    pub fn delete(&mut self, key: &str) -> (removed: bool)
        requires
            old(self).wf(),
        ensures
            final(self).wf(),
            removed == old(self).view_map().dom().contains(key@),
            final(self).view_map() == old(self).view_map().remove(key@),
    {
        proof {
            lemma_entries_map(self.entries@);
        }
        let wanted = String::from_str(key);
        let ghost before = self.entries@;
        match self.find(&wanted) {
            Some(i) => {
                self.entries.remove(i);
                proof {
                    let after = self.entries@;
                    assert forall|a: int, b: int| 0 <= a < after.len() && 0 <= b < after.len() && a != b implies after[a].0@
                        != after[b].0@ by {
                        let a2 = if a < i { a } else { a + 1 };
                        let b2 = if b < i { b } else { b + 1 };
                        assert(after[a] == before[a2] && after[b] == before[b2]);
                    }
                    lemma_entries_map(after);
                    let m = entries_map(after);
                    let expected = entries_map(before).remove(key@);
                    assert forall|x: Seq<char>| #[trigger] m.dom().contains(x) <==> expected.dom().contains(x) by {
                        if m.dom().contains(x) {
                            let j = choose|j: int| 0 <= j < after.len() && after[j].0@ == x;
                            let j2 = if j < i { j } else { j + 1 };
                            assert(after[j] == before[j2]);
                            assert(j2 != i);
                        }
                        if expected.dom().contains(x) {
                            let j = choose|j: int| 0 <= j < before.len() && before[j].0@ == x;
                            assert(j != i);
                            let j1 = if j < i { j } else { j - 1 };
                            assert(after[j1] == before[j]);
                        }
                    }
                    assert forall|x: Seq<char>| #[trigger] m.dom().contains(x) implies m[x] == expected[x] by {
                        let j = choose|j: int| 0 <= j < after.len() && after[j].0@ == x;
                        let j2 = if j < i { j } else { j + 1 };
                        assert(after[j] == before[j2]);
                    }
                    assert(m =~= expected);
                }
                true
            },
            None => {
                proof {
                    assert(entries_map(before).remove(key@) =~= entries_map(before));
                }
                false
            },
        }
    }

    /// The stored keys, in the order of `String`s.
    pub fn keys(&self) -> (keys: Vec<String>)
        requires
            self.wf(),
        ensures
            texts(keys@) == self.entries@.map_values(|e: (String, String)| e.0@).sort_by(text_order()),
    {
        let mut all: Vec<String> = Vec::new();
        let mut i: usize = 0;
        while i < self.entries.len()
            invariant
                i <= self.entries@.len(),
                texts(all@) == self.entries@.take(i as int).map_values(|e: (String, String)| e.0@),
            decreases self.entries@.len() - i,
        {
            let ghost prev = texts(all@);
            all.push(self.entries[i].0.clone());
            proof {
                assert(texts(all@) =~= prev.push(self.entries@[i as int].0@));
                assert(self.entries@.take(i + 1).map_values(|e: (String, String)| e.0@) =~= self.entries@.take(
                    i as int,
                ).map_values(|e: (String, String)| e.0@).push(self.entries@[i as int].0@));
            }
            i = i + 1;
        }
        assert(self.entries@.take(self.entries@.len() as int) =~= self.entries@);
        sort_texts(all)
    }
}

/// Law: a key's value reads back as it was stored, and deleting it leaves
/// the other keys as they were.
pub proof fn law_store_reads_back(store: Map<Seq<char>, Seq<char>>, key: Seq<char>, value: Seq<char>, other: Seq<char>)
    requires
        other != key,
    ensures
        store.insert(key, value).dom().contains(key),
        store.insert(key, value)[key] == value,
        store.insert(key, value).dom().contains(other) == store.dom().contains(other),
        store.dom().contains(other) ==> store.insert(key, value)[other] == store[other],
        !store.remove(key).dom().contains(key),
        store.remove(key).dom().contains(other) == store.dom().contains(other),
{
}

} // verus!
