use vstd::prelude::*;
use crate::machine::commit_entry;
use crate::machine::initial_state;
use crate::machine::lookup;
use crate::machine::scan;
use crate::machine::sentinel;
use crate::machine::step;
use crate::machine::CatView;
use crate::machine::StoreView;
use crate::text::push_char;
use crate::text::trim;
use crate::text::trim_string;
use crate::token::InifTokens;

verus! {

/// The map that a sequence of key/value pairs denotes: each pair acts as
/// an insert, so a later pair with the same key overwrites an earlier one.
pub open spec fn entries_map(s: Seq<(String, String)>) -> Map<Seq<char>, Seq<char>>
    decreases s.len(),
{
    if s.len() == 0 {
        Map::empty()
    } else {
        entries_map(s.drop_last()).insert(s.last().0.view(), s.last().1.view())
    }
}

/// One category record: a name and its key/value entries, kept in the
/// order the pairs were committed; the view reads the pairs as a map in
/// which later pairs win.
pub struct InifCategory {
    category_name: String,
    key_value: Vec<(String, String)>,
}

impl View for InifCategory {
    type V = CatView;

    closed spec fn view(&self) -> CatView {
        CatView { name: self.category_name@, entries: entries_map(self.key_value@) }
    }
}

/// The store: the categories parsed so far together with the scanning
/// state that `parse` carries across calls, so that a later call continues
/// exactly where the earlier input ended.
pub struct Inif {
    init: Vec<InifCategory>,
    category_start: bool,
    category_data: bool,
    key_data: bool,
    category_name: String,
    key: String,
    data: String,
}

impl View for Inif {
    type V = StoreView;

    closed spec fn view(&self) -> StoreView {
        StoreView {
            cats: self.init@.map_values(|c: InifCategory| c@),
            category_start: self.category_start,
            category_data: self.category_data,
            key_data: self.key_data,
            category_name: self.category_name@,
            key: self.key@,
            data: self.data@,
        }
    }
}

impl Default for Inif {
    /// A store that has parsed nothing yet.
    fn default() -> (r: Self)
        ensures
            r@ == initial_state(),
    {
        let r = Inif {
            init: Vec::new(),
            category_start: false,
            category_data: false,
            key_data: false,
            category_name: String::new(),
            key: String::new(),
            data: String::new(),
        };
        proof {
            assert(r@ =~~= initial_state());
        }
        r
    }
}

/// The literal two-character sentinel, as an owned string.
fn sentinel_string() -> (r: String)
    ensures
        r@ == sentinel(),
{
    let r = String::from_str("\"\"");
    proof {
        reveal_strlit("\"\"");
        assert(r@ =~= sentinel());
    }
    r
}

/// The value stored under the key among the pairs, where a later pair with
/// the same key overwrites an earlier one.
fn pairs_value(entries: &Vec<(String, String)>, key: &String) -> (r: Option<String>)
    ensures
        match r {
            Some(v) => entries_map(entries@).contains_key(key@) && v@ == entries_map(entries@)[key@],
            None => !entries_map(entries@).contains_key(key@),
        },
{
    proof {
        assert(entries@.take(entries@.len() as int) =~= entries@);
    }
    let mut j: usize = entries.len();
    while j > 0
        invariant
            j <= entries.len(),
            entries_map(entries@).contains_key(key@) == entries_map(
                entries@.take(j as int),
            ).contains_key(key@),
            entries_map(entries@).contains_key(key@) ==> entries_map(entries@)[key@]
                == entries_map(entries@.take(j as int))[key@],
        decreases j,
    {
        j = j - 1;
        proof {
            assert(entries@.take(j as int + 1).drop_last() =~= entries@.take(j as int));
            assert(entries@.take(j as int + 1).last() == entries@[j as int]);
        }
        if entries[j].0 == *key {
            return Some(entries[j].1.clone());
        }
    }
    proof {
        assert(entries@.take(0) =~= Seq::<(String, String)>::empty());
    }
    None
}

impl Inif {
    /// Commit the pending (trimmed key, value) pair into the store and
    /// clear the value-scanning state, exactly as a newline does while
    /// value characters are accumulating.
    fn commit_pending(&mut self)
        ensures
            final(self)@ == commit_entry(old(self)@),
    {
        let ghost oldv = old(self)@;
        let trimmed = trim_string(&self.key);
        let merge = self.init.len() > 0 && {
            let idx = self.init.len() - 1;
            self.init[idx].category_name == self.category_name
        };
        proof {
            assert(oldv.cats.len() == old(self).init@.len());
            if old(self).init@.len() > 0 {
                assert(oldv.cats.last() == old(self).init@.last()@);
            }
            assert(merge == (oldv.cats.len() > 0 && oldv.cats.last().name == oldv.category_name));
        }
        if merge {
            let mut last = self.init.pop().unwrap();
            let ghost kv0 = last.key_value@;
            proof {
                assert(entries_map(kv0) == oldv.cats.last().entries);
            }
            last.key_value.push((trimmed, self.data.clone()));
            proof {
                assert(last.key_value@.drop_last() =~= kv0);
                assert(last@.entries == entries_map(kv0).insert(trim(oldv.key), oldv.data));
            }
            self.init.push(last);
        } else {
            let mut kv: Vec<(String, String)> = Vec::new();
            kv.push((trimmed, self.data.clone()));
            proof {
                assert(kv@.drop_last() =~= Seq::<(String, String)>::empty());
                assert(entries_map(Seq::<(String, String)>::empty()) == Map::<
                    Seq<char>,
                    Seq<char>,
                >::empty());
                assert(entries_map(kv@) == Map::<Seq<char>, Seq<char>>::empty().insert(
                    trim(oldv.key),
                    oldv.data,
                ));
            }
            self.init.push(
                InifCategory { category_name: self.category_name.clone(), key_value: kv },
            );
        }
        self.key_data = false;
        self.key = String::new();
        self.data = String::new();
        proof {
            assert(self@ =~~= commit_entry(oldv));
        }
    }

    /// Scan the whole input, one character at a time, extending the store;
    /// a later call continues in the scanning state the earlier input left
    /// behind. Parsing never fails: malformed text is absorbed by the
    /// fallback branches of the machine. A final pair whose terminating
    /// newline is missing stays pending and is not committed, so callers
    /// should end the input with a newline.
    pub fn parse(&mut self, file_data: String)
        ensures
            final(self)@ == scan(old(self)@, file_data@),
    {
        let ghost v0 = old(self)@;
        let st = file_data.as_str();
        let n: usize = st.unicode_len();
        proof {
            assert(file_data@.take(0) =~= Seq::<char>::empty());
        }
        let mut i: usize = 0;
        while i < n
            invariant
                st@ == file_data@,
                n == file_data@.len(),
                i <= n,
                self@ == scan(v0, file_data@.take(i as int)),
            decreases n - i,
        {
            let ghost prev = self@;
            let ch = st.get_char(i);
            if self.key_data {
                if ch != '\n' {
                    push_char(&mut self.data, ch);
                    proof {
                        assert(self@ =~~= step(prev, ch));
                    }
                } else {
                    self.commit_pending();
                    proof {
                        assert(self@ == step(prev, ch));
                    }
                }
            } else if self.category_start {
                if ch != InifTokens::val(InifTokens::CategoryEnd) {
                    push_char(&mut self.category_name, ch);
                } else {
                    self.category_start = false;
                    self.category_data = true;
                }
                proof {
                    assert(self@ =~~= step(prev, ch));
                }
            } else {
                match InifTokens::to(ch) {
                    InifTokens::CategoryStart => {
                        if !self.category_name.as_str().is_empty() {
                            self.category_name = String::new();
                        }
                        self.category_start = true;
                        proof {
                            assert(self@.category_name =~= Seq::<char>::empty());
                            assert(self@ =~~= step(prev, ch));
                        }
                    },
                    InifTokens::Eq => {
                        if self.category_data && !self.key.as_str().is_empty() {
                            self.key_data = true;
                        }
                        proof {
                            assert(self@ =~~= step(prev, ch));
                        }
                    },
                    _ => {
                        if self.category_data && ch != ' ' {
                            push_char(&mut self.key, ch);
                        }
                        proof {
                            assert(self@ =~~= step(prev, ch));
                        }
                    },
                }
            }
            proof {
                assert(file_data@.take(i as int + 1).drop_last() =~= file_data@.take(i as int));
                assert(file_data@.take(i as int + 1).last() == file_data@[i as int]);
                assert(self@ == scan(v0, file_data@.take(i as int + 1)));
            }
            i = i + 1;
        }
        proof {
            assert(file_data@.take(n as int) =~= file_data@);
        }
    }

    /// Look the key up in the first category record with the given name;
    /// the two-character sentinel string signals that the store holds no
    /// value for the pair.
    pub fn get(&self, category: String, key: String) -> (r: String)
        ensures
            r@ == lookup(self@.cats, category@, key@),
    {
        proof {
            assert(self@.cats.skip(0) =~= self@.cats);
        }
        let n: usize = self.init.len();
        let mut i: usize = 0;
        while i < n
            invariant
                n == self.init.len(),
                i <= n,
                n == self@.cats.len(),
                lookup(self@.cats, category@, key@) == lookup(
                    self@.cats.skip(i as int),
                    category@,
                    key@,
                ),
            decreases n - i,
        {
            proof {
                assert(self@.cats.skip(i as int).first() == self@.cats[i as int]);
                assert(self@.cats[i as int] == self.init@[i as int]@);
            }
            if self.init[i].category_name == category {
                let found = pairs_value(&self.init[i].key_value, &key);
                match found {
                    Some(v) => {
                        return v;
                    },
                    None => {
                        return sentinel_string();
                    },
                }
            }
            proof {
                assert(self@.cats.skip(i as int).drop_first() =~= self@.cats.skip(i as int + 1));
            }
            i = i + 1;
        }
        proof {
            assert(self@.cats.skip(n as int) =~= Seq::<CatView>::empty());
        }
        sentinel_string()
    }
}

} // verus!
