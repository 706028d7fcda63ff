//! The shared supervisor-side application state: the configuration, the
//! version bookkeeping, and the free-form settings the UI stores.  The
//! store file and its JSON encoding are the caller's concern; settings
//! values are carried through opaquely.
use crate::config::FrpcConfig;
use crate::version::{ActiveFrp, FrpVersion};
use vstd::prelude::*;

verus! {

#[verifier::external_type_specification]
#[verifier::external_body]
pub struct ExValue(serde_json::Value);

/// Relies on `serde_json::Value`'s `Clone` impl, a derived deep copy: the
/// clone equals the original.
pub assume_specification[ <serde_json::Value as Clone>::clone ](v: &serde_json::Value) -> (r:
    serde_json::Value)
    ensures
        r == *v,
;

/// Free-form settings: string keys mapped to opaque JSON values, each key
/// held once.
pub struct SettingsMap {
    pub entries: Vec<(String, serde_json::Value)>,
}

/// The value stored under a key: the first entry that carries it.
pub open spec fn spec_get(s: Seq<(String, serde_json::Value)>, key: Seq<char>) -> Option<
    serde_json::Value,
>
    decreases s.len(),
{
    if s.len() == 0 {
        Option::None
    } else if s[0].0@ == key {
        Option::Some(s[0].1)
    } else {
        spec_get(s.skip(1), key)
    }
}

proof fn lemma_get_none(s: Seq<(String, serde_json::Value)>, key: Seq<char>)
    requires
        forall|j: int| 0 <= j < s.len() ==> (#[trigger] s[j].0)@ != key,
    ensures
        spec_get(s, key) is None,
    decreases s.len(),
{
    if s.len() > 0 {
        lemma_get_none(s.skip(1), key);
    }
}

proof fn lemma_get_is(s: Seq<(String, serde_json::Value)>, key: Seq<char>, k: int)
    requires
        0 <= k <= s.len(),
        forall|j: int| 0 <= j < k ==> (#[trigger] s[j].0)@ != key,
        k < s.len() ==> s[k].0@ == key,
    ensures
        k < s.len() ==> spec_get(s, key) == Option::Some(s[k].1),
        k == s.len() ==> spec_get(s, key) is None,
    decreases s.len(),
{
    if s.len() == 0 {
    } else if s[0].0@ == key {
        assert(k == 0);
    } else {
        lemma_get_is(s.skip(1), key, k - 1);
    }
}

proof fn lemma_get_update_value(
    s: Seq<(String, serde_json::Value)>,
    i: int,
    e: (String, serde_json::Value),
)
    requires
        0 <= i < s.len(),
        e.0@ == s[i].0@,
        forall|j: int| 0 <= j < i ==> (#[trigger] s[j].0)@ != s[i].0@,
    ensures
        spec_get(s.update(i, e), s[i].0@) == Option::Some(e.1),
        forall|k: Seq<char>|
            k != s[i].0@ ==> #[trigger] spec_get(s.update(i, e), k) == spec_get(s, k),
    decreases s.len(),
{
    if i == 0 {
        assert(s.update(0, e)[0] == e);
        assert forall|k: Seq<char>| k != s[0].0@ implies #[trigger] spec_get(s.update(0, e), k)
            == spec_get(s, k) by {
            assert(s.update(0, e).skip(1) =~= s.skip(1));
        }
    } else {
        let tail = s.skip(1);
        assert(s.update(i, e).skip(1) =~= tail.update(i - 1, e));
        assert(tail[i - 1] == s[i]);
        assert forall|j: int| 0 <= j < i - 1 implies (#[trigger] tail[j].0)@ != tail[i - 1].0@ by {
            assert(tail[j] == s[j + 1]);
        }
        lemma_get_update_value(tail, i - 1, e);
        assert(s.update(i, e)[0] == s[0]);
        assert(s[0].0@ != s[i].0@);
        assert(spec_get(s.update(i, e), s[i].0@) == spec_get(tail.update(i - 1, e), s[i].0@));
        assert forall|k: Seq<char>| k != s[i].0@ implies #[trigger] spec_get(s.update(i, e), k)
            == spec_get(s, k) by {
            assert(spec_get(tail.update(i - 1, e), k) == spec_get(tail, k));
            if s[0].0@ == k {
                assert(spec_get(s.update(i, e), k) == Option::Some(s[0].1));
                assert(spec_get(s, k) == Option::Some(s[0].1));
            } else {
                assert(spec_get(s.update(i, e), k) == spec_get(tail.update(i - 1, e), k));
                assert(spec_get(s, k) == spec_get(tail, k));
            }
        }
    }
}

proof fn lemma_get_push(
    s: Seq<(String, serde_json::Value)>,
    e: (String, serde_json::Value),
    k: Seq<char>,
)
    ensures
        spec_get(s.push(e), k) == (match spec_get(s, k) {
            Option::Some(v) => Option::Some(v),
            Option::None => if e.0@ == k {
                Option::Some(e.1)
            } else {
                Option::<serde_json::Value>::None
            },
        }),
    decreases s.len(),
{
    if s.len() == 0 {
        assert(s.push(e)[0] == e);
        assert(s.push(e).skip(1) =~= Seq::<(String, serde_json::Value)>::empty());
        assert(spec_get(Seq::<(String, serde_json::Value)>::empty(), k) is None);
    } else {
        assert(s.push(e)[0] == s[0]);
        assert(s.push(e).skip(1) =~= s.skip(1).push(e));
        lemma_get_push(s.skip(1), e, k);
        if s[0].0@ == k {
            assert(spec_get(s.push(e), k) == Option::Some(s[0].1));
        } else {
            assert(spec_get(s.push(e), k) == spec_get(s.skip(1).push(e), k));
            assert(spec_get(s, k) == spec_get(s.skip(1), k));
        }
    }
}

proof fn lemma_get_remove(s: Seq<(String, serde_json::Value)>, i: int)
    requires
        0 <= i < s.len(),
        forall|j: int| 0 <= j < s.len() && j != i ==> (#[trigger] s[j].0)@ != s[i].0@,
    ensures
        spec_get(s.remove(i), s[i].0@) is None,
        forall|k: Seq<char>| k != s[i].0@ ==> #[trigger] spec_get(s.remove(i), k) == spec_get(s, k),
    decreases s.len(),
{
    if i == 0 {
        assert(s.remove(0) =~= s.skip(1));
        assert forall|j: int| 0 <= j < s.skip(1).len() implies (#[trigger] s.skip(1)[j].0)@
            != s[0].0@ by {
            assert(s.skip(1)[j] == s[j + 1]);
        }
        lemma_get_none(s.skip(1), s[0].0@);
    } else {
        let tail = s.skip(1);
        assert(s.remove(i)[0] == s[0]);
        assert(s.remove(i).skip(1) =~= tail.remove(i - 1));
        assert(tail[i - 1] == s[i]);
        assert forall|j: int| 0 <= j < tail.len() && j != i - 1 implies (#[trigger] tail[j].0)@
            != tail[i - 1].0@ by {
            assert(tail[j] == s[j + 1]);
        }
        lemma_get_remove(tail, i - 1);
        assert(s[0].0@ != s[i].0@);
        assert(spec_get(s.remove(i), s[i].0@) == spec_get(tail.remove(i - 1), s[i].0@));
        assert forall|k: Seq<char>| k != s[i].0@ implies #[trigger] spec_get(s.remove(i), k)
            == spec_get(s, k) by {
            assert(spec_get(tail.remove(i - 1), k) == spec_get(tail, k));
            if s[0].0@ == k {
                assert(spec_get(s.remove(i), k) == Option::Some(s[0].1));
                assert(spec_get(s, k) == Option::Some(s[0].1));
            } else {
                assert(spec_get(s.remove(i), k) == spec_get(tail.remove(i - 1), k));
                assert(spec_get(s, k) == spec_get(tail, k));
            }
        }
    }
}

impl SettingsMap {
    /// Each key occurs at most once.
    pub open spec fn wf(&self) -> bool {
        forall|i: int, j: int|
            0 <= i < j < self.entries@.len() ==> (#[trigger] self.entries@[i].0)@ != (
            #[trigger] self.entries@[j].0)@
    }

    /// An empty settings map.
    pub fn new() -> (r: Self)
        ensures
            r.wf(),
            r.entries@.len() == 0,
    {
        SettingsMap { entries: Vec::new() }
    }

    fn find_key(&self, key: &str) -> (r: Option<usize>)
        ensures
            match r {
                Option::Some(i) => i < self.entries@.len() && self.entries@[i as int].0@ == key@
                    && (forall|j: int|
                    0 <= j < i ==> (#[trigger] self.entries@[j].0)@ != key@),
                Option::None => forall|j: int|
                    0 <= j < self.entries@.len() ==> (#[trigger] self.entries@[j].0)@ != key@,
            },
    {
        let key_string = key.to_owned();
        let n = self.entries.len();
        let mut i: usize = 0;
        while i < n
            invariant
                0 <= i <= n,
                n == self.entries@.len(),
                key_string@ == key@,
                forall|j: int| 0 <= j < i ==> (#[trigger] self.entries@[j].0)@ != key@,
            decreases n - i,
        {
            if self.entries[i].0.eq(&key_string) {
                return Option::Some(i);
            }
            i += 1;
        }
        Option::None
    }

    /// A copy of the value stored under the key, if any.
    pub fn get_setting(&self, key: &str) -> (r: Option<serde_json::Value>)
        ensures
            r == spec_get(self.entries@, key@),
    {
        match self.find_key(key) {
            Option::Some(i) => {
                proof {
                    lemma_get_is(self.entries@, key@, i as int);
                }
                Option::Some(self.entries[i].1.clone())
            },
            Option::None => {
                proof {
                    lemma_get_none(self.entries@, key@);
                }
                Option::None
            },
        }
    }

    /// Stores a value under a key, replacing what the key held; every
    /// other key keeps its value.
    pub fn set_setting(&mut self, key: String, value: serde_json::Value) -> (r: ())
        requires
            old(self).wf(),
        ensures
            final(self).wf(),
            spec_get(final(self).entries@, key@) == Option::Some(value),
            forall|k: Seq<char>|
                k != key@ ==> #[trigger] spec_get(final(self).entries@, k) == spec_get(
                    old(self).entries@,
                    k,
                ),
    {
        match self.find_key(key.as_str()) {
            Option::Some(i) => {
                let ghost s = self.entries@;
                let row = vstd::std_specs::vec::vec_index_mut(&mut self.entries, i);
                let ghost old_key = row.0;
                row.1 = value;
                proof {
                    assert(self.entries@ =~= s.update(i as int, (old_key, value)));
                    lemma_get_update_value(s, i as int, (old_key, value));
                    assert forall|a: int, b: int|
                        0 <= a < b < self.entries@.len() implies (#[trigger] self.entries@[a].0)@
                        != (#[trigger] self.entries@[b].0)@ by {
                        assert(self.entries@[a].0@ == s[a].0@);
                        assert(self.entries@[b].0@ == s[b].0@);
                    }
                }
            },
            Option::None => {
                let ghost s = self.entries@;
                let ghost key_view = key@;
                self.entries.push((key, value));
                proof {
                    assert forall|k: Seq<char>| true implies #[trigger] spec_get(
                        self.entries@,
                        k,
                    ) == (match spec_get(s, k) {
                        Option::Some(v) => Option::Some(v),
                        Option::None => if key_view == k {
                            Option::Some(value)
                        } else {
                            Option::<serde_json::Value>::None
                        },
                    }) by {
                        lemma_get_push(s, (key, value), k);
                    }
                    lemma_get_none(s, key_view);
                    assert forall|a: int, b: int|
                        0 <= a < b < self.entries@.len() implies (#[trigger] self.entries@[a].0)@
                        != (#[trigger] self.entries@[b].0)@ by {
                        if b < s.len() {
                            assert(self.entries@[a] == s[a]);
                            assert(self.entries@[b] == s[b]);
                        } else {
                            assert(self.entries@[a] == s[a]);
                            assert(self.entries@[b].0@ == key_view);
                        }
                    }
                }
            },
        }
    }

    /// Drops the key and whatever it held; every other key keeps its
    /// value.  Reports whether the key was present.
    pub fn remove_setting(&mut self, key: &str) -> (removed: bool)
        requires
            old(self).wf(),
        ensures
            final(self).wf(),
            spec_get(final(self).entries@, key@) is None,
            forall|k: Seq<char>|
                k != key@ ==> #[trigger] spec_get(final(self).entries@, k) == spec_get(
                    old(self).entries@,
                    k,
                ),
            removed == (spec_get(old(self).entries@, key@) is Some),
    {
        match self.find_key(key) {
            Option::Some(i) => {
                let ghost s = self.entries@;
                proof {
                    lemma_get_is(s, key@, i as int);
                    assert forall|j: int| 0 <= j < s.len() && j != i implies (#[trigger] s[j].0)@
                        != s[i as int].0@ by {}
                    lemma_get_remove(s, i as int);
                }
                self.entries.remove(i);
                proof {
                    assert(self.entries@ =~= s.remove(i as int));
                    assert forall|a: int, b: int|
                        0 <= a < b < self.entries@.len() implies (#[trigger] self.entries@[a].0)@
                        != (#[trigger] self.entries@[b].0)@ by {
                        let a0 = if a < i as int {
                            a
                        } else {
                            a + 1
                        };
                        let b0 = if b < i as int {
                            b
                        } else {
                            b + 1
                        };
                        assert(self.entries@[a] == s[a0]);
                        assert(self.entries@[b] == s[b0]);
                    }
                }
                true
            },
            Option::None => {
                proof {
                    lemma_get_none(self.entries@, key@);
                }
                false
            },
        }
    }
}

/// Everything the application holds behind its state lock.
pub struct Inner {
    pub config: FrpcConfig,
    pub versions: Vec<FrpVersion>,
    pub active: Option<ActiveFrp>,
    pub loaded: bool,
    pub settings: SettingsMap,
}

impl Inner {
    /// Fresh state: nothing loaded yet.
    pub fn new(config: FrpcConfig) -> (r: Self)
        ensures
            !r.loaded,
            r.settings.wf(),
            r.versions@.len() == 0,
            r.active is None,
            r.config == config,
    {
        Inner {
            config,
            versions: Vec::new(),
            active: Option::None,
            loaded: false,
            settings: SettingsMap::new(),
        }
    }

    /// Installs what the store file held, once: a state already marked
    /// loaded is left untouched, otherwise the fields are replaced and the
    /// state is marked loaded.
    pub fn install_loaded(
        &mut self,
        config: FrpcConfig,
        versions: Vec<FrpVersion>,
        active: Option<ActiveFrp>,
        settings: SettingsMap,
    ) -> (r: ())
        ensures
            old(self).loaded ==> *final(self) == *old(self),
            !old(self).loaded ==> final(self).config == config && final(self).versions == versions
                && final(self).active == active && final(self).settings == settings
                && final(self).loaded,
    {
        if self.loaded {
            return ;
        }
        self.config = config;
        self.versions = versions;
        self.active = active;
        self.settings = settings;
        self.loaded = true;
    }
}

} // verus!
