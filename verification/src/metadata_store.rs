//! The metadata store: connection settings, and a verified model of the
//! key-value protocol (`GET`/`SET key value EX ttl`/`DEL`/scan) that the
//! pipeline uses as its "seen/downloaded" cache.
//!
//! The store itself is a remote service; the unverified shell talks to it.
//! [`MetadataStore`] is the library's model of that service: the pipeline's
//! cache discipline (dedup, self-healing) is verified against it, and every
//! write the shell performs mirrors a verified transition stated here.

use vstd::prelude::*;

use crate::strutil::str_eq;
use crate::DEFAULT_REDIS_TTL;

verus! {

/// Connection settings of the metadata store.
#[derive(Debug)]
pub struct RedisConfig {
    pub username: String,
    pub password: String,
    pub channel: String,
    pub host: Option<String>,
    pub port: Option<u16>,
}

/// Step-by-step assembly of connection settings.  Deliberately without
/// `Debug`: it holds a credential.
pub struct RedisBuilder {
    pub username: String,
    pub password: String,
    pub host: Option<String>,
    pub port: Option<u16>,
}

/// Assembly of connection settings from the application configuration.
pub trait Builder: Sized {
    fn from_config(config: &RedisConfig) -> Self;
}

impl Default for RedisBuilder {
    fn default() -> (r: Self)
        ensures
            r.username@ == Seq::<char>::empty(),
            r.password@ == Seq::<char>::empty(),
            r.host is None,
            r.port is None,
    {
        RedisBuilder { username: String::new(), password: String::new(), host: None, port: None }
    }
}

impl RedisBuilder {
    pub fn username(&mut self, username: &str)
        ensures
            final(self).username@ == username@,
            final(self).password == old(self).password,
            final(self).host == old(self).host,
            final(self).port == old(self).port,
    {
        self.username = username.to_owned();
    }

    pub fn password(&mut self, password: &str)
        ensures
            final(self).password@ == password@,
            final(self).username == old(self).username,
            final(self).host == old(self).host,
            final(self).port == old(self).port,
    {
        self.password = password.to_owned();
    }

    pub fn host(&mut self, host: &str)
        ensures
            final(self).host matches Some(h) && h@ == host@,
            final(self).username == old(self).username,
            final(self).password == old(self).password,
            final(self).port == old(self).port,
    {
        self.host = Some(host.to_owned());
    }

    pub fn port(&mut self, port: u16)
        ensures
            final(self).port == Some(port),
            final(self).username == old(self).username,
            final(self).password == old(self).password,
            final(self).host == old(self).host,
    {
        self.port = Some(port);
    }
}

impl Builder for RedisBuilder {
    /// Fills the builder from the configuration: the credentials are copied,
    /// the host defaults to `localhost` and the port to 6379 exactly when
    /// the configuration leaves them unset.
    fn from_config(config: &RedisConfig) -> (r: Self)
        ensures
            r.username@ == config.username@,
            r.password@ == config.password@,
            r.host matches Some(h) && h@ == (match config.host {
                Some(ch) => ch@,
                None => "localhost"@,
            }),
            r.port == Some(
                match config.port {
                    Some(cp) => cp,
                    None => 6379u16,
                },
            ),
    {
        let mut builder = RedisBuilder::default();
        match &config.host {
            Some(h) => builder.host(h.as_str()),
            None => builder.host("localhost"),
        }
        match config.port {
            Some(p) => builder.port(p),
            None => builder.port(6379),
        }
        builder.username(config.username.as_str());
        builder.password(config.password.as_str());
        builder
    }
}

/// One entry reported by a scan of the store: key, value, and remaining
/// expiry in seconds (`None` when the key has no expiry).
#[derive(Debug)]
pub struct RetrievedMetadata {
    pub key: String,
    pub value: String,
    pub ttl: Option<i32>,
}

/// Everything a scan of the store reported.
#[derive(Debug)]
pub struct MetadataArchive {
    pub values: Vec<RetrievedMetadata>,
}

/// The model of the metadata store: a finite map from keys to values with an
/// optional per-key expiry, held in insertion order.
#[derive(Debug)]
pub struct MetadataStore {
    entries: Vec<(String, String, Option<u64>)>,
}

impl View for MetadataStore {
    type V = Map<Seq<char>, (Seq<char>, Option<u64>)>;

    /// The store as a map from key to (value, expiry seconds).
    closed spec fn view(&self) -> Map<Seq<char>, (Seq<char>, Option<u64>)> {
        Map::new(
            |k: Seq<char>|
                exists|i: int|
                    0 <= i < self.spec_entries().len() && (#[trigger] self.spec_entries()[i]).0
                        == k,
            |k: Seq<char>|
                {
                    let i = choose|i: int|
                        0 <= i < self.spec_entries().len() && (
                        #[trigger] self.spec_entries()[i]).0 == k;
                    (self.spec_entries()[i].1, self.spec_entries()[i].2)
                },
        )
    }
}

impl MetadataStore {
    /// The entries in insertion order, as plain sequences.
    pub closed spec fn spec_entries(&self) -> Seq<(Seq<char>, Seq<char>, Option<u64>)> {
        Seq::new(
            self.entries@.len() as nat,
            |i: int| (self.entries@[i].0@, self.entries@[i].1@, self.entries@[i].2),
        )
    }

    /// Keys are unique, and every expiry fits the scan report.
    pub open spec fn wf(&self) -> bool {
        &&& forall|i: int, j: int|
            0 <= i < j < self.spec_entries().len() ==> (#[trigger] self.spec_entries()[i]).0 != (
            #[trigger] self.spec_entries()[j]).0
        &&& forall|i: int|
            0 <= i < self.spec_entries().len() ==> match (#[trigger] self.spec_entries()[i]).2 {
                Some(t) => t <= i32::MAX,
                None => true,
            }
    }

    /// An entry of the store seen through the map view.
    proof fn lemma_view_index(&self, i: int)
        requires
            self.wf(),
            0 <= i < self.spec_entries().len(),
        ensures
            self@.contains_key(self.spec_entries()[i].0),
            self@[self.spec_entries()[i].0] == (self.spec_entries()[i].1, self.spec_entries()[i].2),
    {
        let k = self.spec_entries()[i].0;
        assert(exists|j: int|
            0 <= j < self.spec_entries().len() && (#[trigger] self.spec_entries()[j]).0 == k);
        let j = choose|j: int|
            0 <= j < self.spec_entries().len() && (#[trigger] self.spec_entries()[j]).0 == k;
        if i != j {
            if i < j {
                assert(self.spec_entries()[i].0 != self.spec_entries()[j].0);
            } else {
                assert(self.spec_entries()[j].0 != self.spec_entries()[i].0);
            }
        }
    }

    /// An empty store.
    pub fn new() -> (r: Self)
        ensures
            r.wf(),
            r@ == Map::<Seq<char>, (Seq<char>, Option<u64>)>::empty(),
    {
        let r = MetadataStore { entries: Vec::new() };
        proof {
            assert(r@ =~= Map::<Seq<char>, (Seq<char>, Option<u64>)>::empty());
        }
        r
    }

    /// Index of the entry holding `key`, if any.
    fn find_key_index(&self, key: &str) -> (r: Option<usize>)
        ensures
            match r {
                Some(i) => i < self.spec_entries().len() && self.spec_entries()[i as int].0
                    == key@,
                None => forall|j: int|
                    0 <= j < self.spec_entries().len() ==> (#[trigger] self.spec_entries()[j]).0
                        != key@,
            },
    {
        let n = self.entries.len();
        let mut i: usize = 0;
        while i < n
            invariant
                i <= n,
                n == self.entries.len(),
                n == self.spec_entries().len(),
                forall|j: int| 0 <= j < i ==> (#[trigger] self.spec_entries()[j]).0 != key@,
            decreases n - i,
        {
            if str_eq(self.entries[i].0.as_str(), key) {
                assert(self.spec_entries()[i as int].0 == key@);
                return Some(i);
            }
            i += 1;
        }
        None
    }

    /// `GET key`: the stored value, or `None` when the key is absent.
    pub fn get(&self, key: &str) -> (r: Option<String>)
        requires
            self.wf(),
        ensures
            match r {
                Some(v) => self@.contains_key(key@) && v@ == self@[key@].0,
                None => !self@.contains_key(key@),
            },
    {
        match self.find_key_index(key) {
            Some(i) => {
                proof {
                    self.lemma_view_index(i as int);
                }
                Some(self.entries[i].1.clone())
            },
            None => {
                assert(!self@.contains_key(key@));
                None
            },
        }
    }

    /// `SET key value EX DEFAULT_REDIS_TTL`: writes the value under the key
    /// with the default expiry, replacing any previous entry.
    pub fn set(&mut self, key: &str, value: &str)
        requires
            old(self).wf(),
        ensures
            final(self).wf(),
            final(self)@ == old(self)@.insert(key@, (value@, Some(DEFAULT_REDIS_TTL))),
    {
        let entry = (key.to_owned(), value.to_owned(), Some(DEFAULT_REDIS_TTL));
        match self.find_key_index(key) {
            Some(i) => {
                self.entries.set(i, entry);
                proof {
                    assert(self.spec_entries() =~= old(self).spec_entries().update(
                        i as int,
                        (key@, value@, Some(DEFAULT_REDIS_TTL)),
                    ));
                    self.lemma_set_view(*old(self), key@, value@, Some(i as int));
                }
            },
            None => {
                self.entries.push(entry);
                proof {
                    assert(self.spec_entries() =~= old(self).spec_entries().push(
                        (key@, value@, Some(DEFAULT_REDIS_TTL)),
                    ));
                    self.lemma_set_view(*old(self), key@, value@, None);
                }
            },
        }
    }

    /// After an update-in-place or a push of `(k, v, ttl)`, the map view is
    /// the old view with `k` bound to `(v, ttl)`.
    proof fn lemma_set_view(
        &self,
        prev: MetadataStore,
        k: Seq<char>,
        v: Seq<char>,
        at: Option<int>,
    )
        requires
            prev.wf(),
            match at {
                Some(i) => 0 <= i < prev.spec_entries().len() && prev.spec_entries()[i].0 == k
                    && self.spec_entries() == prev.spec_entries().update(
                    i,
                    (k, v, Some(DEFAULT_REDIS_TTL)),
                ),
                None => (forall|j: int|
                    0 <= j < prev.spec_entries().len() ==> (#[trigger] prev.spec_entries()[j]).0
                        != k) && self.spec_entries() == prev.spec_entries().push(
                    (k, v, Some(DEFAULT_REDIS_TTL)),
                ),
            },
        ensures
            self.wf(),
            self@ == prev@.insert(k, (v, Some(DEFAULT_REDIS_TTL))),
    {
        assert forall|i: int, j: int|
            0 <= i < j < self.spec_entries().len() implies (#[trigger] self.spec_entries()[i]).0
            != (#[trigger] self.spec_entries()[j]).0 by {
            assert(prev.spec_entries().len() <= self.spec_entries().len());
        }
        assert forall|k2: Seq<char>| #[trigger]
            self@.contains_key(k2) == prev@.insert(k, (v, Some(DEFAULT_REDIS_TTL))).contains_key(
            k2,
        ) by {
            if k2 == k {
                let n = self.spec_entries().len() - 1;
                let i = match at {
                    Some(i) => i,
                    None => n,
                };
                assert(self.spec_entries()[i].0 == k2);
            } else {
                if self@.contains_key(k2) {
                    let i = choose|i: int|
                        0 <= i < self.spec_entries().len() && (
                        #[trigger] self.spec_entries()[i]).0 == k2;
                    assert(prev.spec_entries()[i].0 == k2);
                }
                if prev@.contains_key(k2) {
                    let i = choose|i: int|
                        0 <= i < prev.spec_entries().len() && (
                        #[trigger] prev.spec_entries()[i]).0 == k2;
                    assert(self.spec_entries()[i].0 == k2);
                }
            }
        }
        assert forall|k2: Seq<char>| self@.contains_key(k2) implies self@[k2] == prev@.insert(
            k,
            (v, Some(DEFAULT_REDIS_TTL)),
        )[k2] by {
            let i = choose|i: int|
                0 <= i < self.spec_entries().len() && (#[trigger] self.spec_entries()[i]).0 == k2;
            self.lemma_view_index(i);
            if k2 == k {
                let ui = match at {
                    Some(ui) => ui,
                    None => self.spec_entries().len() - 1,
                };
                assert(self.spec_entries()[ui].0 == k2);
                if i < ui {
                    assert(self.spec_entries()[i].0 != self.spec_entries()[ui].0);
                } else if ui < i {
                    assert(self.spec_entries()[ui].0 != self.spec_entries()[i].0);
                }
                assert(self.spec_entries()[i] == (k, v, Some(DEFAULT_REDIS_TTL)));
            } else {
                assert(prev.spec_entries()[i].0 == k2);
                prev.lemma_view_index(i);
            }
        }
        assert(self@ =~= prev@.insert(k, (v, Some(DEFAULT_REDIS_TTL))));
    }

    /// `DEL key`: removes the entry under the key, if any.
    pub fn del(&mut self, key: &str)
        requires
            old(self).wf(),
        ensures
            final(self).wf(),
            final(self)@ == old(self)@.remove(key@),
    {
        match self.find_key_index(key) {
            Some(i) => {
                self.entries.remove(i);
                proof {
                    assert(self.spec_entries() =~= old(self).spec_entries().remove(i as int));
                    self.lemma_del_view(*old(self), key@, i as int);
                }
            },
            None => {
                proof {
                    assert(!old(self)@.contains_key(key@));
                    assert(self@ =~= old(self)@.remove(key@));
                }
            },
        }
    }

    /// After removing the entry at `i` (the one holding `k`), the map view is
    /// the old view without `k`.
    proof fn lemma_del_view(&self, prev: MetadataStore, k: Seq<char>, at: int)
        requires
            prev.wf(),
            0 <= at < prev.spec_entries().len(),
            prev.spec_entries()[at].0 == k,
            self.spec_entries() == prev.spec_entries().remove(at),
        ensures
            self.wf(),
            self@ == prev@.remove(k),
    {
        assert forall|i: int, j: int|
            0 <= i < j < self.spec_entries().len() implies (#[trigger] self.spec_entries()[i]).0
            != (#[trigger] self.spec_entries()[j]).0 by {
            let pi = if i < at {
                i
            } else {
                i + 1
            };
            let pj = if j < at {
                j
            } else {
                j + 1
            };
            assert(self.spec_entries()[i] == prev.spec_entries()[pi]);
            assert(self.spec_entries()[j] == prev.spec_entries()[pj]);
        }
        assert forall|i: int|
            0 <= i < self.spec_entries().len() implies self.spec_entries()[i]
            == prev.spec_entries()[
            if i < at {
                i
            } else {
                i + 1
            }
        ] by {}
        assert forall|k2: Seq<char>| #[trigger]
            self@.contains_key(k2) == prev@.remove(k).contains_key(k2) by {
            if k2 == k {
                if self@.contains_key(k2) {
                    let i = choose|i: int|
                        0 <= i < self.spec_entries().len() && (
                        #[trigger] self.spec_entries()[i]).0 == k2;
                    let pi = if i < at {
                        i
                    } else {
                        i + 1
                    };
                    assert(prev.spec_entries()[pi].0 == k2);
                    if pi < at {
                        assert(prev.spec_entries()[pi].0 != prev.spec_entries()[at].0);
                    } else {
                        assert(prev.spec_entries()[at].0 != prev.spec_entries()[pi].0);
                    }
                }
            } else {
                if self@.contains_key(k2) {
                    let i = choose|i: int|
                        0 <= i < self.spec_entries().len() && (
                        #[trigger] self.spec_entries()[i]).0 == k2;
                    let pi = if i < at {
                        i
                    } else {
                        i + 1
                    };
                    assert(prev.spec_entries()[pi].0 == k2);
                }
                if prev@.contains_key(k2) {
                    let pi = choose|i: int|
                        0 <= i < prev.spec_entries().len() && (
                        #[trigger] prev.spec_entries()[i]).0 == k2;
                    assert(pi != at);
                    let i = if pi < at {
                        pi
                    } else {
                        pi - 1
                    };
                    assert(self.spec_entries()[i].0 == k2);
                }
            }
        }
        assert forall|k2: Seq<char>| self@.contains_key(k2) implies self@[k2] == prev@.remove(
            k,
        )[k2] by {
            let i = choose|i: int|
                0 <= i < self.spec_entries().len() && (#[trigger] self.spec_entries()[i]).0 == k2;
            self.lemma_view_index(i);
            let pi = if i < at {
                i
            } else {
                i + 1
            };
            assert(prev.spec_entries()[pi].0 == k2);
            prev.lemma_view_index(pi);
        }
        assert(self@ =~= prev@.remove(k));
    }

    /// The administrative scan: every entry, in insertion order, with its
    /// remaining expiry (`None` for a key without expiry).
    pub fn retrieve_metadata(&self) -> (r: MetadataArchive)
        requires
            self.wf(),
        ensures
            r.values@.len() == self.spec_entries().len(),
            forall|i: int|
                0 <= i < r.values@.len() ==> {
                    &&& (#[trigger] r.values@[i]).key@ == self.spec_entries()[i].0
                    &&& r.values@[i].value@ == self.spec_entries()[i].1
                    &&& r.values@[i].ttl matches Some(t) ==> self.spec_entries()[i].2 == Some(
                        t as u64,
                    )
                    &&& r.values@[i].ttl is None ==> self.spec_entries()[i].2 is None
                },
    {
        let mut values: Vec<RetrievedMetadata> = Vec::new();
        let n = self.entries.len();
        let mut i: usize = 0;
        while i < n
            invariant
                i <= n,
                n == self.entries.len(),
                self.wf(),
                values@.len() == i,
                forall|j: int|
                    0 <= j < i ==> {
                        &&& (#[trigger] values@[j]).key@ == self.spec_entries()[j].0
                        &&& values@[j].value@ == self.spec_entries()[j].1
                        &&& values@[j].ttl matches Some(t) ==> self.spec_entries()[j].2 == Some(
                            t as u64,
                        )
                        &&& values@[j].ttl is None ==> self.spec_entries()[j].2 is None
                    },
            decreases n - i,
        {
            let ttl: Option<i32> = match self.entries[i].2 {
                Some(t) => {
                    assert(self.spec_entries()[i as int].2 == Some(t));
                    Some(t as i32)
                },
                None => None,
            };
            values.push(
                RetrievedMetadata {
                    key: self.entries[i].0.clone(),
                    value: self.entries[i].1.clone(),
                    ttl,
                },
            );
            i += 1;
        }
        MetadataArchive { values }
    }
}

} // verus!
