//! A rotation-aware set of trusted command-signing public keys, indexed by
//! key id, and envelope verification against it.

use vstd::prelude::*;

use crate::command::CommandEnvelope;
use crate::crypto::{
    envelope_check, key_id, key_id_spec, verify_envelope, verifying_key_from_b64,
    public_key_decoding, KeyError, PublicKey, VerifyError,
};
use crate::text::{chars_eq, chars_of, opt_chars, string_of};

verus! {

/// Lexicographic order on characters (the order `String` keys sort in).
pub open spec fn lex_lt(a: Seq<char>, b: Seq<char>) -> bool
    decreases a.len(),
{
    if a.len() == 0 {
        b.len() > 0
    } else if b.len() == 0 {
        false
    } else if a[0] < b[0] {
        true
    } else if a[0] == b[0] {
        lex_lt(a.drop_first(), b.drop_first())
    } else {
        false
    }
}

proof fn lemma_lex_irreflexive(a: Seq<char>)
    ensures
        !lex_lt(a, a),
    decreases a.len(),
{
    if a.len() > 0 {
        lemma_lex_irreflexive(a.drop_first());
    }
}

proof fn lemma_lex_transitive(a: Seq<char>, b: Seq<char>, c: Seq<char>)
    requires
        lex_lt(a, b),
        lex_lt(b, c),
    ensures
        lex_lt(a, c),
    decreases a.len(),
{
    if a.len() > 0 && b.len() > 0 && c.len() > 0 && a[0] == b[0] && b[0] == c[0] {
        lemma_lex_transitive(a.drop_first(), b.drop_first(), c.drop_first());
    }
}

proof fn lemma_lex_total(a: Seq<char>, b: Seq<char>)
    requires
        a != b,
    ensures
        lex_lt(a, b) || lex_lt(b, a),
    decreases a.len(),
{
    if a.len() > 0 && b.len() > 0 && a[0] == b[0] {
        if a.drop_first() == b.drop_first() {
            assert(a =~= seq![a[0]] + a.drop_first());
            assert(b =~= seq![b[0]] + b.drop_first());
        }
        lemma_lex_total(a.drop_first(), b.drop_first());
    } else if a.len() > 0 && b.len() > 0 {
    } else if a.len() == 0 && b.len() == 0 {
        assert(a =~= b);
    }
}

/// Whether `a` sorts strictly before `b`.
fn lex_lt_exec(a: &[char], b: &[char]) -> (r: bool)
    ensures
        r == lex_lt(a@, b@),
{
    let mut i: usize = 0;
    assert(a@.skip(0) =~= a@);
    assert(b@.skip(0) =~= b@);
    while i < a.len() && i < b.len() && a[i] == b[i]
        invariant
            i <= a@.len(),
            i <= b@.len(),
            lex_lt(a@, b@) == lex_lt(a@.skip(i as int), b@.skip(i as int)),
        decreases a@.len() - i,
    {
        assert(a@.skip(i as int).drop_first() =~= a@.skip(i + 1));
        assert(b@.skip(i as int).drop_first() =~= b@.skip(i + 1));
        i = i + 1;
    }
    if i == a.len() {
        return i < b.len();
    }
    if i == b.len() {
        return false;
    }
    assert(a@.skip(i as int)[0] == a@[i as int]);
    assert(b@.skip(i as int)[0] == b@[i as int]);
    a[i] < b[i]
}

/// A set of trusted command-signing public keys, indexed by key id, with one
/// optional default key (the one that verifies envelopes carrying no key id).
#[derive(Debug)]
pub struct Keyring {
    keys: Vec<(String, PublicKey)>,
    default_kid: Option<String>,
}

/// The key stored under `kid` among `entries`.
pub open spec fn key_under(entries: Seq<(String, PublicKey)>, kid: Seq<char>) -> Option<PublicKey>
    decreases entries.len(),
{
    if entries.len() == 0 {
        None
    } else if entries[0].0@ == kid {
        Some(entries[0].1)
    } else {
        key_under(entries.drop_first(), kid)
    }
}

/// The key ids of `entries` are strictly increasing.
pub open spec fn strictly_sorted(entries: Seq<(String, PublicKey)>) -> bool {
    forall|i: int, j: int|
        0 <= i < j < entries.len() ==> lex_lt(#[trigger] entries[i].0@, #[trigger] entries[j].0@)
}

proof fn lemma_key_under_found(entries: Seq<(String, PublicKey)>, i: int)
    requires
        strictly_sorted(entries),
        0 <= i < entries.len(),
    ensures
        key_under(entries, entries[i].0@) == Some(entries[i].1),
    decreases entries.len(),
{
    if i > 0 {
        lemma_lex_irreflexive(entries[i].0@);
        assert(lex_lt(entries[0].0@, entries[i].0@));
        assert(entries[0].0@ != entries[i].0@);
        let rest = entries.drop_first();
        assert(strictly_sorted(rest)) by {
            assert forall|a: int, b: int| 0 <= a < b < rest.len() implies lex_lt(
                #[trigger] rest[a].0@,
                #[trigger] rest[b].0@,
            ) by {
                assert(rest[a] == entries[a + 1]);
                assert(rest[b] == entries[b + 1]);
            }
        }
        lemma_key_under_found(rest, i - 1);
        assert(rest[i - 1] == entries[i]);
    }
}

proof fn lemma_key_under_absent(entries: Seq<(String, PublicKey)>, kid: Seq<char>)
    requires
        forall|i: int| 0 <= i < entries.len() ==> (#[trigger] entries[i]).0@ != kid,
    ensures
        key_under(entries, kid) is None,
    decreases entries.len(),
{
    if entries.len() > 0 {
        assert(entries[0].0@ != kid);
        let rest = entries.drop_first();
        assert forall|i: int| 0 <= i < rest.len() implies (#[trigger] rest[i]).0@ != kid by {
            assert(rest[i] == entries[i + 1]);
        }
        lemma_key_under_absent(rest, kid);
    }
}

impl Keyring {
    #[verifier::type_invariant]
    spec fn well_formed(self) -> bool {
        &&& strictly_sorted(self.keys@)
        &&& self.default_kid matches Some(d) ==> key_under(self.keys@, d@) is Some
    }

    /// The trusted keys, as `(key id, key)` pairs sorted by key id.
    pub closed spec fn entries(self) -> Seq<(String, PublicKey)> {
        self.keys@
    }

    /// The key trusted under `kid`.
    pub closed spec fn lookup(self, kid: Seq<char>) -> Option<PublicKey> {
        key_under(self.keys@, kid)
    }

    /// The id of the default key.
    pub closed spec fn default_id(self) -> Option<Seq<char>> {
        match self.default_kid {
            Some(d) => Some(d@),
            None => None,
        }
    }

    /// An empty keyring: no trusted keys, so every verification fails.
    pub fn new() -> (r: Keyring)
        ensures
            r.entries().len() == 0,
            r.default_id() is None,
            forall|kid: Seq<char>| r.lookup(kid) is None,
    {
        Keyring { keys: Vec::new(), default_kid: None }
    }

    /// A keyring holding just `key`, which becomes the default.
    pub fn single(key: PublicKey) -> (r: Keyring)
        ensures
            r.entries().len() == 1,
            r.entries()[0].0@ == key_id_spec(key.spec_bytes()),
            r.entries()[0].1 == key,
            r.default_id() == Some(key_id_spec(key.spec_bytes())),
            r.lookup(key_id_spec(key.spec_bytes())) == Some(key),
            forall|kid: Seq<char>| kid != key_id_spec(key.spec_bytes()) ==> r.lookup(kid) is None,
    {
        let kid = key_id(&key);
        let mut keys: Vec<(String, PublicKey)> = Vec::new();
        keys.push((kid.clone(), key));
        proof {
            assert(keys@[0].0@ == kid@);
            assert(keys@.drop_first().len() == 0);
            assert forall|k: Seq<char>| k != kid@ implies key_under(keys@, k) is None by {
                assert(key_under(keys@.drop_first(), k) is None);
            }
        }
        Keyring { keys, default_kid: Some(kid) }
    }

    /// Add (or replace) `key` under `kid`, keeping the entries sorted.
    fn insert_with_id(&mut self, kid: String, key: PublicKey)
        ensures
            final(self).lookup(kid@) == Some(key),
            forall|k: Seq<char>| k != kid@ ==> #[trigger] final(self).lookup(k) == old(self).lookup(
                k,
            ),
            final(self).default_id() == old(self).default_id(),
    {
        proof {
            use_type_invariant(&*self);
        }
        let name = chars_of(kid.as_str());
        let mut i: usize = 0;
        let n = self.keys.len();
        while i < n
            invariant
                n == self.keys@.len(),
                i <= n,
                strictly_sorted(self.keys@),
                forall|m: int| 0 <= m < i ==> lex_lt(#[trigger] self.keys@[m].0@, name@),
            ensures
                i <= n,
                i < n ==> !lex_lt(self.keys@[i as int].0@, name@),
                forall|m: int| 0 <= m < i ==> lex_lt(#[trigger] self.keys@[m].0@, name@),
            decreases n - i,
        {
            let k = chars_of(self.keys[i].0.as_str());
            if !lex_lt_exec(&k, &name) {
                break;
            }
            i = i + 1;
        }
        let ghost old_keys = self.keys@;
        let ghost old_default = self.default_kid;
        proof {
            lemma_lex_irreflexive(name@);
        }
        let same = if i < n {
            let k = chars_of(self.keys[i].0.as_str());
            chars_eq(&k, &name)
        } else {
            false
        };
        let mut default_kid: Option<String> = None;
        std::mem::swap(&mut default_kid, &mut self.default_kid);
        let mut keys: Vec<(String, PublicKey)> = Vec::new();
        std::mem::swap(&mut keys, &mut self.keys);
        proof {
            if i < n && !same {
                lemma_lex_total(old_keys[i as int].0@, name@);
            }
        }
        if same {
            keys.set(i, (kid, key));
        } else {
            keys.insert(i, (kid, key));
        }
        let ghost new_keys = keys@;
        proof {
            if !same {
                old_keys.insert_ensures(i as int, new_keys[i as int]);
                assert(forall|m: int| #![trigger old_keys[m]] 0 <= m < i ==> new_keys[m] == old_keys[m]);
                assert(forall|m: int|
                    #![trigger old_keys[m]]
                    i <= m < old_keys.len() ==> new_keys[m + 1] == old_keys[m]);
                assert forall|m: int| i <= m < old_keys.len() implies lex_lt(
                    name@,
                    #[trigger] old_keys[m].0@,
                ) by {
                    if m > i {
                        lemma_lex_transitive(name@, old_keys[i as int].0@, old_keys[m].0@);
                    }
                }
            }
            // The new entry sits in order.
            assert forall|a: int, b: int| 0 <= a < b < new_keys.len() implies lex_lt(
                #[trigger] new_keys[a].0@,
                #[trigger] new_keys[b].0@,
            ) by {
                if same {
                    if a == i {
                        assert(old_keys[a].0@ == name@);
                    }
                    if b == i {
                        assert(old_keys[b].0@ == name@);
                    }
                } else {
                    if a < i && b < i {
                        assert(new_keys[a] == old_keys[a]);
                        assert(new_keys[b] == old_keys[b]);
                    } else if a < i && b == i {
                    } else if a < i && b > i {
                        assert(new_keys[(b - 1) + 1] == old_keys[b - 1]);
                        assert(lex_lt(name@, old_keys[b - 1].0@));
                        lemma_lex_transitive(old_keys[a].0@, name@, old_keys[b - 1].0@);
                    } else if a == i {
                        assert(new_keys[(b - 1) + 1] == old_keys[b - 1]);
                        assert(lex_lt(name@, old_keys[b - 1].0@));
                    } else {
                        assert(new_keys[(a - 1) + 1] == old_keys[a - 1]);
                        assert(new_keys[(b - 1) + 1] == old_keys[b - 1]);
                    }
                }
            }
            assert(strictly_sorted(new_keys));
            // Lookups: the new key under its id, everything else as before.
            assert(new_keys[i as int].0@ == name@);
            lemma_key_under_found(new_keys, i as int);
            assert forall|k: Seq<char>| k != name@ implies #[trigger] key_under(new_keys, k)
                == key_under(old_keys, k) by {
                if exists|m: int| 0 <= m < old_keys.len() && old_keys[m].0@ == k {
                    let m = choose|m: int| 0 <= m < old_keys.len() && old_keys[m].0@ == k;
                    lemma_key_under_found(old_keys, m);
                    if same {
                        assert(m != i);
                        assert(new_keys[m] == old_keys[m]);
                        lemma_key_under_found(new_keys, m);
                    } else if m < i {
                        assert(new_keys[m] == old_keys[m]);
                        lemma_key_under_found(new_keys, m);
                    } else {
                        assert(new_keys[m + 1] == old_keys[m]);
                        lemma_key_under_found(new_keys, m + 1);
                    }
                } else {
                    lemma_key_under_absent(old_keys, k);
                    assert forall|m: int| 0 <= m < new_keys.len() implies (
                    #[trigger] new_keys[m]).0@ != k by {
                        if m == i {
                        } else if same || m < i {
                            assert(new_keys[m] == old_keys[m]);
                        } else {
                            assert(new_keys[(m - 1) + 1] == old_keys[m - 1]);
                        }
                    }
                    lemma_key_under_absent(new_keys, k);
                }
            }
            if let Some(d) = old_default {
                if d@ != name@ {
                    assert(key_under(new_keys, d@) == key_under(old_keys, d@));
                }
            }
        }
        self.keys = keys;
        self.default_kid = default_kid;
    }

    /// Add (or replace) a trusted key, returning its id. Does not change which
    /// key is the default.
    pub fn insert(&mut self, key: PublicKey) -> (kid: String)
        ensures
            kid@ == key_id_spec(key.spec_bytes()),
            final(self).lookup(kid@) == Some(key),
            forall|k: Seq<char>| k != kid@ ==> #[trigger] final(self).lookup(k) == old(self).lookup(
                k,
            ),
            final(self).default_id() == old(self).default_id(),
    {
        let kid = key_id(&key);
        self.insert_with_id(kid.clone(), key);
        kid
    }

    /// Mark `kid` as the default key. The key must already be present; returns
    /// `false` (and changes nothing) if it is not.
    pub fn set_default(&mut self, kid: &str) -> (ok: bool)
        ensures
            ok == (old(self).lookup(kid@) is Some),
            forall|k: Seq<char>| #[trigger] final(self).lookup(k) == old(self).lookup(k),
            final(self).entries() == old(self).entries(),
            final(self).default_id() == if ok {
                Some(kid@)
            } else {
                old(self).default_id()
            },
    {
        proof {
            use_type_invariant(&*self);
        }
        if self.get(kid).is_some() {
            self.default_kid = Some(string_of(&chars_of(kid)));
            true
        } else {
            false
        }
    }

    /// Look up a trusted key by id.
    pub fn get(&self, kid: &str) -> (r: Option<&PublicKey>)
        ensures
            match r {
                Some(k) => self.lookup(kid@) == Some(*k),
                None => self.lookup(kid@) is None,
            },
    {
        let name = chars_of(kid);
        let mut i: usize = 0;
        assert(self.keys@.skip(0) =~= self.keys@);
        while i < self.keys.len()
            invariant
                i <= self.keys@.len(),
                name@ == kid@,
                key_under(self.keys@, name@) == key_under(self.keys@.skip(i as int), name@),
            decreases self.keys@.len() - i,
        {
            assert(self.keys@.skip(i as int)[0] == self.keys@[i as int]);
            assert(self.keys@.skip(i as int).drop_first() =~= self.keys@.skip(i + 1));
            let k = chars_of(self.keys[i].0.as_str());
            if chars_eq(&k, &name) {
                assert(k@ == self.keys@[i as int].0@);
                assert(self.keys@.skip(i as int)[0].0@ == name@);
                assert(key_under(self.keys@.skip(i as int), name@) == Some(
                    self.keys@.skip(i as int)[0].1,
                ));

                return Some(&self.keys[i].1);
            }
            i = i + 1;
        }
        None
    }

    /// The default key, if one is set.
    pub fn default_key(&self) -> (r: Option<&PublicKey>)
        ensures
            match r {
                Some(k) => self.default_id() matches Some(d) && self.lookup(d) == Some(*k),
                None => self.default_id() is None,
            },
    {
        proof {
            use_type_invariant(self);
        }
        match &self.default_kid {
            Some(d) => self.get(d.as_str()),
            None => None,
        }
    }

    /// The default key's id, if one is set.
    pub fn default_kid(&self) -> (r: Option<&str>)
        ensures
            match r {
                Some(s) => self.default_id() == Some(s@),
                None => self.default_id() is None,
            },
    {
        match &self.default_kid {
            Some(d) => Some(d.as_str()),
            None => None,
        }
    }

    /// Number of trusted keys.
    pub fn len(&self) -> (n: usize)
        ensures
            n == self.entries().len(),
    {
        self.keys.len()
    }

    /// Whether the ring holds no keys.
    pub fn is_empty(&self) -> (b: bool)
        ensures
            b == (self.entries().len() == 0),
    {
        self.keys.len() == 0
    }

    /// All key ids in the ring, sorted.
    pub fn kids(&self) -> (ids: Vec<String>)
        ensures
            ids@.len() == self.entries().len(),
            forall|i: int| 0 <= i < ids@.len() ==> #[trigger] ids@[i]@ == self.entries()[i].0@,
    {
        let mut ids: Vec<String> = Vec::new();
        let mut i: usize = 0;
        while i < self.keys.len()
            invariant
                i <= self.keys@.len(),
                ids@.len() == i,
                forall|m: int| 0 <= m < i ==> #[trigger] ids@[m]@ == self.keys@[m].0@,
            decreases self.keys@.len() - i,
        {
            ids.push(self.keys[i].0.clone());
            i = i + 1;
        }
        ids
    }

    /// Build a keyring from its published document: the `(id, base64 key)`
    /// pairs and the advertised active id. Any undecodable key rejects the
    /// whole document (fail closed), as does an active id that is not among
    /// the keys.
    pub fn from_entries(active_kid: Option<String>, entries: Vec<(String, String)>) -> (r: Result<
        Keyring,
        KeyError,
    >)
        ensures
            (r is Ok) <==> (all_keys_decode(entries@) && match active_kid {
                Some(k) => names_kid(entries@, k@),
                None => true,
            }),
            match r {
                Ok(ring) => {
                    &&& forall|i: int|
                        0 <= i < entries@.len() ==> ring.lookup(#[trigger] entries@[i].0@)
                            is Some
                    &&& forall|kid: Seq<char>| #[trigger]
                        ring.lookup(kid) is Some ==> names_kid(entries@, kid)
                    &&& forall|kid: Seq<char>| #[trigger]
                        key_bytes(ring.lookup(kid)) == last_key_for(entries@, kid)
                    &&& ring.default_id() == opt_chars(active_kid)
                },
                Err(e) => (exists|j: int|
                    0 <= j < entries@.len() && all_keys_decode(entries@.take(j))
                        && public_key_decoding(#[trigger] entries@[j].1@) == Err::<
                        Seq<u8>,
                        KeyError,
                    >(e)) || (all_keys_decode(entries@) && e == KeyError::BadKey),
            },
    {
        let mut ring = Keyring::new();
        let mut i: usize = 0;
        while i < entries.len()
            invariant
                i <= entries@.len(),
                ring.default_id() is None,
                all_keys_decode(entries@.take(i as int)),
                forall|m: int| 0 <= m < i ==> ring.lookup(#[trigger] entries@[m].0@) is Some,
                forall|kid: Seq<char>| #[trigger]
                    ring.lookup(kid) is Some ==> names_kid(entries@.take(i as int), kid),
                forall|kid: Seq<char>| #[trigger]
                    key_bytes(ring.lookup(kid)) == last_key_for(entries@.take(i as int), kid),
            decreases entries@.len() - i,
        {
            let key = match verifying_key_from_b64(entries[i].1.as_str()) {
                Ok(k) => k,
                Err(e) => {
                    proof {
                        assert(public_key_decoding(entries@[i as int].1@) == Err::<Seq<u8>, KeyError>(e));
                        assert(!all_keys_decode(entries@)) by {
                            assert(public_key_decoding(entries@[i as int].1@) is Err);
                        }
                    }
                    return Err(e);
                },
            };
            let ghost before = ring;
            ring.insert_with_id(entries[i].0.clone(), key);
            proof {
                let next = entries@.take(i + 1);
                assert(next[i as int] == entries@[i as int]);
                assert forall|m: int| 0 <= m < i implies next[m] == entries@.take(i as int)[m] by {}
                assert forall|kid: Seq<char>| #[trigger] ring.lookup(kid) is Some implies names_kid(next, kid) by {
                    if kid == entries@[i as int].0@ {
                        assert(next[i as int].0@ == kid);
                    } else {
                        assert(before.lookup(kid) is Some);
                        let m = choose|m: int| 0 <= m < i && (#[trigger] entries@.take(i as int)[m]).0@ == kid;
                        assert(next[m].0@ == kid);
                    }
                }
                assert(next.drop_last() =~= entries@.take(i as int));
                assert forall|kid: Seq<char>| #[trigger]
                    key_bytes(ring.lookup(kid)) == last_key_for(next, kid) by {
                    if kid != entries@[i as int].0@ {
                        assert(key_bytes(before.lookup(kid)) == last_key_for(entries@.take(i as int), kid));
                    }
                }
                assert forall|m: int| 0 <= m < i + 1 implies public_key_decoding(#[trigger] next[m].1@) is Ok by {
                    if m < i {
                        assert(next[m] == entries@.take(i as int)[m]);
                    }
                }
            }
            i = i + 1;
        }
        proof {
            assert(entries@.take(i as int) =~= entries@);
        }
        match active_kid {
            Some(k) => {
                if ring.set_default(k.as_str()) {
                    Ok(ring)
                } else {
                    proof {
                        assert(!names_kid(entries@, k@)) by {
                            if names_kid(entries@, k@) {
                                let m = choose|m: int|
                                    0 <= m < entries@.len() && (#[trigger] entries@[m]).0@ == k@;
                                assert(ring.lookup(entries@[m].0@) is Some);
                            }
                        }
                    }
                    Err(KeyError::BadKey)
                }
            },
            None => Ok(ring),
        }
    }
}

/// Every base64 key in `entries` decodes to a valid public key.
pub open spec fn all_keys_decode(entries: Seq<(String, String)>) -> bool {
    forall|m: int| 0 <= m < entries.len() ==> public_key_decoding(#[trigger] entries[m].1@) is Ok
}

/// Some entry of `entries` carries the key id `kid`.
pub open spec fn names_kid(entries: Seq<(String, String)>, kid: Seq<char>) -> bool {
    exists|m: int| 0 <= m < entries.len() && (#[trigger] entries[m]).0@ == kid
}

/// The bytes of a key, if there is one.
pub open spec fn key_bytes(k: Option<PublicKey>) -> Option<Seq<u8>> {
    match k {
        Some(key) => Some(key.spec_bytes()),
        None => None,
    }
}

/// The key that the last entry of `entries` with id `kid` decodes to, if
/// there is such an entry and its key decodes.
pub open spec fn last_key_for(entries: Seq<(String, String)>, kid: Seq<char>) -> Option<Seq<u8>>
    decreases entries.len(),
{
    if entries.len() == 0 {
        None
    } else if entries.last().0@ == kid {
        match public_key_decoding(entries.last().1@) {
            Ok(b) => Some(b),
            Err(_) => None,
        }
    } else {
        last_key_for(entries.drop_last(), kid)
    }
}

/// The key a keyring selects for an envelope: by its key id when it has one,
/// otherwise the ring's default key.
pub open spec fn selected_key(ring: Keyring, env: CommandEnvelope) -> Option<PublicKey> {
    match env.kid {
        Some(kid) => ring.lookup(kid@),
        None => match ring.default_id() {
            Some(d) => ring.lookup(d),
            None => None,
        },
    }
}

/// The outcome of verifying an envelope against a keyring at time `now`: an
/// unknown key id (or no usable default) is refused, otherwise the selected
/// key's signature and expiry check decides.
pub open spec fn ring_check(ring: Keyring, env: CommandEnvelope, payload: Seq<u8>, now: i64) -> Result<
    (),
    VerifyError,
> {
    match selected_key(ring, env) {
        None => Err(VerifyError::UnknownKey),
        Some(k) => envelope_check(k.spec_bytes(), env, payload, now),
    }
}

/// Verify an envelope against a keyring: select the trusted key by the
/// envelope's key id (or the default key for envelopes without one), then
/// check the signature over `payload` and expiry.
pub fn verify_envelope_with(ring: &Keyring, env: &CommandEnvelope, payload: &[u8], now: i64) -> (r:
    Result<(), VerifyError>)
    ensures
        r == ring_check(*ring, *env, payload@, now),
{
    let key = match &env.kid {
        Some(kid) => match ring.get(kid.as_str()) {
            Some(k) => k,
            None => return Err(VerifyError::UnknownKey),
        },
        None => match ring.default_key() {
            Some(k) => k,
            None => return Err(VerifyError::UnknownKey),
        },
    };
    verify_envelope(key, env, payload, now)
}

/// An empty keyring fails closed: every envelope is refused as signed by an
/// unknown key.
pub proof fn empty_keyring_fails_closed(ring: Keyring, env: CommandEnvelope, payload: Seq<u8>, now: i64)
    requires
        forall|kid: Seq<char>| ring.lookup(kid) is None,
    ensures
        ring_check(ring, env, payload, now) == Err::<(), VerifyError>(VerifyError::UnknownKey),
{
}

/// An envelope naming a key id that the ring does not trust (a forged or
/// retired id) is refused as unknown, whatever its signature.
pub proof fn unknown_key_id_is_refused(
    ring: Keyring,
    env: CommandEnvelope,
    payload: Seq<u8>,
    now: i64,
)
    requires
        env.kid matches Some(k) && ring.lookup(k@) is None,
    ensures
        ring_check(ring, env, payload, now) == Err::<(), VerifyError>(VerifyError::UnknownKey),
{
}

/// During a rotation overlap the ring trusts both keys, so an envelope whose
/// key id names either of them is checked against exactly that key.
pub proof fn overlap_checks_the_named_key(
    ring: Keyring,
    env: CommandEnvelope,
    payload: Seq<u8>,
    now: i64,
    key: PublicKey,
)
    requires
        env.kid matches Some(k) && ring.lookup(k@) == Some(key),
    ensures
        ring_check(ring, env, payload, now) == envelope_check(key.spec_bytes(), env, payload, now),
{
}

} // verus!
