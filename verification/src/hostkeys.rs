//! Known SSH host keys, trusted on first use.
//!
//! The first time a server (`host:port`) is seen its key is saved; after
//! that the key it presents must carry the same key blob as the saved one.
//! The blob alone is compared: RSA keys keep their blob under the names
//! `rsa-sha2-256` and `rsa-sha2-512`. Reading and writing the file is the
//! caller's; this module reads its text and writes the text back.
use crate::text::{
    concat, decimal, push_decimal, spec_lines, spec_split_once, spec_split_whitespace,
    spec_trim, split_lines, split_once_char, split_whitespace, starts_with_char, str_eq, trim,
    words_state, spec_is_whitespace, lines_state, strip_cr, lemma_lines_state_append,
    lemma_lines_state_break, lemma_find_from_first, lemma_find_from_found, lemma_trim_unchanged,
};
use crate::ssh::{no_whitespace, PublicKeyData};
use vstd::prelude::*;

verus! {

/// The value saved for `key`: the first entry with that key.
pub open spec fn lookup(e: Seq<(Seq<char>, Seq<char>)>, key: Seq<char>) -> Option<Seq<char>>
    decreases e.len(),
{
    if e.len() == 0 {
        None
    } else if e[0].0 == key {
        Some(e[0].1)
    } else {
        lookup(e.drop_first(), key)
    }
}

/// No key occurs twice.
pub open spec fn keys_unique(e: Seq<(Seq<char>, Seq<char>)>) -> bool {
    forall|i: int, j: int| 0 <= i < j < e.len() ==> e[i].0 != e[j].0
}

/// The key blob of a saved entry (`<keytype> <blob>`): its second word,
/// or empty.
pub open spec fn blob_of(saved: Seq<char>) -> Seq<char> {
    let w = spec_split_whitespace(saved);
    if w.len() >= 2 {
        w[1]
    } else {
        ""@
    }
}

/// The name under which a server's key is saved: `host:port`.
pub open spec fn host_port(host: Seq<char>, port: u16) -> Seq<char> {
    host + ":"@ + decimal(port as nat)
}

/// The known host keys.
pub struct KnownHosts {
    entries: Vec<(String, String)>,
}

impl View for KnownHosts {
    type V = Seq<(Seq<char>, Seq<char>)>;

    /// The entries: `host:port` and `<keytype> <blob>`, in the order they
    /// were first saved.
    closed spec fn view(&self) -> Seq<(Seq<char>, Seq<char>)> {
        self.entries.deep_view()
    }
}

/// Saving an entry for a key not yet known adds it and changes nothing
/// else.
pub proof fn lemma_lookup_push(
    e: Seq<(Seq<char>, Seq<char>)>,
    k: Seq<char>,
    v: Seq<char>,
    q: Seq<char>,
)
    requires
        lookup(e, k) is None,
    ensures
        lookup(e.push((k, v)), q) == (if q == k {
            Some(v)
        } else {
            lookup(e, q)
        }),
    decreases e.len(),
{
    let f = e.push((k, v));
    if e.len() > 0 {
        assert(f[0] == e[0]);
        assert(e[0].0 != k);
        assert(f.drop_first() =~= e.drop_first().push((k, v)));
        lemma_lookup_push(e.drop_first(), k, v, q);
        assert(lookup(f, q) == (if f[0].0 == q {
            Some(f[0].1)
        } else {
            lookup(f.drop_first(), q)
        }));
        assert(lookup(e, q) == (if e[0].0 == q {
            Some(e[0].1)
        } else {
            lookup(e.drop_first(), q)
        }));
    } else {
        assert(f[0] == (k, v));
        assert(f.drop_first() =~= Seq::<(Seq<char>, Seq<char>)>::empty());
    }
}

proof fn lemma_lookup_none(e: Seq<(Seq<char>, Seq<char>)>, k: Seq<char>)
    ensures
        lookup(e, k) is None <==> forall|i: int| 0 <= i < e.len() ==> e[i].0 != k,
    decreases e.len(),
{
    if e.len() > 0 {
        lemma_lookup_none(e.drop_first(), k);
        if lookup(e, k) is None {
            assert forall|i: int| 0 <= i < e.len() implies e[i].0 != k by {
                if i > 0 {
                    assert(e[i] == e.drop_first()[i - 1]);
                }
            }
        } else if e[0].0 != k {
            let i = choose|i: int| 0 <= i < e.drop_first().len() && e.drop_first()[i].0 == k;
            assert(e[i + 1] == e.drop_first()[i]);
        }
    }
}

/// Replacing the value of a key that occurs once changes that key only.
proof fn lemma_lookup_update(
    e: Seq<(Seq<char>, Seq<char>)>,
    j: int,
    v: Seq<char>,
    q: Seq<char>,
)
    requires
        0 <= j < e.len(),
        keys_unique(e),
    ensures
        keys_unique(e.update(j, (e[j].0, v))),
        lookup(e.update(j, (e[j].0, v)), q) == (if q == e[j].0 {
            Some(v)
        } else {
            lookup(e, q)
        }),
    decreases e.len(),
{
    let e2 = e.update(j, (e[j].0, v));
    if j == 0 {
        assert(e2.drop_first() =~= e.drop_first());
    } else {
        assert(e2.drop_first() =~= e.drop_first().update(j - 1, (e[j].0, v)));
        assert(keys_unique(e.drop_first())) by {
            assert forall|a: int, b: int| 0 <= a < b < e.drop_first().len() implies e.drop_first()[a].0
                != e.drop_first()[b].0 by {
                assert(e.drop_first()[a] == e[a + 1]);
                assert(e.drop_first()[b] == e[b + 1]);
            }
        }
        lemma_lookup_update(e.drop_first(), j - 1, v, q);
        assert(e.drop_first()[j - 1] == e[j]);
        if q == e[j].0 {
            assert(e[0].0 != e[j].0);
        }
    }
}

/// The entry for a server, `host:port`.
fn host_port_exec(host: &str, port: u16) -> (r: String)
    ensures
        r@ == host_port(host@, port),
{
    let mut s = concat(host, ":");
    push_decimal(&mut s, port as u64);
    s
}

/// The blob of a saved entry.
fn blob_of_exec(saved: &str) -> (r: String)
    ensures
        r@ == blob_of(saved@),
{
    let w = split_whitespace(saved);
    if w.len() >= 2 {
        let ghost wv = w.deep_view();
        assert(wv[1] == w@[1]@);
        w[1].clone()
    } else {
        String::from_str("")
    }
}

/// What a line of a known hosts file holds: `host:port keytype blob`,
/// split at its first two spaces; the key text is what follows the first
/// space. Blank lines, comments and lines with fewer than two spaces hold
/// nothing.
pub open spec fn known_hosts_line(line: Seq<char>) -> Option<(Seq<char>, Seq<char>)> {
    let t = spec_trim(line);
    if t.len() == 0 || t[0] == '#' {
        None
    } else {
        match spec_split_once(t, ' ') {
            Some((hp, rest)) => match spec_split_once(rest, ' ') {
                Some((_kt, _blob)) => Some((hp, rest)),
                None => None,
            },
            None => None,
        }
    }
}

/// The entries a known hosts file sets, in order; a later line for the
/// same server replaces an earlier one.
pub open spec fn known_hosts_pairs(lines: Seq<Seq<char>>) -> Seq<(Seq<char>, Seq<char>)>
    decreases lines.len(),
{
    if lines.len() == 0 {
        seq![]
    } else {
        let rest = known_hosts_pairs(lines.drop_last());
        match known_hosts_line(lines.last()) {
            Some(p) => rest.push(p),
            None => rest,
        }
    }
}

/// The value the last of `pairs` with key `k` sets.
pub open spec fn last_value(pairs: Seq<(Seq<char>, Seq<char>)>, k: Seq<char>) -> Option<Seq<char>>
    decreases pairs.len(),
{
    if pairs.len() == 0 {
        None
    } else if pairs.last().0 == k {
        Some(pairs.last().1)
    } else {
        last_value(pairs.drop_last(), k)
    }
}

/// The header line of a known hosts file.
pub open spec fn known_hosts_header() -> Seq<char> {
    "# Starla known hosts - do not edit manually"@
}

/// The lines of the entries, each `host:port <keytype> <blob>`, each after
/// a line break.
pub open spec fn entry_lines(e: Seq<(Seq<char>, Seq<char>)>) -> Seq<char>
    decreases e.len(),
{
    if e.len() == 0 {
        seq![]
    } else {
        entry_lines(e.drop_last()) + "\n"@ + e.last().0 + " "@ + e.last().1
    }
}

/// What checking a presented key (type name `t`, blob `b`) against the
/// entries `e` for the server `hp` answers, and the entries after it: a
/// known server must present its saved blob and nothing changes; an unknown
/// one is trusted and saved as `t b`.
pub open spec fn spec_verified(
    e: Seq<(Seq<char>, Seq<char>)>,
    hp: Seq<char>,
    t: Seq<char>,
    b: Seq<char>,
    r: bool,
    e2: Seq<(Seq<char>, Seq<char>)>,
) -> bool {
    match lookup(e, hp) {
        Some(saved) => r == (blob_of(saved) == b) && e2 == e,
        None => r && e2 == e.push((hp, t + " "@ + b)),
    }
}

impl KnownHosts {
    /// Whether no server occurs twice.
    pub closed spec fn wf(&self) -> bool {
        keys_unique(self@)
    }

    /// No known hosts.
    pub fn new() -> (r: Self)
        ensures
            r.wf(),
            r@ == Seq::<(Seq<char>, Seq<char>)>::empty(),
    {
        let r = KnownHosts { entries: Vec::new() };
        assert(r@ =~= Seq::<(Seq<char>, Seq<char>)>::empty());
        r
    }

    /// The key text saved for `host_port`, if any.
    pub fn get(&self, key: &str) -> (r: Option<&String>)
        requires
            self.wf(),
        ensures
            match lookup(self@, key@) {
                Some(v) => r matches Some(s) && s@ == v,
                None => r is None,
            },
    {
        let ghost e = self@;
        let mut i: usize = 0;
        assert(e.skip(0) =~= e);
        while i < self.entries.len()
            invariant
                e == self@,
                e == self.entries.deep_view(),
                i <= e.len(),
                lookup(e, key@) == lookup(e.skip(i as int), key@),
            decreases self.entries.len() - i,
        {
            assert(e.skip(i as int)[0] == e[i as int]);
            assert(e.skip(i as int).drop_first() =~= e.skip(i as int + 1));
            assert(e[i as int] == (self.entries@[i as int].0@, self.entries@[i as int].1@));
            if str_eq(self.entries[i].0.as_str(), key) {
                return Some(&self.entries[i].1);
            }
            i = i + 1;
        }
        None
    }

    /// Saves `value` for `key`: replaces the saved value, or adds an entry.
    pub fn insert(&mut self, key: String, value: String)
        requires
            old(self).wf(),
        ensures
            final(self).wf(),
            forall|q: Seq<char>|
                #![trigger lookup(final(self)@, q)]
                lookup(final(self)@, q) == if q == key@ {
                    Some(value@)
                } else {
                    lookup(old(self)@, q)
                },
            lookup(old(self)@, key@) is None ==> final(self)@ == old(self)@.push((key@, value@)),
    {
        let ghost e = self@;
        let mut i: usize = 0;
        while i < self.entries.len()
            invariant
                e == self@,
                e == old(self)@,
                e == self.entries.deep_view(),
                i <= e.len(),
                keys_unique(e),
                forall|j: int| 0 <= j < i ==> e[j].0 != key@,
            decreases self.entries.len() - i,
        {
            assert(e[i as int] == (self.entries@[i as int].0@, self.entries@[i as int].1@));
            if str_eq(self.entries[i].0.as_str(), key.as_str()) {
                let ghost j = i as int;
                let ghost v = value@;
                let ghost kk = key@;
                assert(e[j].0 == kk);
                self.entries.set(i, (key, value));
                proof {
                    assert(self@ =~= e.update(j, (e[j].0, v)));
                    assert forall|q: Seq<char>| #[trigger]
                        lookup(self@, q) == (if q == e[j].0 {
                            Some(v)
                        } else {
                            lookup(e, q)
                        }) by {
                        lemma_lookup_update(e, j, v, q);
                    }
                    lemma_lookup_update(e, j, v, e[j].0);
                    lemma_lookup_none(e, e[j].0);
                }
                return;
            }
            i = i + 1;
        }
        let ghost k = key@;
        let ghost v = value@;
        proof {
            lemma_lookup_none(e, k);
        }
        self.entries.push((key, value));
        proof {
            assert(self@ =~= e.push((k, v)));
            assert forall|q: Seq<char>| #[trigger]
                lookup(self@, q) == (if q == k {
                    Some(v)
                } else {
                    lookup(e, q)
                }) by {
                lemma_lookup_push(e, k, v, q);
            }
        }
    }

    /// Reads the text of a known hosts file.
    pub fn parse(contents: &str) -> (r: Self)
        ensures
            r.wf(),
            forall|q: Seq<char>|
                #![trigger lookup(r@, q)]
                lookup(r@, q) == last_value(known_hosts_pairs(spec_lines(contents@)), q),
    {
        let lines = split_lines(contents);
        let ghost ls = lines.deep_view();
        let mut kh = KnownHosts::new();
        let mut i: usize = 0;
        while i < lines.len()
            invariant
                i <= lines@.len(),
                ls == lines.deep_view(),
                ls == spec_lines(contents@),
                kh.wf(),
                forall|q: Seq<char>|
                    #![trigger lookup(kh@, q)]
                    lookup(kh@, q) == last_value(known_hosts_pairs(ls.take(i as int)), q),
            decreases lines.len() - i,
        {
            assert(ls.take(i as int + 1).drop_last() =~= ls.take(i as int));
            assert(ls.take(i as int + 1).last() == lines@[i as int]@);
            let ghost before = known_hosts_pairs(ls.take(i as int));
            let t = trim(lines[i].as_str());
            if t.unicode_len() > 0 && !starts_with_char(t.as_str(), '#') {
                if let Some((hp, rest)) = split_once_char(t.as_str(), ' ') {
                    if let Some((_kt, _blob)) = split_once_char(rest.as_str(), ' ') {
                        let ghost k = hp@;
                        let ghost v = rest@;
                        kh.insert(hp, rest);
                        proof {
                            let after = known_hosts_pairs(ls.take(i as int + 1));
                            assert(after == before.push((k, v)));
                            assert(after.drop_last() =~= before);
                        }
                    }
                }
            }
            i = i + 1;
        }
        assert(ls.take(ls.len() as int) =~= ls);
        kh
    }

    /// Checks the key a server presents, given by its type name and base64
    /// blob, against the saved one. A server seen before must present the
    /// saved blob; a server seen for the first time has its key saved and
    /// is trusted.
    pub fn verify_presented(&mut self, host: &str, port: u16, key_type: &str, key_blob: &str) -> (r: bool)
        requires
            old(self).wf(),
        ensures
            final(self).wf(),
            spec_verified(old(self)@, host_port(host@, port), key_type@, key_blob@, r, final(self)@),
    {
        let hp = host_port_exec(host, port);
        match self.get(hp.as_str()) {
            Some(saved) => {
                let blob = blob_of_exec(saved.as_str());
                str_eq(blob.as_str(), key_blob)
            },
            None => {
                let head = concat(key_type, " ");
                let presented = concat(head.as_str(), key_blob);
                self.insert(hp, presented);
                true
            },
        }
    }

    /// Checks the public key a server presents against the saved one, by
    /// the key's algorithm name and base64 blob: a server seen before must
    /// present the saved blob; a server seen for the first time has its key
    /// saved and is trusted. Writing the file back is the caller's.
    pub fn verify(&mut self, host: &str, port: u16, key: &PublicKeyData) -> (r: bool)
        requires
            old(self).wf(),
        ensures
            final(self).wf(),
            spec_verified(old(self)@, host_port(host@, port), key.algorithm@, key.blob@, r, final(self)@),
    {
        self.verify_presented(host, port, key.algorithm.as_str(), key.blob.as_str())
    }

    /// The text of the known hosts file: the header line, then one line
    /// per server, and a final line break.
    pub fn to_file_text(&self) -> (r: String)
        ensures
            r@ == known_hosts_header() + entry_lines(self@) + "\n"@,
    {
        let ghost e = self@;
        let mut s = String::from_str("# Starla known hosts - do not edit manually");
        let mut i: usize = 0;
        while i < self.entries.len()
            invariant
                e == self@,
                e == self.entries.deep_view(),
                i <= e.len(),
                s@ == known_hosts_header() + entry_lines(e.take(i as int)),
            decreases self.entries.len() - i,
        {
            assert(e.take(i as int + 1).drop_last() =~= e.take(i as int));
            assert(e[i as int] == (self.entries@[i as int].0@, self.entries@[i as int].1@));
            s.append("\n");
            s.append(self.entries[i].0.as_str());
            s.append(" ");
            s.append(self.entries[i].1.as_str());
            i = i + 1;
            assert(s@ =~= known_hosts_header() + entry_lines(e.take(i as int)));
        }
        assert(e.take(e.len() as int) =~= e);
        s.append("\n");
        s
    }
}

// ---------------------------------------------------------------------
// What trust on first use guarantees
// ---------------------------------------------------------------------

/// Words of text that ends in characters that are no whitespace: the word
/// being read grows by them.
proof fn lemma_words_state_append(p: Seq<char>, s: Seq<char>)
    requires
        forall|i: int| 0 <= i < s.len() ==> !spec_is_whitespace(#[trigger] s[i]),
    ensures
        words_state(p + s) == (words_state(p).0, words_state(p).1 + s),
    decreases s.len(),
{
    if s.len() == 0 {
        assert(p + s =~= p);
        assert(words_state(p).1 + s =~= words_state(p).1);
    } else {
        lemma_words_state_append(p, s.drop_last());
        assert((p + s).drop_last() =~= p + s.drop_last());
        assert((p + s).last() == s.last());
        assert(words_state(p).1 + s.drop_last() + seq![s.last()] =~= words_state(p).1 + s);
        assert((words_state(p).1 + s.drop_last()).push(s.last()) =~= words_state(p).1 + s);
    }
}

/// The blob of the text saved for a key is the key's blob, when the key
/// type is a non-empty word and the blob has no whitespace.
pub proof fn lemma_blob_of_saved(key_type: Seq<char>, key_blob: Seq<char>)
    requires
        key_type.len() > 0,
        forall|i: int| 0 <= i < key_type.len() ==> !spec_is_whitespace(#[trigger] key_type[i]),
        forall|i: int| 0 <= i < key_blob.len() ==> !spec_is_whitespace(#[trigger] key_blob[i]),
    ensures
        blob_of(key_type + " "@ + key_blob) == key_blob,
{
    reveal_strlit(" ");
    reveal_strlit("");
    let e: Seq<char> = seq![];
    lemma_words_state_append(e, key_type);
    assert(e + key_type =~= key_type);
    let t1 = key_type + " "@;
    assert(t1.drop_last() =~= key_type);
    assert(t1.last() == ' ');
    assert(words_state(t1) == (seq![key_type], Seq::<char>::empty()));
    lemma_words_state_append(t1, key_blob);
    let w = spec_split_whitespace(key_type + " "@ + key_blob);
    if key_blob.len() > 0 {
        assert(w == seq![key_type, key_blob]);
    } else {
        assert(t1 + key_blob =~= t1);
        assert(w =~= seq![key_type]);
    }
}

/// Trust on first use: a server seen for the first time is trusted, and
/// from then on the same blob is accepted whatever the key type is called,
/// and a different blob is refused. Key types and blobs are words (no
/// whitespace) and key types are not empty, as in SSH.
pub proof fn lemma_trust_on_first_use(
    e: Seq<(Seq<char>, Seq<char>)>,
    hp: Seq<char>,
    key_type: Seq<char>,
    key_blob: Seq<char>,
    other_type: Seq<char>,
    other_blob: Seq<char>,
)
    requires
        lookup(e, hp) is None,
        key_type.len() > 0,
        forall|i: int| 0 <= i < key_type.len() ==> !spec_is_whitespace(#[trigger] key_type[i]),
        forall|i: int| 0 <= i < key_blob.len() ==> !spec_is_whitespace(#[trigger] key_blob[i]),
    ensures
        ({
            let saved = lookup(e.push((hp, key_type + " "@ + key_blob)), hp);
            &&& saved == Some(key_type + " "@ + key_blob)
            &&& (blob_of(saved->0) == other_blob) <==> other_blob == key_blob
        }),
{
    lemma_lookup_push(e, hp, key_type + " "@ + key_blob, hp);
    lemma_blob_of_saved(key_type, key_blob);
}



/// Trust on first use, for the keys servers present: a server seen for the
/// first time is trusted and its key saved; from then on a key is accepted
/// exactly when its blob is the saved one, whatever its algorithm is
/// called, and the entries do not change. This holds for keys whose
/// algorithm name has no whitespace (every name but an unknown
/// `name@domain` with a space in it).
pub proof fn lemma_host_key_trust_on_first_use(
    e: Seq<(Seq<char>, Seq<char>)>,
    hp: Seq<char>,
    key: PublicKeyData,
    other: PublicKeyData,
)
    requires
        lookup(e, hp) is None,
        key.wf(),
        other.wf(),
        no_whitespace(key.algorithm@),
    ensures
        spec_verified(e, hp, key.algorithm@, key.blob@, true, e.push((hp, key.algorithm@ + " "@ + key.blob@))),
        forall|r: bool, e3: Seq<(Seq<char>, Seq<char>)>|
            #[trigger] spec_verified(
                e.push((hp, key.algorithm@ + " "@ + key.blob@)),
                hp,
                other.algorithm@,
                other.blob@,
                r,
                e3,
            ) ==> (r <==> other.blob@ == key.blob@) && e3 == e.push(
                (hp, key.algorithm@ + " "@ + key.blob@),
            ),
{
    lemma_trust_on_first_use(e, hp, key.algorithm@, key.blob@, other.algorithm@, other.blob@);
}

// ---------------------------------------------------------------------
// What a written file reads back as
// ---------------------------------------------------------------------

/// An entry that the file keeps as it is: the server is a word that does
/// not start a comment, and the key text holds a space, no line break, and
/// ends in a character that is no whitespace.
pub open spec fn storable_entry(k: Seq<char>, v: Seq<char>) -> bool {
    &&& k.len() > 0
    &&& k[0] != '#'
    &&& forall|i: int| 0 <= i < k.len() ==> !spec_is_whitespace(#[trigger] k[i])
    &&& v.len() > 0
    &&& !spec_is_whitespace(v.last())
    &&& forall|i: int| 0 <= i < v.len() ==> #[trigger] v[i] != '\n'
    &&& exists|i: int| 0 <= i < v.len() && #[trigger] v[i] == ' '
}

/// The line of an entry, without its line break.
spec fn entry_line(p: (Seq<char>, Seq<char>)) -> Seq<char> {
    p.0 + " "@ + p.1
}

/// The lines of a written file.
spec fn file_lines(e: Seq<(Seq<char>, Seq<char>)>) -> Seq<Seq<char>> {
    seq![known_hosts_header()] + e.map_values(|p: (Seq<char>, Seq<char>)| entry_line(p))
}

proof fn lemma_header_facts()
    ensures
        known_hosts_header().len() > 0,
        known_hosts_header()[0] == '#',
        !spec_is_whitespace(known_hosts_header().last()),
        forall|i: int|
            0 <= i < known_hosts_header().len() ==> #[trigger] known_hosts_header()[i] != '\n',
        spec_trim(known_hosts_header()) == known_hosts_header(),
        known_hosts_line(known_hosts_header()) is None,
        strip_cr(known_hosts_header()) == known_hosts_header(),
{
    reveal_strlit("# Starla known hosts - do not edit manually");
    let h = known_hosts_header();
    assert(h.last() == 'y');
    lemma_trim_unchanged(h);
}

proof fn lemma_entry_line(k: Seq<char>, v: Seq<char>)
    requires
        storable_entry(k, v),
    ensures
        known_hosts_line(entry_line((k, v))) == Some((k, v)),
        forall|i: int| 0 <= i < entry_line((k, v)).len() ==> #[trigger] entry_line((k, v))[i] != '\n',
        strip_cr(entry_line((k, v))) == entry_line((k, v)),
{
    reveal_strlit(" ");
    let l = entry_line((k, v));
    assert(l =~= k + " "@ + v);
    assert(l[0] == k[0]);
    assert(l.last() == v.last());
    lemma_trim_unchanged(l);
    assert forall|m: int| 0 <= m < k.len() implies #[trigger] l[m] != ' ' by {
        assert(l[m] == k[m]);
    }
    assert(l[k.len() as int] == ' ');
    lemma_find_from_first(l, ' ', 0, k.len() as int);
    assert(l.take(k.len() as int) =~= k);
    assert(l.skip(k.len() as int + 1) =~= v);
    let j = choose|j: int| 0 <= j < v.len() && #[trigger] v[j] == ' ';
    lemma_find_from_found(v, ' ', 0, j);
    assert forall|i: int| 0 <= i < l.len() implies #[trigger] l[i] != '\n' by {
        if i < k.len() {
            assert(l[i] == k[i]);
        } else if i > k.len() {
            assert(l[i] == v[i - k.len() - 1]);
        }
    }
}

proof fn lemma_file_lines_state(e: Seq<(Seq<char>, Seq<char>)>)
    requires
        forall|i: int| 0 <= i < e.len() ==> storable_entry(#[trigger] e[i].0, e[i].1),
    ensures
        lines_state(known_hosts_header() + entry_lines(e)) == (
            file_lines(e).drop_last(),
            file_lines(e).last(),
        ),
        strip_cr(file_lines(e).last()) == file_lines(e).last(),
    decreases e.len(),
{
    lemma_header_facts();
    let h = known_hosts_header();
    if e.len() == 0 {
        assert(h + entry_lines(e) =~= Seq::<char>::empty() + h);
        lemma_lines_state_append(Seq::<char>::empty(), h);
        assert(file_lines(e) =~= seq![h]);
        assert(Seq::<char>::empty() + h =~= h);
        assert(file_lines(e).drop_last() =~= Seq::<Seq<char>>::empty());
    } else {
        let d = e.drop_last();
        assert forall|i: int| 0 <= i < d.len() implies storable_entry(#[trigger] d[i].0, d[i].1) by {
            assert(d[i] == e[i]);
        }
        lemma_file_lines_state(d);
        let last = e.last();
        assert(storable_entry(e[e.len() - 1].0, e[e.len() - 1].1));
        lemma_entry_line(last.0, last.1);
        let p = h + entry_lines(d);
        assert(h + entry_lines(e) =~= p + "\n"@ + entry_line(last));
        lemma_lines_state_break(p, entry_line(last));
        assert(file_lines(e) =~= file_lines(d).push(entry_line(last)));
        assert(file_lines(d).drop_last().push(file_lines(d).last()) =~= file_lines(d));
    }
}

proof fn lemma_file_pairs(e: Seq<(Seq<char>, Seq<char>)>)
    requires
        forall|i: int| 0 <= i < e.len() ==> storable_entry(#[trigger] e[i].0, e[i].1),
    ensures
        known_hosts_pairs(file_lines(e)) == e,
    decreases e.len(),
{
    lemma_header_facts();
    if e.len() == 0 {
        let f = file_lines(e);
        assert(f =~= seq![known_hosts_header()]);
        assert(f.drop_last() =~= Seq::<Seq<char>>::empty());
        assert(known_hosts_pairs(f.drop_last()) =~= Seq::<(Seq<char>, Seq<char>)>::empty());
    } else {
        let d = e.drop_last();
        assert forall|i: int| 0 <= i < d.len() implies storable_entry(#[trigger] d[i].0, d[i].1) by {
            assert(d[i] == e[i]);
        }
        lemma_file_pairs(d);
        let last = e.last();
        assert(storable_entry(e[e.len() - 1].0, e[e.len() - 1].1));
        lemma_entry_line(last.0, last.1);
        assert(file_lines(e) =~= file_lines(d).push(entry_line(last)));
        assert(file_lines(e).drop_last() =~= file_lines(d));
        assert(d.push(last) =~= e);
    }
}

proof fn lemma_last_value_unique(e: Seq<(Seq<char>, Seq<char>)>, q: Seq<char>)
    requires
        keys_unique(e),
    ensures
        last_value(e, q) == lookup(e, q),
    decreases e.len(),
{
    if e.len() > 0 {
        let d = e.drop_last();
        assert(keys_unique(d)) by {
            assert forall|a: int, b: int| 0 <= a < b < d.len() implies d[a].0 != d[b].0 by {
                assert(d[a] == e[a]);
                assert(d[b] == e[b]);
            }
        }
        lemma_last_value_unique(d, q);
        let last = e.last();
        assert forall|i: int| 0 <= i < d.len() implies d[i].0 != last.0 by {
            assert(d[i] == e[i]);
        }
        lemma_lookup_none(d, last.0);
        assert(d.push(last) =~= e);
        lemma_lookup_push(d, last.0, last.1, q);
    }
}

/// A known hosts file reads back as it was written: parsing the text of
/// entries with distinct servers, each kept as it is by the file, gives
/// every server the key saved for it.
pub proof fn lemma_saved_file_reads_back(e: Seq<(Seq<char>, Seq<char>)>, q: Seq<char>)
    requires
        keys_unique(e),
        forall|i: int| 0 <= i < e.len() ==> storable_entry(#[trigger] e[i].0, e[i].1),
    ensures
        last_value(
            known_hosts_pairs(spec_lines(known_hosts_header() + entry_lines(e) + "\n"@)),
            q,
        ) == lookup(e, q),
{
    let body = known_hosts_header() + entry_lines(e);
    lemma_file_lines_state(e);
    lemma_lines_state_break(body, Seq::<char>::empty());
    assert(body + "\n"@ + Seq::<char>::empty() =~= body + "\n"@);
    assert(file_lines(e).drop_last().push(file_lines(e).last()) =~= file_lines(e));
    assert(spec_lines(body + "\n"@) == file_lines(e));
    lemma_file_pairs(e);
    lemma_last_value_unique(e, q);
}

} // verus!
