//! The Last.fm web-service API, without the HTTP: request signatures
//! (MD5 over the parameters in ascending key order followed by the shared
//! secret), the query of each request, and the interpretation of the JSON
//! answers, which the caller hands over as plain values.
use vstd::prelude::*;
use vstd::utf8::encode_utf8;
use crate::models::{
    LastfmSession, RecentTracksPage, ScrobbledTrack, Track, TrackView, ScrobbledTrackView, opt_view,
};
use crate::text::{
    chars_of, decimal, parse_i64, parse_i64_spec, parse_u32, parse_u32_spec, parse_u64,
    parse_u64_spec, push_char, push_str_chars, str_eq, u64_to_string,
};

verus! {

// ---------------------------------------------------------------------------
// MD5 and hex
// ---------------------------------------------------------------------------

/// The MD5 digest of `data`, as the `md5` crate computes it.
pub uninterp spec fn md5_digest(data: Seq<u8>) -> Seq<u8>;

/// Trusted: wraps `md5::compute`, which returns the 16-byte MD5 digest of
/// its input; the contract names that digest `md5_digest` of the input bytes.
#[verifier::external_body]
fn md5_compute(data: &[u8]) -> (d: [u8; 16])
    ensures
        d@ == md5_digest(data@),
{
    md5::compute(data).0
}

/// The lower-case hex digit for `n` (below 16).
pub open spec fn hex_digit(n: nat) -> char {
    seq!['0', '1', '2', '3', '4', '5', '6', '7', '8', '9', 'a', 'b', 'c', 'd', 'e', 'f'][n as int]
}

/// Two lower-case hex digits per byte, high nibble first: what `{:x}`
/// prints for an MD5 digest.
pub open spec fn hex_lower(bytes: Seq<u8>) -> Seq<char>
    decreases bytes.len(),
{
    if bytes.len() == 0 {
        Seq::empty()
    } else {
        seq![hex_digit((bytes[0] / 16) as nat), hex_digit((bytes[0] % 16) as nat)] + hex_lower(
            bytes.drop_first(),
        )
    }
}

/// Hex text is two characters per byte.
pub proof fn lemma_hex_lower_len(bytes: Seq<u8>)
    ensures
        hex_lower(bytes).len() == 2 * bytes.len(),
    decreases bytes.len(),
{
    if bytes.len() > 0 {
        lemma_hex_lower_len(bytes.drop_first());
    }
}

fn hex_char(n: u8) -> (c: char)
    requires
        n < 16,
    ensures
        c == hex_digit(n as nat),
{
    let table: [char; 16] = [
        '0', '1', '2', '3', '4', '5', '6', '7', '8', '9', 'a', 'b', 'c', 'd', 'e', 'f',
    ];
    assert(table@ =~= seq![
        '0', '1', '2', '3', '4', '5', '6', '7', '8', '9', 'a', 'b', 'c', 'd', 'e', 'f',
    ]);
    table[n as usize]
}

/// The lower-case hex text of `bytes`.
pub fn to_hex_lower(bytes: &[u8]) -> (s: String)
    ensures
        s@ == hex_lower(bytes@),
{
    let mut s = String::new();
    let mut i: usize = 0;
    assert(bytes@.skip(0) =~= bytes@);
    while i < bytes.len()
        invariant
            i <= bytes.len(),
            hex_lower(bytes@) == s@ + hex_lower(bytes@.skip(i as int)),
        decreases bytes.len() - i,
    {
        let b = bytes[i];
        let ghost before = s@;
        push_char(&mut s, hex_char(b / 16));
        push_char(&mut s, hex_char(b % 16));
        assert(bytes@.skip(i as int).drop_first() =~= bytes@.skip(i + 1));
        assert(s@ =~= before + seq![hex_digit((b / 16) as nat), hex_digit((b % 16) as nat)]);
        assert(before + (seq![hex_digit((b / 16) as nat), hex_digit((b % 16) as nat)] + hex_lower(
            bytes@.skip(i + 1),
        )) =~= s@ + hex_lower(bytes@.skip(i + 1)));
        i = i + 1;
    }
    assert(bytes@.skip(i as int) =~= Seq::<u8>::empty());
    assert(s@ + Seq::<char>::empty() =~= s@);
    s
}

// ---------------------------------------------------------------------------
// Ordered request parameters
// ---------------------------------------------------------------------------

/// Lexicographic `<` on texts by code point, the order of `str`.
pub open spec fn str_lt(a: Seq<char>, b: Seq<char>) -> bool
    decreases a.len(),
{
    if b.len() == 0 {
        false
    } else if a.len() == 0 {
        true
    } else if a[0] != b[0] {
        (a[0] as int) < (b[0] as int)
    } else {
        str_lt(a.drop_first(), b.drop_first())
    }
}

pub proof fn lemma_str_lt_irreflexive(a: Seq<char>)
    ensures
        !str_lt(a, a),
    decreases a.len(),
{
    if a.len() > 0 {
        lemma_str_lt_irreflexive(a.drop_first());
    }
}

pub proof fn lemma_str_lt_transitive(a: Seq<char>, b: Seq<char>, c: Seq<char>)
    requires
        str_lt(a, b),
        str_lt(b, c),
    ensures
        str_lt(a, c),
    decreases a.len(),
{
    if a.len() > 0 && b.len() > 0 && c.len() > 0 && a[0] == b[0] && b[0] == c[0] {
        lemma_str_lt_transitive(a.drop_first(), b.drop_first(), c.drop_first());
    }
}

pub proof fn lemma_str_lt_total(a: Seq<char>, b: Seq<char>)
    requires
        a != b,
    ensures
        str_lt(a, b) || str_lt(b, a),
    decreases a.len(),
{
    if a.len() > 0 && b.len() > 0 && a[0] == b[0] {
        if a.drop_first() == b.drop_first() {
            assert(a =~= seq![a[0]] + a.drop_first());
            assert(b =~= seq![b[0]] + b.drop_first());
        }
        lemma_str_lt_total(a.drop_first(), b.drop_first());
    } else if a.len() == 0 && b.len() == 0 {
        assert(a =~= b);
    } else if a.len() > 0 && b.len() > 0 {
        assert((a[0] as int) != (b[0] as int));
    }
}

pub proof fn lemma_str_lt_asymmetric(a: Seq<char>, b: Seq<char>)
    requires
        str_lt(a, b),
    ensures
        !str_lt(b, a),
{
    if str_lt(b, a) {
        lemma_str_lt_transitive(a, b, a);
        lemma_str_lt_irreflexive(a);
    }
}

/// `str_lt(a[i..], b[i..])`.
fn str_less_from(a: &Vec<char>, b: &Vec<char>, i: usize) -> (r: bool)
    requires
        i <= a.len(),
        i <= b.len(),
    ensures
        r == str_lt(a@.skip(i as int), b@.skip(i as int)),
    decreases a.len() - i,
{
    if i == b.len() {
        false
    } else if i == a.len() {
        true
    } else if a[i] != b[i] {
        a[i] < b[i]
    } else {
        assert(a@.skip(i as int).drop_first() =~= a@.skip(i + 1));
        assert(b@.skip(i as int).drop_first() =~= b@.skip(i + 1));
        str_less_from(a, b, i + 1)
    }
}

/// Whether `a` sorts before `b`.
pub fn str_less(a: &str, b: &str) -> (r: bool)
    ensures
        r == str_lt(a@, b@),
{
    let av = chars_of(a);
    let bv = chars_of(b);
    assert(av@.skip(0) =~= av@);
    assert(bv@.skip(0) =~= bv@);
    str_less_from(&av, &bv, 0)
}

/// Whether the keys of `s` ascend strictly.
pub open spec fn keys_ascending(s: Seq<(Seq<char>, Seq<char>)>) -> bool {
    forall|i: int, j: int| 0 <= i < j < s.len() ==> str_lt(#[trigger] s[i].0, #[trigger] s[j].0)
}

/// The value stored under `k` in `s`.
pub open spec fn lookup(s: Seq<(Seq<char>, Seq<char>)>, k: Seq<char>) -> Option<Seq<char>>
    decreases s.len(),
{
    if s.len() == 0 {
        None
    } else if s[0].0 == k {
        Some(s[0].1)
    } else {
        lookup(s.drop_first(), k)
    }
}

pub proof fn lemma_lookup_some(s: Seq<(Seq<char>, Seq<char>)>, k: Seq<char>)
    requires
        keys_ascending(s),
    ensures
        lookup(s, k) is Some <==> exists|i: int| 0 <= i < s.len() && s[i].0 == k,
        forall|i: int| 0 <= i < s.len() && s[i].0 == k ==> lookup(s, k) == Some(s[i].1),
    decreases s.len(),
{
    if s.len() > 0 {
        let t = s.drop_first();
        assert(keys_ascending(t)) by {
            assert forall|i: int, j: int| 0 <= i < j < t.len() implies str_lt(
                #[trigger] t[i].0,
                #[trigger] t[j].0,
            ) by {
                assert(t[i] == s[i + 1] && t[j] == s[j + 1]);
            }
        }
        lemma_lookup_some(t, k);
        assert forall|i: int| 0 <= i < s.len() && s[i].0 == k implies lookup(s, k) == Some(
            s[i].1,
        ) by {
            if i > 0 {
                assert(t[i - 1] == s[i]);
                if s[0].0 == k {
                    assert(str_lt(s[0].0, s[i].0));
                    lemma_str_lt_irreflexive(k);
                }
            }
        }
        if lookup(s, k) is Some && s[0].0 != k {
            let j = choose|j: int| 0 <= j < t.len() && t[j].0 == k;
            assert(s[j + 1].0 == k);
        }
        if exists|i: int| 0 <= i < s.len() && s[i].0 == k {
            let i = choose|i: int| 0 <= i < s.len() && s[i].0 == k;
            if i > 0 {
                assert(t[i - 1].0 == k);
            }
        }
    }
}

/// Two parameter lists sorted by key that store the same values under the
/// same keys are the same list.
pub proof fn lemma_ascending_unique(a: Seq<(Seq<char>, Seq<char>)>, b: Seq<(Seq<char>, Seq<char>)>)
    requires
        keys_ascending(a),
        keys_ascending(b),
        forall|k: Seq<char>| lookup(a, k) == lookup(b, k),
    ensures
        a == b,
    decreases a.len() + b.len(),
{
    lemma_lookup_some(a, Seq::empty());
    if a.len() == 0 && b.len() == 0 {
        assert(a =~= b);
    } else if a.len() == 0 {
        lemma_lookup_some(b, b[0].0);
        lemma_lookup_some(a, b[0].0);
    } else if b.len() == 0 {
        lemma_lookup_some(a, a[0].0);
        lemma_lookup_some(b, a[0].0);
    } else {
        lemma_lookup_some(a, a[0].0);
        lemma_lookup_some(b, a[0].0);
        lemma_lookup_some(a, b[0].0);
        lemma_lookup_some(b, b[0].0);
        // The smallest keys agree.
        let ka = a[0].0;
        let kb = b[0].0;
        if ka != kb {
            let j = choose|j: int| 0 <= j < b.len() && b[j].0 == ka;
            let i = choose|i: int| 0 <= i < a.len() && a[i].0 == kb;
            assert(j > 0 && i > 0);
            assert(str_lt(kb, ka));
            assert(str_lt(ka, kb));
            lemma_str_lt_asymmetric(ka, kb);
        }
        assert(a[0].1 == b[0].1);
        let ta = a.drop_first();
        let tb = b.drop_first();
        assert(keys_ascending(ta)) by {
            assert forall|i: int, j: int| 0 <= i < j < ta.len() implies str_lt(
                #[trigger] ta[i].0,
                #[trigger] ta[j].0,
            ) by {
                assert(ta[i] == a[i + 1] && ta[j] == a[j + 1]);
            }
        }
        assert(keys_ascending(tb)) by {
            assert forall|i: int, j: int| 0 <= i < j < tb.len() implies str_lt(
                #[trigger] tb[i].0,
                #[trigger] tb[j].0,
            ) by {
                assert(tb[i] == b[i + 1] && tb[j] == b[j + 1]);
            }
        }
        assert forall|k: Seq<char>| lookup(ta, k) == lookup(tb, k) by {
            if k != ka {
                assert(lookup(a, k) == lookup(ta, k));
                assert(lookup(b, k) == lookup(tb, k));
            } else {
                lemma_lookup_some(ta, k);
                lemma_lookup_some(tb, k);
                if lookup(ta, k) is Some {
                    let i = choose|i: int| 0 <= i < ta.len() && ta[i].0 == k;
                    assert(a[i + 1].0 == k);
                    assert(str_lt(a[0].0, a[i + 1].0));
                    lemma_str_lt_irreflexive(k);
                }
                if lookup(tb, k) is Some {
                    let i = choose|i: int| 0 <= i < tb.len() && tb[i].0 == k;
                    assert(b[i + 1].0 == k);
                    assert(str_lt(b[0].0, b[i + 1].0));
                    lemma_str_lt_irreflexive(k);
                }
            }
        }
        lemma_ascending_unique(ta, tb);
        assert(a =~= seq![a[0]] + ta);
        assert(b =~= seq![b[0]] + tb);
    }
}

/// The parameters of a request, kept in ascending key order, each key once:
/// what `BTreeMap` gives.
pub struct SignParams {
    entries: Vec<(String, String)>,
}

pub open spec fn entry_view(e: (String, String)) -> (Seq<char>, Seq<char>) {
    (e.0@, e.1@)
}

impl View for SignParams {
    type V = Seq<(Seq<char>, Seq<char>)>;

    closed spec fn view(&self) -> Seq<(Seq<char>, Seq<char>)> {
        self.entries@.map_values(|e: (String, String)| entry_view(e))
    }
}

impl SignParams {
    #[verifier::type_invariant]
    spec fn inv(&self) -> bool {
        keys_ascending(self@)
    }

    /// No parameters.
    pub fn new() -> (p: Self)
        ensures
            p@ == Seq::<(Seq<char>, Seq<char>)>::empty(),
            keys_ascending(p@),
    {
        let p = SignParams { entries: Vec::new() };
        assert(p@ =~= Seq::<(Seq<char>, Seq<char>)>::empty());
        p
    }

    /// Sets parameter `key` to `value`, replacing an earlier value.
    pub fn insert(&mut self, key: &str, value: String)
        ensures
            keys_ascending(final(self)@),
            forall|k: Seq<char>| #[trigger]
                lookup(final(self)@, k) == if k == key@ {
                    Some(value@)
                } else {
                    lookup(old(self)@, k)
                },
    {
        proof {
            use_type_invariant(&*self);
        }
        let ghost old_view = self@;
        let n = self.entries.len();
        let mut i: usize = 0;
        while i < n && str_less(self.entries[i].0.as_str(), key)
            invariant
                n == self.entries.len(),
                i <= n,
                self@ == old_view,
                keys_ascending(old_view),
                forall|j: int| 0 <= j < i ==> str_lt(#[trigger] old_view[j].0, key@),
            decreases n - i,
        {
            i = i + 1;
        }
        proof {
            lemma_lookup_some(old_view, key@);
        }
        if i < n && crate::text::str_eq(self.entries[i].0.as_str(), key) {
            let ghost e = old_view[i as int];
            let mut entries: Vec<(String, String)> = Vec::new();
            std::mem::swap(&mut entries, &mut self.entries);
            entries.set(i, (key.to_owned(), value));
            let ghost nv = entries@.map_values(|e: (String, String)| entry_view(e));
            assert(nv =~= old_view.update(i as int, (key@, value@)));
            proof {
                assert(keys_ascending(nv)) by {
                    assert forall|a: int, b: int| 0 <= a < b < nv.len() implies str_lt(
                        #[trigger] nv[a].0,
                        #[trigger] nv[b].0,
                    ) by {
                        assert(str_lt(old_view[a].0, old_view[b].0));
                    }
                }
                lemma_lookup_some(nv, key@);
                assert forall|k: Seq<char>| #[trigger]
                    lookup(nv, k) == if k == key@ {
                        Some(value@)
                    } else {
                        lookup(old_view, k)
                    } by {
                    lemma_lookup_some(nv, k);
                    lemma_lookup_some(old_view, k);
                    if k != key@ {
                        if lookup(old_view, k) is Some {
                            let j = choose|j: int| 0 <= j < old_view.len() && old_view[j].0 == k;
                            assert(nv[j] == old_view[j]);
                        }
                        if lookup(nv, k) is Some {
                            let j = choose|j: int| 0 <= j < nv.len() && nv[j].0 == k;
                            assert(nv[j] == old_view[j]);
                        }
                    } else {
                        assert(nv[i as int] == (key@, value@));
                    }
                }
            }
            self.entries = entries;
        } else {
            proof {
                if i < n {
                    lemma_str_lt_total(old_view[i as int].0, key@);
                }
            }
            let mut entries: Vec<(String, String)> = Vec::new();
            std::mem::swap(&mut entries, &mut self.entries);
            entries.insert(i, (key.to_owned(), value));
            let ghost nv = entries@.map_values(|e: (String, String)| entry_view(e));
            assert(nv =~= old_view.insert(i as int, (key@, value@)));
            proof {
                assert(keys_ascending(nv)) by {
                    assert forall|a: int, b: int| 0 <= a < b < nv.len() implies str_lt(
                        #[trigger] nv[a].0,
                        #[trigger] nv[b].0,
                    ) by {
                        if b < i {
                            assert(str_lt(old_view[a].0, old_view[b].0));
                        } else if b == i {
                            assert(nv[a] == old_view[a]);
                        } else if a < i {
                            assert(nv[b] == old_view[b - 1]);
                            assert(str_lt(old_view[a].0, key@));
                            assert(str_lt(key@, old_view[i as int].0));
                            if b - 1 > i {
                                assert(str_lt(old_view[i as int].0, old_view[b - 1].0));
                                lemma_str_lt_transitive(key@, old_view[i as int].0, old_view[b - 1].0);
                            }
                            lemma_str_lt_transitive(old_view[a].0, key@, old_view[b - 1].0);
                        } else if a == i {
                            assert(nv[b] == old_view[b - 1]);
                            assert(str_lt(key@, old_view[i as int].0));
                            if b - 1 > i {
                                assert(str_lt(old_view[i as int].0, old_view[b - 1].0));
                                lemma_str_lt_transitive(key@, old_view[i as int].0, old_view[b - 1].0);
                            }
                        } else {
                            assert(nv[a] == old_view[a - 1]);
                            assert(nv[b] == old_view[b - 1]);
                            assert(str_lt(old_view[a - 1].0, old_view[b - 1].0));
                        }
                    }
                }
                assert(nv[i as int] == (key@, value@));
                assert forall|k: Seq<char>| #[trigger]
                    lookup(nv, k) == if k == key@ {
                        Some(value@)
                    } else {
                        lookup(old_view, k)
                    } by {
                    lemma_lookup_some(nv, k);
                    lemma_lookup_some(old_view, k);
                    if k != key@ {
                        if lookup(old_view, k) is Some {
                            let j = choose|j: int| 0 <= j < old_view.len() && old_view[j].0 == k;
                            if j < i {
                                assert(nv[j] == old_view[j]);
                            } else {
                                assert(nv[j + 1] == old_view[j]);
                            }
                        }
                        if lookup(nv, k) is Some {
                            let j = choose|j: int| 0 <= j < nv.len() && nv[j].0 == k;
                            if j < i {
                                assert(nv[j] == old_view[j]);
                            } else {
                                assert(j != i);
                                assert(nv[j] == old_view[j - 1]);
                            }
                        }
                    }
                }
            }
            self.entries = entries;
        }
    }
}

/// The text that is signed: each key followed by its value, in ascending
/// key order, then the shared secret.
pub open spec fn sign_text(params: Seq<(Seq<char>, Seq<char>)>, secret: Seq<char>) -> Seq<char>
    decreases params.len(),
{
    if params.len() == 0 {
        secret
    } else {
        params[0].0 + params[0].1 + sign_text(params.drop_first(), secret)
    }
}

/// The signature of a request: the hex MD5 of the UTF-8 bytes of the signed
/// text.
pub open spec fn signature(params: Seq<(Seq<char>, Seq<char>)>, secret: Seq<char>) -> Seq<char> {
    hex_lower(md5_digest(encode_utf8(sign_text(params, secret))))
}

/// The signature does not depend on the order in which the parameters were
/// set: parameter lists that store the same values under the same keys sign
/// alike.
pub proof fn lemma_signature_order_independent(
    a: Seq<(Seq<char>, Seq<char>)>,
    b: Seq<(Seq<char>, Seq<char>)>,
    secret: Seq<char>,
)
    requires
        keys_ascending(a),
        keys_ascending(b),
        forall|k: Seq<char>| lookup(a, k) == lookup(b, k),
    ensures
        signature(a, secret) == signature(b, secret),
{
    lemma_ascending_unique(a, b);
}


impl SignParams {
    /// The signed text for `secret`: each key and its value in ascending key
    /// order, then the secret.
    pub fn signed_text(&self, secret: &str) -> (r: String)
        ensures
            r@ == sign_text(self@, secret@),
            keys_ascending(self@),
    {
        proof {
            use_type_invariant(self);
        }
        let ghost v = self@;
        let mut out = String::new();
        let mut i: usize = 0;
        assert(v.skip(0) =~= v);
        while i < self.entries.len()
            invariant
                v == self@,
                i <= self.entries.len(),
                v.len() == self.entries.len(),
                out@ + sign_text(v.skip(i as int), secret@) == sign_text(v, secret@),
            decreases self.entries.len() - i,
        {
            let ghost before = out@;
            push_str_chars(&mut out, self.entries[i].0.as_str());
            push_str_chars(&mut out, self.entries[i].1.as_str());
            assert(v[i as int] == entry_view(self.entries@[i as int]));
            assert(v.skip(i as int).drop_first() =~= v.skip(i + 1));
            assert(before + (v[i as int].0 + v[i as int].1 + sign_text(v.skip(i + 1), secret@))
                =~= out@ + sign_text(v.skip(i + 1), secret@));
            i = i + 1;
        }
        assert(v.skip(i as int) =~= Seq::<(Seq<char>, Seq<char>)>::empty());
        push_str_chars(&mut out, secret);
        out
    }
}

// ---------------------------------------------------------------------------
// The client
// ---------------------------------------------------------------------------

/// The credentials of the Last.fm API: the API key, sent with every request,
/// and the shared secret, which only enters signatures.
pub struct LastfmClient {
    pub api_key: String,
    api_secret: String,
}

/// The view of a query: its `(name, value)` pairs in order.
pub open spec fn query_view(q: Seq<(String, String)>) -> Seq<(Seq<char>, Seq<char>)> {
    q.map_values(|e: (String, String)| entry_view(e))
}

fn pair(k: &str, v: &str) -> (r: (String, String))
    ensures
        entry_view(r) == (k@, v@),
{
    (k.to_owned(), v.to_owned())
}

pub struct LastfmClientView {
    pub api_key: Seq<char>,
    pub secret: Seq<char>,
}

impl View for LastfmClient {
    type V = LastfmClientView;

    closed spec fn view(&self) -> LastfmClientView {
        LastfmClientView { api_key: self.api_key@, secret: self.api_secret@ }
    }
}

impl LastfmClient {

    /// A client with the given API key and shared secret.
    pub fn new(api_key: String, api_secret: String) -> (c: Self)
        ensures
            c@.api_key == api_key@,
            c@.secret == api_secret@,
    {
        LastfmClient { api_key, api_secret }
    }

    /// The signature of a request with `params`.
    pub fn sign(&self, params: &SignParams) -> (r: String)
        ensures
            r@ == signature(params@, self@.secret),
            r@.len() == 32,
            keys_ascending(params@),
    {
        let text = params.signed_text(self.api_secret.as_str());
        let bytes = text.as_str().as_bytes();
        let digest = md5_compute(bytes);
        let hex = to_hex_lower(digest.as_slice());
        proof {
            lemma_hex_lower_len(digest@);
        }
        hex
    }

    /// The query of `auth.getToken`, signed over `api_key` and `method`.
    pub fn token_query(&self) -> (q: Vec<(String, String)>)
        ensures
            query_view(q@) == seq![
                ("method"@, "auth.getToken"@),
                ("api_key"@, self@.api_key),
                ("api_sig"@, signature(
                    seq![("api_key"@, self@.api_key), ("method"@, "auth.getToken"@)],
                    self@.secret,
                )),
                ("format"@, "json"@),
            ],
    {
        let mut params = SignParams::new();
        let ghost p0 = params@;
        params.insert("api_key", self.api_key.clone());
        params.insert("method", "auth.getToken".to_owned());
        proof {
            reveal_strlit("api_key");
            reveal_strlit("method");
            let want = seq![("api_key"@, self@.api_key), ("method"@, "auth.getToken"@)];
            assert(str_lt("api_key"@, "method"@));
            assert(keys_ascending(want));
            assert forall|k: Seq<char>| lookup(params@, k) == lookup(want, k) by {
                let w1 = want.drop_first();
                let w2 = w1.drop_first();
                assert(w2.len() == 0);
                assert(lookup(w2, k) == None::<Seq<char>>);
                assert(lookup(p0, k) == None::<Seq<char>>);
                assert(lookup(w1, k) == if w1[0].0 == k {
                    Some(w1[0].1)
                } else {
                    lookup(w2, k)
                });
                assert(lookup(want, k) == if want[0].0 == k {
                    Some(want[0].1)
                } else {
                    lookup(w1, k)
                });
            }
            lemma_ascending_unique(params@, want);
        }
        let sig = self.sign(&params);
        let mut q: Vec<(String, String)> = Vec::new();
        q.push(pair("method", "auth.getToken"));
        q.push(pair("api_key", self.api_key.as_str()));
        q.push(pair("api_sig", sig.as_str()));
        q.push(pair("format", "json"));
        assert(query_view(q@) =~= seq![
            ("method"@, "auth.getToken"@),
            ("api_key"@, self@.api_key),
            ("api_sig"@, sig@),
            ("format"@, "json"@),
        ]);
        q
    }

    /// The query of `auth.getSession` for `token`, signed over `api_key`,
    /// `method` and `token`.
    pub fn session_query(&self, token: &str) -> (q: Vec<(String, String)>)
        ensures
            query_view(q@) == seq![
                ("method"@, "auth.getSession"@),
                ("api_key"@, self@.api_key),
                ("token"@, token@),
                ("api_sig"@, signature(
                    seq![
                        ("api_key"@, self@.api_key),
                        ("method"@, "auth.getSession"@),
                        ("token"@, token@),
                    ],
                    self@.secret,
                )),
                ("format"@, "json"@),
            ],
    {
        let mut params = SignParams::new();
        let ghost p0 = params@;
        params.insert("api_key", self.api_key.clone());
        params.insert("method", "auth.getSession".to_owned());
        params.insert("token", token.to_owned());
        proof {
            reveal_strlit("api_key");
            reveal_strlit("method");
            reveal_strlit("token");
            let want = seq![
                ("api_key"@, self@.api_key),
                ("method"@, "auth.getSession"@),
                ("token"@, token@),
            ];
            assert(str_lt("api_key"@, "method"@));
            assert(str_lt("method"@, "token"@));
            assert(str_lt("api_key"@, "token"@));
            assert(keys_ascending(want));
            assert forall|k: Seq<char>| lookup(params@, k) == lookup(want, k) by {
                let w1 = want.drop_first();
                let w2 = w1.drop_first();
                let w3 = w2.drop_first();
                assert(w3.len() == 0);
                assert(lookup(w3, k) == None::<Seq<char>>);
                assert(lookup(p0, k) == None::<Seq<char>>);
                assert(w2[0] == ("token"@, token@));
                assert(w1[0] == ("method"@, "auth.getSession"@));
                assert(lookup(w2, k) == if w2[0].0 == k {
                    Some(w2[0].1)
                } else {
                    lookup(w3, k)
                });
                assert(lookup(w1, k) == if w1[0].0 == k {
                    Some(w1[0].1)
                } else {
                    lookup(w2, k)
                });
                assert(lookup(want, k) == if want[0].0 == k {
                    Some(want[0].1)
                } else {
                    lookup(w1, k)
                });
            }
            lemma_ascending_unique(params@, want);
        }
        let sig = self.sign(&params);
        let mut q: Vec<(String, String)> = Vec::new();
        q.push(pair("method", "auth.getSession"));
        q.push(pair("api_key", self.api_key.as_str()));
        q.push(pair("token", token));
        q.push(pair("api_sig", sig.as_str()));
        q.push(pair("format", "json"));
        assert(query_view(q@) =~= seq![
            ("method"@, "auth.getSession"@),
            ("api_key"@, self@.api_key),
            ("token"@, token@),
            ("api_sig"@, sig@),
            ("format"@, "json"@),
        ]);
        q
    }

    /// The query of `user.getRecentTracks` that asks for the latest track of
    /// `username` (unsigned).
    pub fn now_playing_query(&self, username: &str) -> (q: Vec<(String, String)>)
        ensures
            query_view(q@) == seq![
                ("method"@, "user.getRecentTracks"@),
                ("user"@, username@),
                ("api_key"@, self@.api_key),
                ("limit"@, "1"@),
                ("format"@, "json"@),
            ],
    {
        let mut q: Vec<(String, String)> = Vec::new();
        q.push(pair("method", "user.getRecentTracks"));
        q.push(pair("user", username));
        q.push(pair("api_key", self.api_key.as_str()));
        q.push(pair("limit", "1"));
        q.push(pair("format", "json"));
        assert(query_view(q@) =~= seq![
            ("method"@, "user.getRecentTracks"@),
            ("user"@, username@),
            ("api_key"@, self@.api_key),
            ("limit"@, "1"@),
            ("format"@, "json"@),
        ]);
        q
    }

    /// The query of `user.getRecentTracks` for page `page` of the history of
    /// `username`, `limit` tracks per page (unsigned).
    pub fn recent_tracks_query(&self, username: &str, page: u32, limit: u32) -> (q: Vec<
        (String, String),
    >)
        ensures
            query_view(q@) == seq![
                ("method"@, "user.getRecentTracks"@),
                ("user"@, username@),
                ("api_key"@, self@.api_key),
                ("page"@, decimal(page as nat)),
                ("limit"@, decimal(limit as nat)),
                ("format"@, "json"@),
            ],
    {
        let page_text = u64_to_string(page as u64);
        let limit_text = u64_to_string(limit as u64);
        let mut q: Vec<(String, String)> = Vec::new();
        q.push(pair("method", "user.getRecentTracks"));
        q.push(pair("user", username));
        q.push(pair("api_key", self.api_key.as_str()));
        q.push(pair("page", page_text.as_str()));
        q.push(pair("limit", limit_text.as_str()));
        q.push(pair("format", "json"));
        assert(query_view(q@) =~= seq![
            ("method"@, "user.getRecentTracks"@),
            ("user"@, username@),
            ("api_key"@, self@.api_key),
            ("page"@, decimal(page as nat)),
            ("limit"@, decimal(limit as nat)),
            ("format"@, "json"@),
        ]);
        q
    }

    /// The page on which the user authorises `token` for this API key.
    pub fn auth_url(&self, token: &str) -> (r: String)
        ensures
            r@ == "https://www.last.fm/api/auth/?api_key="@ + self@.api_key + "&token="@ + token@,
    {
        let mut r = "https://www.last.fm/api/auth/?api_key=".to_owned();
        push_str_chars(&mut r, self.api_key.as_str());
        push_str_chars(&mut r, "&token=");
        push_str_chars(&mut r, token);
        r
    }
}


// ---------------------------------------------------------------------------
// Answers
// ---------------------------------------------------------------------------

/// The error of an answer that carries a `message`.
pub open spec fn api_error(message: Seq<char>) -> Seq<char> {
    "Last.fm error: "@ + message
}

fn api_error_text(message: &str) -> (r: String)
    ensures
        r@ == api_error(message@),
{
    let mut r = "Last.fm error: ".to_owned();
    push_str_chars(&mut r, message);
    r
}

/// The answer to `auth.getToken`: the token, given its `token` member
/// (where it is a string) and the JSON text of the answer.
pub fn token_from_response(token: Option<String>, body: &str) -> (r: Result<String, String>)
    ensures
        token is Some <==> r is Ok,
        r matches Ok(t) ==> t@ == token->0@,
        r matches Err(e) ==> e@ == "token not found: "@ + body@,
{
    match token {
        Some(t) => Ok(t),
        None => {
            let mut e = "token not found: ".to_owned();
            push_str_chars(&mut e, body);
            Err(e)
        },
    }
}

/// The answer to `auth.getSession`, given its `message`, `session.key` and
/// `session.name` members (where they are strings) and its JSON text: an
/// error message wins, then a missing key, then a missing name.
pub fn session_from_response(
    message: Option<String>,
    key: Option<String>,
    name: Option<String>,
    body: &str,
) -> (r: Result<LastfmSession, String>)
    ensures
        (message is None && key is Some && name is Some) <==> r is Ok,
        r matches Ok(s) ==> s.key@ == key->0@ && s.username@ == name->0@,
        message matches Some(m) ==> (r matches Err(e) && e@ == api_error(m@)),
        message is None && key is None ==> (r matches Err(e) && e@ == "session key not found: "@
            + body@),
        message is None && key is Some && name is None ==> (r matches Err(e) && e@
            == "session username not found: "@ + body@),
{
    if let Some(m) = message {
        return Err(api_error_text(m.as_str()));
    }
    let key = match key {
        Some(k) => k,
        None => {
            let mut e = "session key not found: ".to_owned();
            push_str_chars(&mut e, body);
            return Err(e);
        },
    };
    match name {
        Some(n) => Ok(LastfmSession { key, username: n }),
        None => {
            let mut e = "session username not found: ".to_owned();
            push_str_chars(&mut e, body);
            Err(e)
        },
    }
}

/// An element of a track's `image` array: its `size` and `#text` members,
/// where they are strings.
#[derive(Debug)]
pub struct RawImage {
    pub size: Option<String>,
    pub text: Option<String>,
}

/// The `@attr.nowplaying` member of a track.
#[derive(Debug)]
pub enum NowPlayingAttr {
    /// A string.
    Text(String),
    /// A boolean.
    Flag(bool),
    /// Missing, or of another JSON type.
    Other,
}

/// A track of `recenttracks.track`, as far as the answer is read: the
/// members that are strings, and the `image` array where there is one.
#[derive(Debug)]
pub struct RawTrack {
    pub nowplaying: NowPlayingAttr,
    /// `name`
    pub name: Option<String>,
    /// `artist.#text`
    pub artist: Option<String>,
    /// `album.#text`
    pub album: Option<String>,
    /// `image`, where it is an array.
    pub images: Option<Vec<RawImage>>,
    /// `url`
    pub url: Option<String>,
    /// `date.uts`
    pub date_uts: Option<String>,
}

/// `recenttracks.track`: an array, a single object, or anything else.
#[derive(Debug)]
pub enum RawTrackList {
    Many(Vec<RawTrack>),
    One(RawTrack),
    Missing,
}

/// The answer to `user.getRecentTracks`: `message` where it is a string,
/// the tracks, and the members of `recenttracks.@attr` that are strings.
#[derive(Debug)]
pub struct RecentTracksResponse {
    pub message: Option<String>,
    pub tracks: RawTrackList,
    pub page: Option<String>,
    pub per_page: Option<String>,
    pub total_pages: Option<String>,
    pub total: Option<String>,
}

/// The text of an optional string, empty where there is none.
pub open spec fn text_or_empty(o: Option<String>) -> Seq<char> {
    match o {
        Some(s) => s@,
        None => Seq::empty(),
    }
}

/// An optional string, dropped where it is empty.
pub open spec fn non_empty_text(o: Option<String>) -> Option<Seq<char>> {
    match o {
        Some(s) => if s@.len() > 0 {
            Some(s@)
        } else {
            None
        },
        None => None,
    }
}

/// Whether an image is the `extralarge` one.
pub open spec fn is_extralarge(img: RawImage) -> bool {
    img.size matches Some(s) && s@ == "extralarge"@
}

/// The index of the first `extralarge` image, or the length where there is
/// none.
pub open spec fn extralarge_index(imgs: Seq<RawImage>) -> nat
    decreases imgs.len(),
{
    if imgs.len() == 0 {
        0
    } else if is_extralarge(imgs[0]) {
        0
    } else {
        1 + extralarge_index(imgs.drop_first())
    }
}

/// The album art: the `#text` of the first `extralarge` image, or of the
/// last image where none is `extralarge`; `None` where it is missing or
/// empty.
pub open spec fn album_art(images: Option<Vec<RawImage>>) -> Option<Seq<char>> {
    match images {
        Some(v) => {
            let imgs = v@;
            let i = extralarge_index(imgs);
            if i < imgs.len() {
                non_empty_text(imgs[i as int].text)
            } else if imgs.len() > 0 {
                non_empty_text(imgs.last().text)
            } else {
                None
            }
        },
        None => None,
    }
}

fn non_empty_clone(o: &Option<String>) -> (r: Option<String>)
    ensures
        opt_view(r) == non_empty_text(*o),
{
    match o {
        Some(s) => {
            if chars_of(s.as_str()).len() > 0 {
                Some(s.clone())
            } else {
                None
            }
        },
        None => None,
    }
}

fn text_or_empty_clone(o: &Option<String>) -> (r: String)
    ensures
        r@ == text_or_empty(*o),
{
    match o {
        Some(s) => s.clone(),
        None => String::new(),
    }
}

fn image_is_extralarge(img: &RawImage) -> (r: bool)
    ensures
        r == is_extralarge(*img),
{
    proof {
        reveal_strlit("extralarge");
    }
    match &img.size {
        Some(s) => str_eq(s.as_str(), "extralarge"),
        None => false,
    }
}

fn album_art_of(images: &Option<Vec<RawImage>>) -> (r: Option<String>)
    ensures
        opt_view(r) == album_art(*images),
{
    match images {
        Some(v) => {
            let mut i: usize = 0;
            assert(v@.skip(0) =~= v@);
            while i < v.len() && !image_is_extralarge(&v[i])
                invariant
                    i <= v.len(),
                    extralarge_index(v@) == i + extralarge_index(v@.skip(i as int)),
                decreases v.len() - i,
            {
                assert(v@.skip(i as int).drop_first() =~= v@.skip(i + 1));
                i = i + 1;
            }
            if i < v.len() {
                non_empty_clone(&v[i].text)
            } else if v.len() > 0 {
                assert(v@.skip(i as int).len() == 0);
                non_empty_clone(&v[v.len() - 1].text)
            } else {
                None
            }
        },
        None => None,
    }
}

/// Whether the latest track counts as playing now: a string `@attr.nowplaying`
/// must be `true`, a boolean one must be true.
pub open spec fn playing_now(attr: NowPlayingAttr) -> bool {
    match attr {
        NowPlayingAttr::Text(s) => s@ == "true"@,
        NowPlayingAttr::Flag(b) => b,
        NowPlayingAttr::Other => false,
    }
}

/// Whether a history entry counts as playing now: only a string
/// `@attr.nowplaying` equal to `true` counts.
pub open spec fn listed_as_playing(attr: NowPlayingAttr) -> bool {
    attr matches NowPlayingAttr::Text(s) && s@ == "true"@
}

/// The track that a history entry describes.
pub open spec fn track_of(t: RawTrack) -> TrackView {
    TrackView {
        title: text_or_empty(t.name),
        artist: text_or_empty(t.artist),
        album: text_or_empty(t.album),
        album_art_url: album_art(t.images),
        url: non_empty_text(t.url),
        timestamp: None,
    }
}

/// The latest track of a `user.getRecentTracks` answer: the first of an
/// array (none if it is empty) or the single object.
pub open spec fn latest_track(list: RawTrackList) -> Option<RawTrack> {
    match list {
        RawTrackList::Many(v) => if v@.len() > 0 {
            Some(v@[0])
        } else {
            None
        },
        RawTrackList::One(t) => Some(t),
        RawTrackList::Missing => None,
    }
}

fn track_from_raw(t: &RawTrack) -> (r: Track)
    ensures
        r@ == track_of(*t),
{
    Track {
        title: text_or_empty_clone(&t.name),
        artist: text_or_empty_clone(&t.artist),
        album: text_or_empty_clone(&t.album),
        album_art_url: album_art_of(&t.images),
        url: non_empty_clone(&t.url),
        timestamp: None,
    }
}

fn attr_is_true_text(attr: &NowPlayingAttr) -> (r: bool)
    ensures
        r == listed_as_playing(*attr),
{
    proof {
        reveal_strlit("true");
    }
    match attr {
        NowPlayingAttr::Text(s) => str_eq(s.as_str(), "true"),
        _ => false,
    }
}

fn attr_is_playing(attr: &NowPlayingAttr) -> (r: bool)
    ensures
        r == playing_now(*attr),
{
    match attr {
        NowPlayingAttr::Flag(b) => *b,
        _ => attr_is_true_text(attr),
    }
}

/// The track that is playing now, read from a `user.getRecentTracks`
/// answer with limit 1: an error where the answer carries a `message`;
/// none where there is no latest track or it is not playing now; otherwise
/// its title, artist, album, album art and URL, without a timestamp.
pub fn now_playing_from_response(resp: &RecentTracksResponse) -> (r: Result<Option<Track>, String>)
    ensures
        resp.message matches Some(m) ==> (r matches Err(e) && e@ == api_error(m@)),
        resp.message is None ==> (r matches Ok(o) && match latest_track(resp.tracks) {
            Some(t) => if playing_now(t.nowplaying) {
                o matches Some(track) && track@ == track_of(t)
            } else {
                o is None
            },
            None => o is None,
        }),
{
    if let Some(m) = &resp.message {
        return Err(api_error_text(m.as_str()));
    }
    let t: &RawTrack = match &resp.tracks {
        RawTrackList::Many(v) => {
            if v.len() == 0 {
                return Ok(None);
            }
            &v[0]
        },
        RawTrackList::One(t) => t,
        RawTrackList::Missing => {
            return Ok(None);
        },
    };
    if !attr_is_playing(&t.nowplaying) {
        return Ok(None);
    }
    Ok(Some(track_from_raw(t)))
}

/// A history entry: a track that is playing now has no timestamp; another
/// has `date.uts` read as an `i64`, where it is one.
pub open spec fn scrobbled_of(t: RawTrack) -> ScrobbledTrackView {
    let playing = listed_as_playing(t.nowplaying);
    ScrobbledTrackView {
        title: text_or_empty(t.name),
        artist: text_or_empty(t.artist),
        album: text_or_empty(t.album),
        album_art_url: album_art(t.images),
        url: non_empty_text(t.url),
        timestamp: if playing {
            None
        } else {
            match t.date_uts {
                Some(s) => parse_i64_spec(s@),
                None => None,
            }
        },
        now_playing: playing,
    }
}

/// The entries of a history answer: every element of an array, or the
/// single object.
pub open spec fn listed_tracks(list: RawTrackList) -> Seq<RawTrack> {
    match list {
        RawTrackList::Many(v) => v@,
        RawTrackList::One(t) => seq![t],
        RawTrackList::Missing => Seq::empty(),
    }
}

/// Last.fm lists the track playing now first: the latest track of an array
/// answer is its first element, never a later one; a single object is the
/// latest track itself; an empty array, or no list, has none.
pub proof fn lemma_latest_track_is_first(v: Vec<RawTrack>, t: RawTrack)
    ensures
        v@.len() > 0 ==> latest_track(RawTrackList::Many(v)) == Some(v@[0]),
        v@.len() == 0 ==> latest_track(RawTrackList::Many(v)) is None,
        latest_track(RawTrackList::One(t)) == Some(t),
        latest_track(RawTrackList::Missing) is None,
{
}

/// The history lists every entry of an array answer, in order, and a
/// single object as one entry.
pub proof fn lemma_history_lists_every_entry(v: Vec<RawTrack>, t: RawTrack)
    ensures
        listed_tracks(RawTrackList::Many(v)) == v@,
        listed_tracks(RawTrackList::One(t)) == seq![t],
        listed_tracks(RawTrackList::Missing).len() == 0,
{
}

/// When a track counts as playing now: for the track read as playing, a
/// string `@attr.nowplaying` must be `"true"` and a boolean one true; in the
/// history only the string `"true"` counts. A missing attribute never does.
pub proof fn lemma_playing_now_attr(text: String, flag: bool)
    ensures
        playing_now(NowPlayingAttr::Text(text)) <==> text@ == "true"@,
        playing_now(NowPlayingAttr::Flag(flag)) <==> flag,
        !playing_now(NowPlayingAttr::Other),
        listed_as_playing(NowPlayingAttr::Text(text)) <==> text@ == "true"@,
        !listed_as_playing(NowPlayingAttr::Flag(flag)),
        !listed_as_playing(NowPlayingAttr::Other),
{
}

/// An entry is read field by field: the track keeps the entry's own title,
/// artist and album (empty where one is missing) and its non-empty URL,
/// and carries no time; a history entry shows the same title, artist,
/// album, art and URL, and has a time only where it is not playing now,
/// read from `date.uts`.
pub proof fn lemma_entry_fields(t: RawTrack)
    ensures
        t.name matches Some(n) ==> track_of(t).title == n@,
        t.artist matches Some(a) ==> track_of(t).artist == a@,
        t.album matches Some(a) ==> track_of(t).album == a@,
        t.name is None ==> track_of(t).title.len() == 0,
        t.artist is None ==> track_of(t).artist.len() == 0,
        t.album is None ==> track_of(t).album.len() == 0,
        t.url matches Some(u) ==> (u@.len() > 0 ==> track_of(t).url == Some(u@)),
        !(t.url matches Some(u) && u@.len() > 0) ==> track_of(t).url is None,
        track_of(t).album_art_url == album_art(t.images),
        track_of(t).timestamp is None,
        scrobbled_of(t).title == track_of(t).title,
        scrobbled_of(t).artist == track_of(t).artist,
        scrobbled_of(t).album == track_of(t).album,
        scrobbled_of(t).album_art_url == track_of(t).album_art_url,
        scrobbled_of(t).url == track_of(t).url,
        scrobbled_of(t).now_playing == listed_as_playing(t.nowplaying),
        scrobbled_of(t).now_playing ==> scrobbled_of(t).timestamp is None,
        !scrobbled_of(t).now_playing ==> scrobbled_of(t).timestamp == match t.date_uts {
            Some(d) => parse_i64_spec(d@),
            None => None,
        },
{
}

/// The image taken as album art is chosen by its `size` being exactly
/// `"extralarge"`; an image without a size is never it.
pub proof fn lemma_extralarge_by_size(size: String, text: Option<String>)
    ensures
        is_extralarge(RawImage { size: Some(size), text }) <==> size@ == "extralarge"@,
        !is_extralarge(RawImage { size: None, text }),
{
}

/// The position of the first `extralarge` image: within the list, every
/// image before it is another size, and the one there is `extralarge`.
pub proof fn lemma_extralarge_index(imgs: Seq<RawImage>)
    ensures
        extralarge_index(imgs) <= imgs.len(),
        extralarge_index(imgs) < imgs.len() ==> is_extralarge(imgs[extralarge_index(imgs) as int]),
        forall|j: int| 0 <= j < extralarge_index(imgs) ==> !is_extralarge(#[trigger] imgs[j]),
    decreases imgs.len(),
{
    if imgs.len() > 0 && !is_extralarge(imgs[0]) {
        let rest = imgs.drop_first();
        lemma_extralarge_index(rest);
        assert forall|j: int| 0 <= j < extralarge_index(imgs) implies !is_extralarge(
            #[trigger] imgs[j],
        ) by {
            if j > 0 {
                assert(imgs[j] == rest[j - 1]);
            }
        }
    }
}

/// The album art is the text of the first `extralarge` image; where no
/// image is `extralarge`, that of the last image; an empty text gives none,
/// and so does an answer without images.
pub proof fn lemma_album_art_choice(v: Vec<RawImage>, i: int)
    ensures
        0 <= i < v@.len() && is_extralarge(v@[i]) && (forall|j: int|
            0 <= j < i ==> !is_extralarge(#[trigger] v@[j])) ==> album_art(Some(v))
            == non_empty_text(v@[i].text),
        v@.len() > 0 && (forall|j: int| 0 <= j < v@.len() ==> !is_extralarge(#[trigger] v@[j]))
            ==> album_art(Some(v)) == non_empty_text(v@.last().text),
        v@.len() == 0 ==> album_art(Some(v)) is None,
        album_art(None) is None,
        album_art(Some(v)) matches Some(u) ==> u.len() > 0,
{
    lemma_extralarge_index(v@);
    let k = extralarge_index(v@);
    if 0 <= i < v@.len() && is_extralarge(v@[i]) && (forall|j: int|
        0 <= j < i ==> !is_extralarge(#[trigger] v@[j])) {
        if k < i {
            assert(!is_extralarge(v@[k as int]));
        }
        if k > i {
            assert(!is_extralarge(v@[i]));
        }
    }
    if v@.len() > 0 && (forall|j: int| 0 <= j < v@.len() ==> !is_extralarge(#[trigger] v@[j])) {
        if k < v@.len() {
            assert(!is_extralarge(v@[k as int]));
        }
    }
}

/// An optional string read as a `u32`, 0 where it is missing or not a
/// number.
pub open spec fn u32_or_zero(o: Option<String>) -> u32 {
    match o {
        Some(s) => match parse_u32_spec(s@) {
            Some(n) => n,
            None => 0,
        },
        None => 0,
    }
}

/// An optional string read as a `u64`, 0 where it is missing or not a
/// number.
pub open spec fn u64_or_zero(o: Option<String>) -> u64 {
    match o {
        Some(s) => match parse_u64_spec(s@) {
            Some(n) => n,
            None => 0,
        },
        None => 0,
    }
}

fn read_u32(o: &Option<String>) -> (r: u32)
    ensures
        r == u32_or_zero(*o),
{
    match o {
        Some(s) => match parse_u32(s.as_str()) {
            Some(n) => n,
            None => 0,
        },
        None => 0,
    }
}

fn read_u64(o: &Option<String>) -> (r: u64)
    ensures
        r == u64_or_zero(*o),
{
    match o {
        Some(s) => match parse_u64(s.as_str()) {
            Some(n) => n,
            None => 0,
        },
        None => 0,
    }
}

/// Whether an answer's `total` reads as the number 0: an empty history.
pub open spec fn reads_zero(o: Option<String>) -> bool {
    o matches Some(s) && parse_u64_spec(s@) == Some(0u64)
}

fn is_zero_total(o: &Option<String>) -> (r: bool)
    ensures
        r == reads_zero(*o),
{
    match o {
        Some(s) => match parse_u64(s.as_str()) {
            Some(n) => n == 0,
            None => false,
        },
        None => false,
    }
}

fn scrobbled_from_raw(t: &RawTrack) -> (r: ScrobbledTrack)
    ensures
        r@ == scrobbled_of(*t),
{
    let now_playing = attr_is_true_text(&t.nowplaying);
    let timestamp = if now_playing {
        None
    } else {
        match &t.date_uts {
            Some(s) => parse_i64(s.as_str()),
            None => None,
        }
    };
    ScrobbledTrack {
        title: text_or_empty_clone(&t.name),
        artist: text_or_empty_clone(&t.artist),
        album: text_or_empty_clone(&t.album),
        album_art_url: album_art_of(&t.images),
        url: non_empty_clone(&t.url),
        timestamp,
        now_playing,
    }
}

/// One page of the listening history, read from a `user.getRecentTracks`
/// answer: an error where it carries a `message`; otherwise the page numbers
/// of `@attr`, each 0 where it is missing or not a number, and one entry per
/// listed track, in order, except that an answer whose `total` reads 0 is an
/// empty history and lists none.
pub fn recent_tracks_from_response(resp: &RecentTracksResponse) -> (r: Result<
    RecentTracksPage,
    String,
>)
    ensures
        resp.message matches Some(m) ==> (r matches Err(e) && e@ == api_error(m@)),
        resp.message is None ==> (r matches Ok(p) && {
            &&& p.page == u32_or_zero(resp.page)
            &&& p.per_page == u32_or_zero(resp.per_page)
            &&& p.total_pages == u32_or_zero(resp.total_pages)
            &&& p.total_tracks == u64_or_zero(resp.total)
            &&& reads_zero(resp.total) ==> p.tracks@.len() == 0
            &&& !reads_zero(resp.total) ==> p.tracks@.len() == listed_tracks(resp.tracks).len()
            &&& !reads_zero(resp.total) ==> forall|i: int|
                0 <= i < p.tracks@.len() ==> #[trigger] p.tracks@[i]@ == scrobbled_of(
                    listed_tracks(resp.tracks)[i],
                )
        }),
{
    if let Some(m) = &resp.message {
        return Err(api_error_text(m.as_str()));
    }
    let mut tracks: Vec<ScrobbledTrack> = Vec::new();
    if is_zero_total(&resp.total) {
        return Ok(
            RecentTracksPage {
                tracks,
                page: read_u32(&resp.page),
                per_page: read_u32(&resp.per_page),
                total_pages: read_u32(&resp.total_pages),
                total_tracks: 0,
            },
        );
    }
    match &resp.tracks {
        RawTrackList::Many(v) => {
            let mut i: usize = 0;
            while i < v.len()
                invariant
                    i <= v.len(),
                    listed_tracks(resp.tracks) == v@,
                    tracks@.len() == i,
                    forall|j: int| 0 <= j < i ==> #[trigger] tracks@[j]@ == scrobbled_of(v@[j]),
                decreases v.len() - i,
            {
                tracks.push(scrobbled_from_raw(&v[i]));
                i = i + 1;
            }
        },
        RawTrackList::One(t) => {
            tracks.push(scrobbled_from_raw(t));
        },
        RawTrackList::Missing => {},
    }
    Ok(
        RecentTracksPage {
            tracks,
            page: read_u32(&resp.page),
            per_page: read_u32(&resp.per_page),
            total_pages: read_u32(&resp.total_pages),
            total_tracks: read_u64(&resp.total),
        },
    )
}

} // verus!
