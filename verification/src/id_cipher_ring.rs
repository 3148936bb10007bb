//! A set of subject ciphers, each under its own cipher id, one of them active.
use vstd::prelude::*;

use crate::id_cipher::{cipher_keys_for, CipherKeys, TokenIdCipher};
use crate::keyed::{
    entry_views, lemma_map_of_entries_dom, lemma_map_of_entries_last, map_of_entries, KeyTable,
};
use crate::text::{split, split_char, split_once, split_once_char};

verus! {

/// Why a `cid:hexkey,...` configuration text could not be read.
#[derive(Debug, Clone, Copy, PartialEq, Eq, Structural)]
pub enum RingConfigError {
    /// An entry has no `:` between its cipher id and its key.
    MalformedEntry,
    /// A key is not hexadecimal text.
    InvalidHex,
    /// A key does not decode to exactly 32 bytes.
    WrongKeyLength,
}

/// The value of a hexadecimal digit, or -1 for any other character.
pub open spec fn hex_digit_value(c: char) -> int {
    if '0' <= c && c <= '9' {
        c as int - '0' as int
    } else if 'a' <= c && c <= 'f' {
        c as int - 'a' as int + 10
    } else if 'A' <= c && c <= 'F' {
        c as int - 'A' as int + 10
    } else {
        -1
    }
}

/// Text that `hex::decode` accepts: an even number of hexadecimal digits, of either case.
pub open spec fn is_hex_text(s: Seq<char>) -> bool {
    s.len() % 2 == 0 && forall|i: int| 0 <= i < s.len() ==> hex_digit_value(#[trigger] s[i]) >= 0
}

/// The bytes that hexadecimal text stands for, two digits each, high digit first.
pub open spec fn hex_bytes(s: Seq<char>) -> Seq<u8> {
    Seq::new(
        (s.len() / 2) as nat,
        |i: int| (hex_digit_value(s[2 * i]) * 16 + hex_digit_value(s[2 * i + 1])) as u8,
    )
}

/// Calls `hex::decode`. The contract claims what the `hex` crate documents: text of an even
/// number of hexadecimal digits, upper or lower case, decodes two digits to a byte, high digit
/// first; any other text is refused.
#[verifier::external_body]
fn hex_decode(text: &str) -> (r: Option<Vec<u8>>)
    ensures
        r is Some <==> is_hex_text(text@),
        r is Some ==> r->Some_0@ == hex_bytes(text@),
{
    hex::decode(text).ok()
}

/// One `cid:hexkey` entry: the cipher id before the first `:`, and the 32-byte key after it.
pub open spec fn parse_entry(entry: Seq<char>) -> Result<(Seq<char>, Seq<u8>), RingConfigError> {
    match split_once_char(entry, ':') {
        None => Err(RingConfigError::MalformedEntry),
        Some((cid, hex)) => if !is_hex_text(hex) {
            Err(RingConfigError::InvalidHex)
        } else if hex_bytes(hex).len() != 32 {
            Err(RingConfigError::WrongKeyLength)
        } else {
            Ok((cid, hex_bytes(hex)))
        },
    }
}

/// The entries read in order; the first entry that cannot be read decides the error.
pub open spec fn parse_entries(pieces: Seq<Seq<char>>) -> Result<Seq<(Seq<char>, Seq<u8>)>, RingConfigError>
    decreases pieces.len(),
{
    if pieces.len() == 0 {
        Ok(seq![])
    } else {
        match parse_entries(pieces.drop_last()) {
            Err(e) => Err(e),
            Ok(done) => match parse_entry(pieces.last()) {
                Err(e) => Err(e),
                Ok(p) => Ok(done.push(p)),
            },
        }
    }
}

/// The cipher keys that a sequence of `(cipher id, key)` entries stands for.
pub open spec fn cipher_entries(entries: Seq<(Seq<char>, Seq<u8>)>) -> Seq<(Seq<char>, CipherKeys)> {
    entries.map_values(|p: (Seq<char>, Seq<u8>)| (p.0, cipher_keys_for(p.1)))
}

/// The mathematical content of a [`TokenIdCipherRing`].
pub struct CipherRingView {
    pub active_cid: Seq<char>,
    pub ciphers: Map<Seq<char>, CipherKeys>,
}

/// The ring that a configuration text describes: comma-separated `cid:hexkey` entries, the first
/// entry's cipher id active, a later entry for the same id replacing an earlier one.
pub open spec fn ring_config(raw: Seq<char>) -> Result<CipherRingView, RingConfigError> {
    match parse_entries(split_char(raw, ',')) {
        Err(e) => Err(e),
        Ok(entries) => Ok(
            CipherRingView {
                active_cid: entries[0].0,
                ciphers: map_of_entries(cipher_entries(entries)),
            },
        ),
    }
}

/// The view of the `(cipher id, key)` pairs handed to [`TokenIdCipherRing::new`].
pub open spec fn key_entries(keys: Seq<(String, [u8; 32])>) -> Seq<(Seq<char>, Seq<u8>)> {
    keys.map_values(|p: (String, [u8; 32])| (p.0@, p.1@))
}

pub proof fn lemma_split_nonempty(s: Seq<char>, c: char)
    ensures
        split_char(s, c).len() >= 1,
    decreases s.len(),
{
    match crate::text::first_index_of(s, c) {
        Some(i) => if 0 <= i < s.len() {
            lemma_split_nonempty(s.skip(i + 1), c);
        },
        None => {},
    }
}

pub proof fn lemma_parse_entries_len(pieces: Seq<Seq<char>>)
    ensures
        parse_entries(pieces) is Ok ==> parse_entries(pieces)->Ok_0.len() == pieces.len(),
    decreases pieces.len(),
{
    if pieces.len() > 0 {
        lemma_parse_entries_len(pieces.drop_last());
    }
}

pub proof fn lemma_parse_entries_error_stays(pieces: Seq<Seq<char>>, k: int)
    requires
        0 <= k <= pieces.len(),
        parse_entries(pieces.take(k)) is Err,
    ensures
        parse_entries(pieces) == parse_entries(pieces.take(k)),
    decreases pieces.len() - k,
{
    if k < pieces.len() {
        assert(pieces.take(k + 1).drop_last() =~= pieces.take(k));
        lemma_parse_entries_error_stays(pieces, k + 1);
    } else {
        assert(pieces.take(k) =~= pieces);
    }
}

/// Subject ciphers by cipher id, one of them active for issuing.
pub struct TokenIdCipherRing {
    active_cid: String,
    ciphers: KeyTable<TokenIdCipher>,
}

impl View for TokenIdCipherRing {
    type V = CipherRingView;

    closed spec fn view(&self) -> CipherRingView {
        CipherRingView { active_cid: self.active_cid@, ciphers: self.ciphers@ }
    }
}

impl TokenIdCipherRing {
    /// A ring with a cipher for each `(cipher id, key)` pair; a later pair for the same id
    /// replaces an earlier one.
    pub fn new(active_cid: String, keys: Vec<(String, [u8; 32])>) -> (r: Self)
        ensures
            r@ == (CipherRingView {
                active_cid: active_cid@,
                ciphers: map_of_entries(cipher_entries(key_entries(keys@))),
            }),
            forall|i: int|
                0 <= i < keys@.len() && (forall|j: int| i < j < keys@.len() ==> keys@[j].0@ != keys@[i].0@)
                    ==> r@.ciphers.dom().contains(#[trigger] keys@[i].0@) && r@.ciphers[keys@[i].0@]
                    == cipher_keys_for(keys@[i].1@),
    {
        proof {
            assert forall|i: int|
                0 <= i < keys@.len() && (forall|j: int| i < j < keys@.len() ==> keys@[j].0@ != keys@[i].0@)
                    implies map_of_entries(cipher_entries(key_entries(keys@))).dom().contains(
                    #[trigger] keys@[i].0@,
                ) && map_of_entries(cipher_entries(key_entries(keys@)))[keys@[i].0@] == cipher_keys_for(
                    keys@[i].1@,
                ) by {
                lemma_ring_keys_last(keys@, i);
            }
        }
        let mut ciphers: Vec<(String, TokenIdCipher)> = Vec::new();
        let n = keys.len();
        let mut i: usize = 0;
        while i < n
            invariant
                n == keys@.len(),
                i <= n,
                entry_views(ciphers@) == cipher_entries(key_entries(keys@)).take(i as int),
            decreases n - i,
        {
            let ghost before = entry_views(ciphers@);
            let cid = keys[i].0.clone();
            let cipher = TokenIdCipher::new(keys[i].1);
            ciphers.push((cid, cipher));
            proof {
                let target = cipher_entries(key_entries(keys@));
                assert(key_entries(keys@)[i as int] == (keys@[i as int].0@, keys@[i as int].1@));
                assert(target[i as int] == (cid@, cipher@));
                assert(entry_views(ciphers@) =~= before.push((cid@, cipher@)));
                assert(target.take(i + 1) =~= target.take(i as int).push(target[i as int]));
            }
            i = i + 1;
        }
        assert(cipher_entries(key_entries(keys@)).take(n as int) =~= cipher_entries(
            key_entries(keys@),
        ));
        TokenIdCipherRing { active_cid, ciphers: KeyTable::from_pairs(ciphers) }
    }

    /// The id of the cipher that issues new subjects.
    pub fn active_cid(&self) -> (r: &str)
        ensures
            r@ == self@.active_cid,
    {
        self.active_cid.as_str()
    }

    /// The cipher that issues new subjects; the active id must name a cipher of the ring.
    pub fn active_cipher(&self) -> (r: &TokenIdCipher)
        requires
            self@.ciphers.dom().contains(self@.active_cid),
        ensures
            r@ == self@.ciphers[self@.active_cid],
    {
        match self.ciphers.get(self.active_cid.as_str()) {
            Some(c) => c,
            None => {
                proof {
                    assert(false);
                }
                self.ciphers.get(self.active_cid.as_str()).unwrap()
            },
        }
    }

    /// The cipher with id `cid`, if the ring has one.
    pub fn cipher_for(&self, cid: &str) -> (r: Option<&TokenIdCipher>)
        ensures
            r is Some ==> self@.ciphers.dom().contains(cid@) && r->Some_0@ == self@.ciphers[cid@],
            r is None ==> !self@.ciphers.dom().contains(cid@),
    {
        self.ciphers.get(cid)
    }

    /// Reads a ring from its configuration text: comma-separated `cid:hexkey` entries, each key
    /// 64 hexadecimal digits, the first entry active.
    pub fn try_parse(raw: &str) -> (r: Result<Self, RingConfigError>)
        ensures
            r is Ok ==> ring_config(raw@) == Ok::<CipherRingView, RingConfigError>(r->Ok_0@),
            r is Err ==> ring_config(raw@) == Err::<CipherRingView, RingConfigError>(r->Err_0),
    {
        let pieces = split(raw, ',');
        let ghost pv = pieces@.map_values(|x: String| x@);
        proof {
            lemma_split_nonempty(raw@, ',');
            lemma_parse_entries_len(pv);
        }
        let mut keys: Vec<(String, [u8; 32])> = Vec::new();
        assert(pv.take(0) =~= Seq::<Seq<char>>::empty());
        assert(key_entries(keys@) =~= Seq::<(Seq<char>, Seq<u8>)>::empty());
        let n = pieces.len();
        let mut i: usize = 0;
        while i < n
            invariant
                n == pieces@.len(),
                pv == pieces@.map_values(|x: String| x@),
                pv == split_char(raw@, ','),
                i <= n,
                parse_entries(pv.take(i as int)) == Ok::<Seq<(Seq<char>, Seq<u8>)>, RingConfigError>(
                    key_entries(keys@),
                ),
            decreases n - i,
        {
            assert(pv.take(i + 1).drop_last() =~= pv.take(i as int));
            assert(pv.take(i + 1).last() == pieces@[i as int]@);
            let (cid, hex_key) = match split_once(pieces[i].as_str(), ':') {
                Some(p) => p,
                None => {
                    proof {
                        lemma_parse_entries_error_stays(pv, i + 1);
                    }
                    return Err(RingConfigError::MalformedEntry);
                },
            };
            let bytes = match hex_decode(hex_key.as_str()) {
                Some(b) => b,
                None => {
                    proof {
                        lemma_parse_entries_error_stays(pv, i + 1);
                    }
                    return Err(RingConfigError::InvalidHex);
                },
            };
            if bytes.len() != 32 {
                proof {
                    lemma_parse_entries_error_stays(pv, i + 1);
                }
                return Err(RingConfigError::WrongKeyLength);
            }
            let key = crate::bytes::array_32_at(bytes.as_slice(), 0);
            assert(key@ =~= bytes@);
            keys.push((cid, key));
            i = i + 1;
            assert(key_entries(keys@) =~= parse_entries(pv.take(i as int))->Ok_0);
        }
        assert(pv.take(n as int) =~= pv);
        let active = keys[0].0.clone();
        assert(active@ == key_entries(keys@)[0].0);
        Ok(Self::new(active, keys))
    }

    /// Reads a ring from its configuration text, which must describe one (see
    /// [`Self::try_parse`]).
    pub fn parse(raw: &str) -> (r: Self)
        requires
            ring_config(raw@) is Ok,
        ensures
            ring_config(raw@) == Ok::<CipherRingView, RingConfigError>(r@),
    {
        match Self::try_parse(raw) {
            Ok(r) => r,
            Err(_) => {
                proof {
                    assert(false);
                }
                Self::new(String::new(), Vec::new())
            },
        }
    }
}

/// A configuration's active cipher id is its first entry's id; the ring's cipher ids are exactly
/// its entries' ids, and each id has the cipher of its last entry's key.
pub proof fn lemma_ring_config_entries(raw: Seq<char>)
    requires
        ring_config(raw) is Ok,
    ensures
        ({
            let entries = parse_entries(split_char(raw, ','))->Ok_0;
            let ring = ring_config(raw)->Ok_0;
            &&& entries.len() >= 1
            &&& ring.active_cid == entries[0].0
            &&& ring.ciphers.dom().contains(ring.active_cid)
            &&& forall|cid: Seq<char>|
                #[trigger] ring.ciphers.dom().contains(cid) <==> exists|i: int|
                    0 <= i < entries.len() && #[trigger] entries[i].0 == cid
            &&& forall|i: int|
                0 <= i < entries.len() && (forall|j: int| i < j < entries.len() ==> entries[j].0
                    != entries[i].0) ==> ring.ciphers[#[trigger] entries[i].0] == cipher_keys_for(
                    entries[i].1,
                )
        }),
{
    let pieces = split_char(raw, ',');
    lemma_split_nonempty(raw, ',');
    lemma_parse_entries_len(pieces);
    let entries = parse_entries(pieces)->Ok_0;
    let ces = cipher_entries(entries);
    let ring = ring_config(raw)->Ok_0;
    assert(ces[0].0 == entries[0].0);
    lemma_map_of_entries_dom(ces, entries[0].0);
    assert forall|cid: Seq<char>| #[trigger] ring.ciphers.dom().contains(cid) <==> exists|i: int|
        0 <= i < entries.len() && #[trigger] entries[i].0 == cid by {
        lemma_map_of_entries_dom(ces, cid);
        if exists|i: int| 0 <= i < entries.len() && #[trigger] entries[i].0 == cid {
            let i = choose|i: int| 0 <= i < entries.len() && #[trigger] entries[i].0 == cid;
            assert(ces[i].0 == cid);
        }
        if exists|i: int| 0 <= i < ces.len() && #[trigger] ces[i].0 == cid {
            let i = choose|i: int| 0 <= i < ces.len() && #[trigger] ces[i].0 == cid;
            assert(entries[i].0 == cid);
        }
    }
    assert forall|i: int|
        0 <= i < entries.len() && (forall|j: int| i < j < entries.len() ==> entries[j].0
            != entries[i].0) implies ring.ciphers[#[trigger] entries[i].0] == cipher_keys_for(
        entries[i].1,
    ) by {
        assert forall|j: int| i < j < ces.len() implies ces[j].0 != ces[i].0 by {
            assert(ces[j].0 == entries[j].0);
        }
        lemma_map_of_entries_last(ces, i);
    }
}

/// In a ring built from `(cipher id, key)` pairs, the id of the last pair with that id holds the
/// cipher of that pair's key bytes, as given.
pub proof fn lemma_ring_keys_last(keys: Seq<(String, [u8; 32])>, i: int)
    requires
        0 <= i < keys.len(),
        forall|j: int| i < j < keys.len() ==> keys[j].0@ != keys[i].0@,
    ensures
        map_of_entries(cipher_entries(key_entries(keys))).dom().contains(keys[i].0@),
        map_of_entries(cipher_entries(key_entries(keys)))[keys[i].0@] == cipher_keys_for(keys[i].1@),
{
    let es = cipher_entries(key_entries(keys));
    assert forall|j: int| i < j < es.len() implies es[j].0 != es[i].0 by {
        assert(es[j].0 == keys[j].0@);
    }
    assert(es[i] == (keys[i].0@, cipher_keys_for(keys[i].1@)));
    lemma_map_of_entries_last(es, i);
}

/// Each read entry is the reading of its own piece.
pub proof fn lemma_parse_entries_index(pieces: Seq<Seq<char>>, i: int)
    requires
        parse_entries(pieces) is Ok,
        0 <= i < pieces.len(),
    ensures
        parse_entry(pieces[i]) is Ok,
        parse_entries(pieces)->Ok_0[i] == parse_entry(pieces[i])->Ok_0,
    decreases pieces.len(),
{
    lemma_parse_entries_len(pieces.drop_last());
    if i < pieces.len() - 1 {
        lemma_parse_entries_index(pieces.drop_last(), i);
    }
}

/// The key that a configuration gives a cipher id is the hexadecimal decoding, bytes in order, of
/// the text after the `:` of the id's last entry; the first entry's id is active.
pub proof fn lemma_ring_config_key(raw: Seq<char>, i: int, cid: Seq<char>, hex: Seq<char>)
    requires
        ring_config(raw) is Ok,
        0 <= i < split_char(raw, ',').len(),
        split_once_char(split_char(raw, ',')[i], ':') == Some((cid, hex)),
        forall|j: int|
            i < j < split_char(raw, ',').len() ==> #[trigger] split_once_char(split_char(raw, ',')[j], ':')
                is Some && split_once_char(split_char(raw, ',')[j], ':')->Some_0.0 != cid,
    ensures
        is_hex_text(hex),
        hex.len() == 64,
        ring_config(raw)->Ok_0.ciphers.dom().contains(cid),
        ring_config(raw)->Ok_0.ciphers[cid] == cipher_keys_for(hex_bytes(hex)),
        i == 0 ==> ring_config(raw)->Ok_0.active_cid == cid,
{
    let pieces = split_char(raw, ',');
    let entries = parse_entries(pieces)->Ok_0;
    lemma_parse_entries_len(pieces);
    lemma_parse_entries_index(pieces, i);
    assert(entries[i] == (cid, hex_bytes(hex)));
    assert forall|j: int| i < j < entries.len() implies entries[j].0 != entries[i].0 by {
        lemma_parse_entries_index(pieces, j);
        assert(split_once_char(pieces[j], ':') is Some);
    }
    lemma_ring_config_entries(raw);
}

} // verus!
