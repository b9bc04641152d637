//! Contact cards: what two people exchange, as a QR code, to become contacts.
//!
//! A card is written as bytes, each text and byte string behind its length,
//! then as base64 text. As a link it reads `railroad://contact/` followed
//! by that text.

use vstd::prelude::*;
use vstd::string::StringSliceAdditionalSpecFns;
use vstd::utf8::{decode_utf8, encode_utf8, encode_utf8_decode_utf8, encode_utf8_valid_utf8, is_char_boundary, valid_utf8};
use crate::error::{Error, ErrorKind};
use crate::text::{append_bytes, array32, same_text};
use crate::trusted::{base64_bytes, base64_decode, base64_encode, base64_text, string_from_utf8, unix_now};
use crate::types::{spec_verification_word, Fingerprint, PersonId};
use crate::wire::{
    be_encode, blob_bytes, lemma_parse_be, lemma_parse_blob, lemma_parse_option_blob, lemma_parse_option_i64,
    lemma_parse_raw, lemma_pow256_values, option_blob_bytes, option_i64_bytes, parse_be, parse_blob,
    parse_option_blob, parse_option_i64, parse_raw, put_be, put_blob, put_option_blob, put_option_i64, Reader,
};

verus! {

/// What a card says, as plain values.
pub struct CardData {
    pub name: Seq<char>,
    pub id: u128,
    pub public_key: Seq<u8>,
    pub fingerprint: Seq<u8>,
    pub veilid_route: Option<Seq<u8>>,
    pub expires_at: Option<i64>,
}

/// The bytes of a card: the name, the person's identifier, the public
/// signing key, the 32 bytes of the fingerprint, the mailbox handle if
/// there is one, and the time of expiry if there is one.
pub open spec fn card_bytes(card: CardData) -> Seq<u8> {
    blob_bytes(vstd::utf8::encode_utf8(card.name)) + be_encode(card.id as nat, 16) + blob_bytes(card.public_key)
        + card.fingerprint + option_blob_bytes(card.veilid_route) + option_i64_bytes(card.expires_at)
}

/// The card that the bytes hold, if they hold exactly one.
pub open spec fn parse_card(bytes: Seq<u8>) -> Option<CardData> {
    match parse_blob(bytes) {
        Some((name, after_name)) => match parse_be(after_name, 16) {
            Some((id, after_id)) => match parse_blob(after_id) {
                Some((public_key, after_key)) => match parse_raw(after_key, 32) {
                    Some((fingerprint, after_print)) => match parse_option_blob(after_print) {
                        Some((veilid_route, after_route)) => match parse_option_i64(after_route) {
                            Some((expires_at, rest)) => if rest.len() == 0 && vstd::utf8::valid_utf8(name) {
                                Some(
                                    CardData {
                                        name: vstd::utf8::decode_utf8(name),
                                        id: id as u128,
                                        public_key,
                                        fingerprint,
                                        veilid_route,
                                        expires_at,
                                    },
                                )
                            } else {
                                None
                            },
                            None => None,
                        },
                        None => None,
                    },
                    None => None,
                },
                None => None,
            },
            None => None,
        },
        None => None,
    }
}

/// Whether every part of the card is short enough to be written.
pub open spec fn card_fits(card: CardData) -> bool {
    &&& vstd::utf8::encode_utf8(card.name).len() <= u32::MAX
    &&& card.public_key.len() <= u32::MAX
    &&& card.fingerprint.len() == 32
    &&& (card.veilid_route matches Some(route) ==> route.len() <= u32::MAX)
}

/// A card that was written is read back as it was.
#[verifier::rlimit(60)]
#[verifier::spinoff_prover]
pub proof fn lemma_card_round_trip(card: CardData)
    requires
        card_fits(card),
    ensures
        parse_card(card_bytes(card)) == Some(card),
{
    let name = vstd::utf8::encode_utf8(card.name);
    let tail5 = option_i64_bytes(card.expires_at);
    let tail4 = option_blob_bytes(card.veilid_route) + tail5;
    let tail3 = card.fingerprint + tail4;
    let tail2 = blob_bytes(card.public_key) + tail3;
    let tail1 = be_encode(card.id as nat, 16) + tail2;
    assert(card_bytes(card) =~= blob_bytes(name) + tail1);
    lemma_parse_blob(name, tail1);
    lemma_pow256_values();
    lemma_parse_be(card.id as nat, 16, tail2);
    lemma_parse_blob(card.public_key, tail3);
    lemma_parse_raw(card.fingerprint, tail4);
    lemma_parse_option_blob(card.veilid_route, tail5);
    lemma_parse_option_i64(card.expires_at, Seq::<u8>::empty());
    assert(tail5 =~= option_i64_bytes(card.expires_at) + Seq::<u8>::empty());
    vstd::utf8::encode_utf8_valid_utf8(card.name);
    vstd::utf8::encode_utf8_decode_utf8(card.name);
}

/// What is shared by QR code to become somebody's contact.
#[derive(Clone, Debug)]
pub struct ContactCard {
    /// Display name.
    pub name: String,
    /// Who the card is about.
    pub id: PersonId,
    /// Their public signing key.
    pub public_key: Vec<u8>,
    /// The fingerprint of that key.
    pub fingerprint: Fingerprint,
    /// Their mailbox handle, if they share one.
    pub veilid_route: Option<Vec<u8>>,
    /// When the card expires, in seconds since the epoch, if ever.
    pub expires_at: Option<i64>,
}

impl View for ContactCard {
    type V = CardData;

    open spec fn view(&self) -> CardData {
        CardData {
            name: self.name@,
            id: self.id.0,
            public_key: self.public_key@,
            fingerprint: self.fingerprint@,
            veilid_route: match self.veilid_route {
                Some(route) => Some(route@),
                None => None,
            },
            expires_at: self.expires_at,
        }
    }
}

/// The words with which a contact link begins.
pub const LINK_PREFIX: &'static str = "railroad://contact/";

/// What reading a base64 text at time `now` gives: the card that it holds,
/// or the kind of the error. Text that is not base64, or does not hold a
/// card, is a serialization error; a card that has expired is invalid.
pub open spec fn spec_decode(encoded: Seq<char>, now: i64) -> Result<CardData, ErrorKind> {
    match base64_bytes(encoded) {
        Some(bytes) => match parse_card(bytes) {
            Some(data) => if data.expires_at matches Some(expires) && now > expires {
                Err(ErrorKind::Invalid)
            } else {
                Ok(data)
            },
            None => Err(ErrorKind::Serialization),
        },
        None => Err(ErrorKind::Serialization),
    }
}

/// Whether the outcome is the one that was to be read.
pub open spec fn reads_as(card: Result<ContactCard, Error>, read: Result<CardData, ErrorKind>) -> bool {
    match read {
        Ok(data) => card matches Ok(c) && c@ == data,
        Err(kind) => card matches Err(e) && e.spec_kind() == kind,
    }
}

impl ContactCard {
    /// Whether the card has expired at time `now`.
    pub open spec fn spec_is_expired_at(&self, now: i64) -> bool {
        match self.expires_at {
            Some(expires) => now > expires,
            None => false,
        }
    }

    /// A card without mailbox handle that never expires.
    pub fn new(name: &str, id: PersonId, public_key: Vec<u8>, fingerprint: Fingerprint) -> (card: Self)
        ensures
            card.name@ == name@,
            card.id == id,
            card.public_key == public_key,
            card.fingerprint == fingerprint,
            card.veilid_route.is_none(),
            card.expires_at.is_none(),
    {
        ContactCard { name: name.to_owned(), id, public_key, fingerprint, veilid_route: None, expires_at: None }
    }

    /// The card with a mailbox handle.
    pub fn with_veilid_route(self, route: Vec<u8>) -> (card: Self)
        ensures
            card == (ContactCard { veilid_route: Some(route), ..self }),
    {
        let mut next = self;
        next.veilid_route = Some(route);
        next
    }

    /// The card with a time of expiry, in seconds since the epoch.
    pub fn with_expiration(self, expires_at: i64) -> (card: Self)
        ensures
            card == (ContactCard { expires_at: Some(expires_at), ..self }),
    {
        let mut next = self;
        next.expires_at = Some(expires_at);
        next
    }

    /// The bytes of the card. A card with a part too long to be written
    /// gives `None`.
    pub fn to_bytes(&self) -> (bytes: Option<Vec<u8>>)
        ensures
            bytes.is_some() <==> card_fits(self@),
            bytes matches Some(b) ==> b@ == card_bytes(self@),
    {
        let mut out: Vec<u8> = Vec::new();
        if !put_blob(&mut out, self.name.as_str().as_bytes()) {
            return None;
        }
        put_be(&mut out, self.id.0, 16);
        if !put_blob(&mut out, self.public_key.as_slice()) {
            return None;
        }
        append_bytes(&mut out, self.fingerprint.as_bytes().as_slice());
        if !put_option_blob(&mut out, &self.veilid_route) {
            return None;
        }
        put_option_i64(&mut out, self.expires_at);
        proof {
            assert(out@ =~= card_bytes(self@));
        }
        Some(out)
    }

    /// The card that the bytes hold, if they hold exactly one.
    pub fn from_bytes(bytes: &[u8]) -> (card: Option<Self>)
        ensures
            card.is_some() <==> parse_card(bytes@).is_some(),
            card matches Some(c) ==> Some(c@) == parse_card(bytes@),
    {
        let mut reader = Reader::new(bytes);
        let name = match reader.take_blob() {
            Some(name) => name,
            None => {
                return None;
            },
        };
        let id = match reader.take_be(16) {
            Some(id) => id,
            None => {
                return None;
            },
        };
        let public_key = match reader.take_blob() {
            Some(key) => key,
            None => {
                return None;
            },
        };
        let fingerprint = match reader.take_raw(32) {
            Some(print) => print,
            None => {
                return None;
            },
        };
        let veilid_route = match reader.take_option_blob() {
            Some(route) => route,
            None => {
                return None;
            },
        };
        let expires_at = match reader.take_option_i64() {
            Some(expires) => expires,
            None => {
                return None;
            },
        };
        if !reader.is_done() {
            return None;
        }
        let name = match string_from_utf8(name) {
            Some(name) => name,
            None => {
                return None;
            },
        };
        Some(
            ContactCard {
                name,
                id: PersonId(id),
                public_key,
                fingerprint: Fingerprint::new(array32(fingerprint.as_slice())),
                veilid_route,
                expires_at,
            },
        )
    }

    /// The card as base64 text. A card with a part too long to be written is
    /// a serialization error.
    pub fn encode(&self) -> (text: Result<String, Error>)
        ensures
            text.is_ok() <==> card_fits(self@),
            text matches Ok(t) ==> t@ == base64_text(card_bytes(self@)) && base64_bytes(t@) == Some(
                card_bytes(self@),
            ),
            text matches Err(e) ==> e.spec_kind() == ErrorKind::Serialization,
    {
        match self.to_bytes() {
            Some(bytes) => Ok(base64_encode(bytes.as_slice())),
            None => Err(Error::Serialization("card too long".to_owned())),
        }
    }

    /// The card that the base64 text holds, read at time `now`. Text that is
    /// not base64, or does not hold a card, is a serialization error; a card
    /// that has expired is invalid.
    pub fn decode_at(encoded: &str, now: i64) -> (card: Result<Self, Error>)
        ensures
            reads_as(card, spec_decode(encoded@, now)),
    {
        let bytes = match base64_decode(encoded) {
            Some(bytes) => bytes,
            None => {
                return Err(Error::Serialization("Base64 decode failed".to_owned()));
            },
        };
        let card = match Self::from_bytes(bytes.as_slice()) {
            Some(card) => card,
            None => {
                return Err(Error::Serialization("not a contact card".to_owned()));
            },
        };
        if card.is_expired_at(now) {
            return Err(Error::Invalid("Contact card has expired".to_owned()));
        }
        Ok(card)
    }

    /// The card that the base64 text holds, read now: the outcome is that of
    /// [`decode_at`](Self::decode_at) at the time of the call.
    pub fn decode(encoded: &str) -> (card: Result<Self, Error>)
        ensures
            exists|now: i64| #[trigger] reads_as(card, spec_decode(encoded@, now)),
    {
        Self::decode_at(encoded, unix_now())
    }

    /// Whether the card has expired at time `now`.
    pub fn is_expired_at(&self, now: i64) -> (expired: bool)
        ensures
            expired == self.spec_is_expired_at(now),
    {
        match self.expires_at {
            Some(expires) => now > expires,
            None => false,
        }
    }

    /// Whether the card has expired.
    pub fn is_expired(&self) -> (expired: bool)
        ensures
            exists|now: i64| expired == #[trigger] self.spec_is_expired_at(now),
            self.expires_at.is_none() ==> !expired,
    {
        self.is_expired_at(unix_now())
    }

    /// The three words of the card's fingerprint.
    pub fn verification_words(&self) -> (words: [&'static str; 3])
        ensures
            forall|k: int| 0 <= k < 3 ==> #[trigger] words@[k]@ == spec_verification_word(
                self.fingerprint.spec_word_index(k),
            ),
    {
        self.fingerprint.to_words()
    }
}

/// A contact card as a link for a QR code.
#[derive(Clone, Debug)]
pub struct ContactQR {
    card: ContactCard,
}

/// The text after the prefix of a contact link; `None` for text that does
/// not begin with the prefix.
pub open spec fn spec_link_payload(link: Seq<char>) -> Option<Seq<char>> {
    if link.len() >= LINK_PREFIX@.len() && link.take(LINK_PREFIX@.len() as int) == LINK_PREFIX@ {
        Some(link.skip(LINK_PREFIX@.len() as int))
    } else {
        None
    }
}

/// The text after the prefix of a contact link.
pub fn link_payload(link: &str) -> (payload: Option<String>)
    ensures
        match spec_link_payload(link@) {
            Some(text) => payload matches Some(p) && p@ == text,
            None => payload.is_none(),
        },
{
    proof {
        reveal_strlit("railroad://contact/");
    }
    let prefix_len: usize = 19;
    let len = link.unicode_len();
    if len < prefix_len {
        return None;
    }
    let head = link.substring_char(0, prefix_len).to_owned();
    proof {
        assert(link@.take(19) =~= link@.subrange(0, 19));
    }
    if !same_text(&head, LINK_PREFIX) {
        return None;
    }
    proof {
        assert(link@.skip(19) =~= link@.subrange(19, len as int));
    }
    Some(link.substring_char(prefix_len, len).to_owned())
}

/// What reading a link at time `now` gives. A link that does not begin with
/// the prefix is invalid; the rest is read as by [`spec_decode`].
pub open spec fn spec_parse_link(link: Seq<char>, now: i64) -> Result<CardData, ErrorKind> {
    match spec_link_payload(link) {
        Some(text) => spec_decode(text, now),
        None => Err(ErrorKind::Invalid),
    }
}

impl ContactQR {
    /// The card of the code.
    pub closed spec fn spec_card(&self) -> ContactCard {
        self.card
    }

    /// The code for a card.
    pub fn new(card: ContactCard) -> (qr: Self)
        ensures
            qr.spec_card() == card,
    {
        ContactQR { card }
    }

    /// The link that the code shows: the prefix, then the card as base64.
    pub fn data(&self) -> (link: Result<String, Error>)
        ensures
            link.is_ok() <==> card_fits(self.spec_card()@),
            link matches Ok(l) ==> l@ == LINK_PREFIX@ + base64_text(card_bytes(self.spec_card()@)),
            link matches Err(e) ==> e.spec_kind() == ErrorKind::Serialization,
    {
        match self.card.encode() {
            Ok(encoded) => Ok(LINK_PREFIX.to_owned().concat(encoded.as_str())),
            Err(e) => Err(e),
        }
    }

    /// The card of a link, read at time `now`. A link that does not begin
    /// with the prefix is invalid; for the rest see
    /// [`ContactCard::decode_at`].
    pub fn parse_at(data: &str, now: i64) -> (card: Result<ContactCard, Error>)
        ensures
            reads_as(card, spec_parse_link(data@, now)),
    {
        match link_payload(data) {
            Some(encoded) => ContactCard::decode_at(encoded.as_str(), now),
            None => Err(Error::Invalid("Invalid QR code format (wrong prefix)".to_owned())),
        }
    }

    /// The card of a link, read now: the outcome is that of
    /// [`parse_at`](Self::parse_at) at the time of the call.
    pub fn parse(data: &str) -> (card: Result<ContactCard, Error>)
        ensures
            exists|now: i64| #[trigger] reads_as(card, spec_parse_link(data@, now)),
    {
        Self::parse_at(data, unix_now())
    }

    /// The card of the code.
    pub fn card(&self) -> (card: &ContactCard)
        ensures
            *card == self.spec_card(),
    {
        &self.card
    }
}

/// What stands above the data in the picture of a code.
pub const QR_HEAD: &'static str = "\n┌─────────────────┐\n│  QR CODE        │\n│                 │\n│  ███ ██ ███     │\n│  █ ███ █ █      │\n│  ███ ██ ███     │\n│                 │\n│  Data: ";

/// What stands below the data in the picture of a code.
pub const QR_TAIL: &'static str = "...    │\n└─────────────────┘\n    ";

/// How many bytes of the data the picture shows at most.
pub const QR_SHOWN: usize = 20;

/// The number of bytes that are shown where at most `upto` may be: `upto`
/// where a character ends there, and otherwise as many as the whole
/// characters before take.
pub open spec fn shown_bytes(bytes: Seq<u8>, upto: int) -> int
    decreases upto,
{
    if upto <= 0 {
        0
    } else if is_char_boundary(bytes, upto) {
        upto
    } else {
        shown_bytes(bytes, upto - 1)
    }
}

/// What the picture shows of the data: the text of its first twenty bytes,
/// or of all where there are fewer; where the twentieth byte lies within a
/// character, the text up to that character.
pub open spec fn shown_text(data: Seq<char>) -> Seq<char> {
    let bytes = encode_utf8(data);
    let most = if bytes.len() < QR_SHOWN {
        bytes.len() as int
    } else {
        QR_SHOWN as int
    };
    decode_utf8(bytes.subrange(0, shown_bytes(bytes, most)))
}

/// A picture of a code for the terminal, with the beginning of the data in
/// it; see [`shown_text`].
pub fn generate_ascii_qr(data: &str) -> (picture: String)
    ensures
        picture@ == QR_HEAD@ + shown_text(data@) + QR_TAIL@,
{
    let len = data.as_bytes().len();
    let most = if len < QR_SHOWN {
        len
    } else {
        QR_SHOWN
    };
    let mut n = most;
    proof {
        encode_utf8_valid_utf8(data@);
    }
    while n > 0 && !data.is_char_boundary(n)
        invariant
            n <= most,
            most <= data.spec_bytes().len(),
            valid_utf8(data.spec_bytes()),
            shown_bytes(data.spec_bytes(), most as int) == shown_bytes(data.spec_bytes(), n as int),
        decreases n,
    {
        n -= 1;
    }
    proof {
        assert(shown_bytes(data.spec_bytes(), n as int) == n);
        assert(is_char_boundary(data.spec_bytes(), n as int));
    }
    let (head, _) = data.split_at(n);
    proof {
        let bytes = encode_utf8(data@);
        assert(data.spec_bytes() == bytes);
        assert(len == bytes.len());
        assert(shown_bytes(bytes, most as int) == n);
        encode_utf8_decode_utf8(head@);
        assert(head.spec_bytes() == encode_utf8(head@));
        encode_utf8_valid_utf8(head@);
        assert(decode_utf8(head.spec_bytes()) == head@);
        assert(head.spec_bytes() == bytes.subrange(0, n as int));
        assert(head@ == shown_text(data@));
    }
    QR_HEAD.to_owned().concat(head).concat(QR_TAIL)
}

} // verus!
