//! The session a reduction actually arrives over.
//!
//! A node of the network is known by the identifier of its key, and a household
//! trusts a list of those. Both have to survive a reboot: a fresh key on every
//! start would mean pairing again on every start, and so would a list that was
//! forgotten.

use eebus::cert::Identity;
use eebus::runtime::TrustStore;
use vstd::prelude::*;

use crate::clock::{rfc3339, Instant};
use crate::drivers::LinkState;

verus! {

/// How the box presents itself on the network.
#[derive(Debug)]
pub struct ShipSettings {
    /// Where to accept a session. None leaves the box hearing nothing.
    pub listen: Option<String>,
    /// The name this node announces. It is not the identity, which follows the key.
    pub ship_id: String,
    /// The identifiers this box will exchange data with, as somebody wrote them.
    pub trust: Vec<String>,
    /// Whether to announce this box on the local network.
    pub announce: bool,
}

impl Default for ShipSettings {
    /// A box that can be discovered, listens nowhere and trusts nobody.
    fn default() -> (s: Self)
        ensures
            s.listen is None,
            s.ship_id@ == "hems_hems-1"@,
            s.trust@.len() == 0,
            s.announce,
    {
        ShipSettings {
            listen: None,
            ship_id: "hems_hems-1".to_owned(),
            trust: Vec::new(),
            announce: true,
        }
    }
}

/// Why a session could not be started.
#[derive(Debug)]
pub enum ShipError {
    /// The identity could not be created or read back.
    Identity(String),
    /// A configured identifier is not one.
    NotASki(String),
    /// The listener could not be bound.
    Listen {
        /// Where.
        address: String,
        /// Why not.
        source: String,
    },
}

impl ShipError {
    /// What the error says.
    pub open spec fn said(self) -> Seq<char> {
        match self {
            ShipError::Identity(why) => "the box's EEBUS identity is not usable: "@ + why@,
            ShipError::NotASki(text) => "`"@ + text@
                + "` is not a SKI: forty hexadecimal characters, as printed on the peer"@,
            ShipError::Listen { address, source } => "the SHIP listener could not bind to "@
                + address@ + ": "@ + source@,
        }
    }

    /// What the error says.
    pub fn message(&self) -> (out: String)
        ensures
            out@ == self.said(),
    {
        let mut out = String::new();
        match self {
            ShipError::Identity(why) => {
                out.append("the box's EEBUS identity is not usable: ");
                out.append(why.as_str());
            },
            ShipError::NotASki(text) => {
                out.append("`");
                out.append(text.as_str());
                out.append("` is not a SKI: forty hexadecimal characters, as printed on the peer");
            },
            ShipError::Listen { address, source } => {
                out.append("the SHIP listener could not bind to ");
                out.append(address.as_str());
                out.append(": ");
                out.append(source.as_str());
            },
        }
        assert(out@ =~= self.said());
        out
    }
}

// ── Key identifiers ─────────────────────────────────────────────────────────

/// The characters somebody may put between the digits.
pub open spec fn is_separator(c: char) -> bool {
    c == ' ' || c == ':' || c == '-' || c == '_'
}

/// A text without them.
pub open spec fn significant(s: Seq<char>) -> Seq<char>
    decreases s.len(),
{
    if s.len() == 0 {
        Seq::empty()
    } else if is_separator(s.last()) {
        significant(s.drop_last())
    } else {
        significant(s.drop_last()).push(s.last())
    }
}

/// What a hexadecimal digit is worth, in capitals or not.
pub open spec fn nibble(c: char) -> Option<int> {
    if '0' <= c <= '9' {
        Some(c as int - 48)
    } else if 'a' <= c <= 'f' {
        Some(c as int - 87)
    } else if 'A' <= c <= 'F' {
        Some(c as int - 55)
    } else {
        None
    }
}

/// Whether a text is forty hexadecimal digits, whatever stands between them.
pub open spec fn is_ski(s: Seq<char>) -> bool {
    &&& significant(s).len() == 40
    &&& forall|i: int| 0 <= i < 40 ==> nibble(#[trigger] significant(s)[i]) is Some
}

/// The identifier a text means, where it means one.
pub open spec fn ski_of(s: Seq<char>) -> Option<Seq<u8>> {
    if is_ski(s) {
        Some(
            Seq::new(
                20,
                |i: int|
                    (16 * nibble(significant(s)[2 * i])->Some_0 + nibble(
                        significant(s)[2 * i + 1],
                    )->Some_0) as u8,
            ),
        )
    } else {
        None
    }
}

/// `eebus::ship::Ski::from_str`: forty hexadecimal digits, with spaces, colons,
/// hyphens and underscores between them left out, two digits to a byte.
#[verifier::external_body]
fn parse_ski(text: &str) -> (ski: Option<[u8; 20]>)
    ensures
        match ski {
            Some(bytes) => ski_of(text@) == Some(bytes@),
            None => ski_of(text@) is None,
        },
{
    text.parse::<eebus::ship::Ski>().ok().map(|ski| *ski.as_bytes())
}

/// An identifier as it is printed on a label: capitals, in groups of four.
pub open spec fn label(bytes: Seq<u8>) -> Seq<char>
    decreases bytes.len(),
{
    if bytes.len() == 0 {
        Seq::empty()
    } else {
        let before = label(bytes.drop_last());
        let led = if bytes.len() > 1 && bytes.len() % 2 == 1 {
            before.push(' ')
        } else {
            before
        };
        led.push(crate::runtime::fleet::hex_digit(bytes.last() as int / 16)).push(
            crate::runtime::fleet::hex_digit(bytes.last() as int % 16),
        )
    }
}

/// `eebus::ship::Ski::to_display_string`: upper-case hexadecimal, a space before
/// every group of four digits but the first.
#[verifier::external_body]
fn display_ski(ski: &[u8; 20]) -> (text: String)
    ensures
        text@ == label(ski@),
{
    eebus::ship::Ski::from_bytes(*ski).to_display_string()
}

/// The identifier a text means, or the text where it means none.
pub fn read_ski(text: &str) -> (r: Result<[u8; 20], ShipError>)
    ensures
        match ski_of(text@) {
            Some(bytes) => r matches Ok(ski) && ski@ == bytes,
            None => r matches Err(ShipError::NotASki(said)) && said@ == text@,
        },
{
    match parse_ski(text) {
        Some(ski) => Ok(ski),
        None => Err(ShipError::NotASki(text.to_owned())),
    }
}

/// The digits of an identifier.
pub open spec fn digits(bytes: Seq<u8>) -> Seq<char> {
    Seq::new(
        2 * bytes.len(),
        |i: int|
            crate::runtime::fleet::hex_digit(
                if i % 2 == 0 {
                    bytes[i / 2] as int / 16
                } else {
                    bytes[i / 2] as int % 16
                },
            ),
    )
}

proof fn lemma_label(bytes: Seq<u8>)
    ensures
        significant(label(bytes)) == digits(bytes),
    decreases bytes.len(),
{
    if bytes.len() > 0 {
        let shorter = bytes.drop_last();
        lemma_label(shorter);
        let before = label(shorter);
        let led = if bytes.len() > 1 && bytes.len() % 2 == 1 {
            before.push(' ')
        } else {
            before
        };
        assert(before.push(' ').drop_last() =~= before);
        assert(significant(led) == significant(before));
        let high = crate::runtime::fleet::hex_digit(bytes.last() as int / 16);
        let low = crate::runtime::fleet::hex_digit(bytes.last() as int % 16);
        assert(!is_separator(high) && !is_separator(low));
        assert(led.push(high).drop_last() =~= led);
        assert(led.push(high).push(low).drop_last() =~= led.push(high));
        assert(significant(led.push(high)) == significant(led).push(high));
        assert(significant(led.push(high).push(low)) == significant(led.push(high)).push(low));
        assert(label(bytes) == led.push(high).push(low));
        let n = 2 * shorter.len() as int;
        let all = digits(shorter).push(high).push(low);
        assert(all.len() == digits(bytes).len());
        assert forall|i: int| 0 <= i < all.len() implies all[i] == digits(bytes)[i] by {
            if i < n {
                assert(bytes[i / 2] == shorter[i / 2]);
            }
        }
        assert(all =~= digits(bytes));
    } else {
        assert(digits(bytes) =~= Seq::empty());
    }
}

/// What a label says is read back as the identifier it was made from, so that the
/// number on a screen can be compared with and typed as the number on the box.
pub proof fn a_label_reads_back(bytes: Seq<u8>)
    requires
        bytes.len() == 20,
    ensures
        ski_of(label(bytes)) == Some(bytes),
{
    lemma_label(bytes);
    let d = digits(bytes);
    assert forall|i: int| 0 <= i < 40 implies nibble(#[trigger] d[i]) is Some by {}
    assert forall|i: int| 0 <= i < 20 implies (16 * nibble(d[2 * i])->Some_0 + nibble(
        d[2 * i + 1],
    )->Some_0) as u8 == bytes[i] by {
        assert((2 * i) / 2 == i && (2 * i + 1) / 2 == i);
    }
    assert(ski_of(label(bytes))->Some_0 =~= bytes);
}

/// A peer whose handshake is waiting for somebody to say yes.
#[derive(Debug)]
pub struct Waiting {
    /// Forty hexadecimal characters, as printed on the peer.
    pub ski: String,
    /// The fingerprint of its whole certificate.
    pub fingerprint: String,
}

/// A waiting peer, as somebody compares it with a label.
pub fn waiting(ski: &[u8; 20], fingerprint: &str) -> (w: Waiting)
    ensures
        w.ski@ == label(ski@),
        w.fingerprint@ == fingerprint@,
{
    Waiting { ski: display_ski(ski), fingerprint: fingerprint.to_owned() }
}

// ── Whom the box trusts ─────────────────────────────────────────────────────

/// The list of peers a node exchanges data with.
#[verifier::external_type_specification]
#[verifier::external_body]
pub struct ExTrustStore(TrustStore);

/// The identifiers a list trusts.
pub uninterp spec fn trusted(store: TrustStore) -> Set<Seq<u8>>;

/// When each identifier that was approved here was approved, as it was written.
pub uninterp spec fn approved_at(store: TrustStore) -> Map<Seq<u8>, Seq<char>>;

/// The identifiers a written list trusts, where the text is one.
pub uninterp spec fn written_trust(json: Seq<char>) -> Option<Set<Seq<u8>>>;

/// `TrustStore::new`: a list that trusts nobody.
#[verifier::external_body]
fn nobody() -> (store: TrustStore)
    ensures
        trusted(store) == Set::<Seq<u8>>::empty(),
        approved_at(store).dom() == Set::<Seq<u8>>::empty(),
{
    TrustStore::new()
}

/// `TrustStore::from_json`: a list read back from its text, and nothing where the
/// text is not one. Whom a text trusts is named: its grammar is that crate's. When
/// a peer of the text was approved is not claimed.
#[verifier::external_body]
fn restored(json: &str) -> (store: Option<TrustStore>)
    ensures
        match store {
            Some(s) => written_trust(json@) == Some(trusted(s)),
            None => written_trust(json@) is None,
        },
{
    TrustStore::from_json(json).ok()
}

/// `TrustStore::remember` of a `TrustedPeer` with a time: the identifier is
/// trusted, with the time it was approved, and nothing else changes. The list is
/// behind a lock that nothing panics under, so the lock is never poisoned.
#[verifier::external_body]
fn remember(store: &mut TrustStore, ski: &[u8; 20], at: &str)
    ensures
        trusted(*final(store)) == trusted(*old(store)).insert(ski@),
        approved_at(*final(store)) == approved_at(*old(store)).insert(ski@, at@),
{
    let peer = eebus::runtime::TrustedPeer::new(eebus::ship::Ski::from_bytes(*ski));
    store.remember(peer.at_time(at));
}

/// `TrustStore::forget`: the identifier is no longer trusted, nor the time it was
/// approved kept, and every other identifier stands as it stood.
#[verifier::external_body]
fn forget(store: &mut TrustStore, ski: &[u8; 20])
    ensures
        trusted(*final(store)) == trusted(*old(store)).remove(ski@),
        approved_at(*final(store)) == approved_at(*old(store)).remove(ski@),
{
    store.forget(&eebus::ship::Ski::from_bytes(*ski));
}

/// `TrustStore::to_json`: the list as a text that trusts the same identifiers when
/// it is read back. What is written is texts, numbers and what may be absent, of
/// which none can fail to be written.
#[verifier::external_body]
fn written(store: &TrustStore) -> (r: Result<String, String>)
    ensures
        r is Ok,
        r matches Ok(json) ==> written_trust(json@) == Some(trusted(*store)),
{
    store.to_json().map_err(|e| e.to_string())
}

/// Whether one identifier comes before another, byte by byte.
pub open spec fn bytes_before(a: Seq<u8>, b: Seq<u8>) -> bool {
    exists|k: int|
        0 <= k < a.len() && k < b.len() && #[trigger] a[k] < b[k] && a.take(k) == b.take(k)
}

/// Whether a list holds every one of some identifiers once, in order.
pub open spec fn is_roster(order: Seq<Seq<u8>>, skis: Set<Seq<u8>>) -> bool {
    &&& forall|ski: Seq<u8>| skis.contains(ski) <==> order.contains(ski)
    &&& forall|i: int, j: int|
        0 <= i < j < order.len() ==> bytes_before(#[trigger] order[i], #[trigger] order[j])
}

/// The bytes of a list of identifiers.
pub open spec fn plain(skis: Seq<[u8; 20]>) -> Seq<Seq<u8>> {
    Seq::new(skis.len(), |i: int| skis[i]@)
}

/// `TrustStore::all`: every identifier the list trusts, each once, in order.
#[verifier::external_body]
fn listed(store: &TrustStore) -> (skis: Vec<[u8; 20]>)
    ensures
        is_roster(plain(skis@), trusted(*store)),
{
    store.all().iter().map(|ski| *ski.as_bytes()).collect()
}

/// Whom the box trusts after a list of configured identifiers was added to what it
/// already trusted.
pub open spec fn joined(base: Set<Seq<u8>>, configured: Seq<String>) -> Set<Seq<u8>>
    decreases configured.len(),
{
    if configured.len() == 0 {
        base
    } else {
        let before = joined(base, configured.drop_last());
        match ski_of(configured.last()@) {
            Some(ski) => before.insert(ski),
            None => before,
        }
    }
}

/// Whether a configured text names an identifier.
pub open spec fn names(configured: Seq<String>, ski: Seq<u8>, i: int) -> bool {
    0 <= i < configured.len() && ski_of(configured[i]@) == Some(ski)
}

/// Somebody is trusted where the box already trusted them or the configuration
/// names them: neither a deployment undoes a pairing made on a screen, nor does a
/// peer that is configured need a screen.
pub proof fn trust_is_what_was_kept_and_what_is_configured(
    base: Set<Seq<u8>>,
    configured: Seq<String>,
    ski: Seq<u8>,
)
    ensures
        joined(base, configured).contains(ski) <==> base.contains(ski) || exists|i: int|
            names(configured, ski, i),
    decreases configured.len(),
{
    if configured.len() > 0 {
        let before = configured.drop_last();
        let n = configured.len() - 1;
        trust_is_what_was_kept_and_what_is_configured(base, before, ski);
        if exists|i: int| names(before, ski, i) {
            let i = choose|i: int| names(before, ski, i);
            assert(names(configured, ski, i));
        }
        if exists|i: int| names(configured, ski, i) {
            let i = choose|i: int| names(configured, ski, i);
            if i < n {
                assert(names(before, ski, i));
            }
        }
        if ski_of(configured.last()@) == Some(ski) {
            assert(names(configured, ski, n));
        }
    }
}

// ── The box's own identity ──────────────────────────────────────────────────

/// A node's certificate and the private key that goes with it.
#[verifier::external_type_specification]
#[verifier::external_body]
pub struct ExIdentity(Identity);

/// The identifier of a private key, where a text is one a node can have.
pub uninterp spec fn ski_of_key(pem: Seq<char>) -> Option<Seq<u8>>;

/// The node a certificate names.
pub uninterp spec fn certified_name(identity: Identity) -> Seq<char>;

/// A certificate that was issued, the identifier of its key, and the key.
pub struct Issued {
    /// The certificate, with its key.
    pub identity: Identity,
    /// The identifier of the key.
    pub ski: [u8; 20],
    /// The key, as it is kept.
    pub key_pem: String,
}

/// Why none was issued.
#[derive(Debug)]
pub enum NotIssued {
    /// The key that was kept could not be read.
    Key(String),
    /// The certificate could not be made.
    Certificate(String),
}

/// `eebus::cert::key_from_pem` and `self_signed_with`: a certificate for a key that
/// was kept. The identifier follows the key, whose identifier is named: it is the
/// digest of the public half. A text that is no key is refused as one. The key that
/// comes with the certificate has the same identifier, and the certificate's common
/// name is the node's. Nothing is said of when a text that is a key is read: reading
/// one draws on the machine's randomness and fails without it. Nor is it said whether
/// a certificate can be made and what it says of its validity: that depends on the
/// clock and on chance.
#[verifier::external_body]
fn reissued(ship_id: &str, key_pem: &str) -> (r: Result<Issued, NotIssued>)
    ensures
        ski_of_key(key_pem@) is None ==> r matches Err(NotIssued::Key(_)),
        r matches Ok(issued) ==> ski_of_key(key_pem@) == Some(issued.ski@) && ski_of_key(
            issued.key_pem@,
        ) == Some(issued.ski@) && certified_name(issued.identity) == ship_id@,
{
    let key = eebus::cert::key_from_pem(key_pem).map_err(|e| NotIssued::Key(e.to_string()))?;
    let params = eebus::cert::CertParams::new(ship_id);
    let made = eebus::cert::self_signed_with(params, key);
    let identity = made.map_err(|e| NotIssued::Certificate(e.to_string()))?;
    let (ski, key_pem) = (*identity.ski.as_bytes(), identity.key_pem());
    Ok(Issued { identity, ski, key_pem })
}

/// `eebus::cert::self_signed`: a certificate for a key that is made up for it. The
/// key that comes with it is one a node can have and has the identifier that is
/// given with it, and the certificate's common name is the node's; which key it is,
/// is chance.
#[verifier::external_body]
fn issued(ship_id: &str) -> (r: Result<Issued, NotIssued>)
    ensures
        !(r matches Err(NotIssued::Key(_))),
        r matches Ok(issued) ==> ski_of_key(issued.key_pem@) == Some(issued.ski@)
            && certified_name(issued.identity) == ship_id@,
{
    let made = eebus::cert::self_signed(eebus::cert::CertParams::new(ship_id));
    let identity = made.map_err(|e| NotIssued::Certificate(e.to_string()))?;
    let (ski, key_pem) = (*identity.ski.as_bytes(), identity.key_pem());
    Ok(Issued { identity, ski, key_pem })
}

/// What the box keeps of its identity across a reboot.
#[derive(Debug)]
pub struct StoredIdentity {
    /// The name it announced.
    pub ship_id: String,
    /// Its private key.
    pub key_pem: String,
    /// Whom it trusts, as a text.
    pub trusted: String,
}

/// The box as it starts: who it is, whom it trusts, and what it keeps of that.
pub struct OwnIdentity {
    /// The certificate, with its key.
    pub identity: Identity,
    /// The identifier an installer hands on.
    pub ski: [u8; 20],
    /// The private key, as it is kept.
    pub key_pem: String,
    /// Whom the box trusts.
    pub trust: TrustStore,
    /// What is kept.
    pub keep: StoredIdentity,
}

/// Whom the box trusted before it started.
pub open spec fn kept_trust(stored: Option<&StoredIdentity>) -> Set<Seq<u8>> {
    match stored {
        Some(kept) => match written_trust(kept.trusted@) {
            Some(skis) => skis,
            None => Set::empty(),
        },
        None => Set::empty(),
    }
}

/// Whether every configured text up to one is an identifier.
pub open spec fn all_skis(configured: Seq<String>, n: int) -> bool {
    forall|i: int| 0 <= i < n ==> ski_of((#[trigger] configured[i])@) is Some
}

/// Whether a text is the first configured one that is no identifier.
pub open spec fn first_bad(configured: Seq<String>, text: Seq<char>, i: int) -> bool {
    &&& 0 <= i < configured.len()
    &&& configured[i]@ == text
    &&& ski_of(text) is None
    &&& all_skis(configured, i)
}

/// Whether an error names the first configured text that is no identifier.
pub open spec fn is_first_bad(e: ShipError, configured: Seq<String>) -> bool {
    e matches ShipError::NotASki(text) && exists|i: int| first_bad(configured, text@, i)
}

fn check_skis(configured: &Vec<String>) -> (r: Result<(), ShipError>)
    ensures
        match r {
            Ok(_) => all_skis(configured@, configured@.len() as int),
            Err(e) => !all_skis(configured@, configured@.len() as int) && is_first_bad(
                e,
                configured@,
            ),
        },
{
    let mut i: usize = 0;
    while i < configured.len()
        invariant
            i <= configured@.len(),
            all_skis(configured@, i as int),
        decreases configured@.len() - i,
    {
        if let Err(e) = read_ski(configured[i].as_str()) {
            assert(first_bad(configured@, configured@[i as int]@, i as int));
            assert(!all_skis(configured@, configured@.len() as int));
            return Err(e);
        }
        i = i + 1;
    }
    Ok(())
}

/// The box as it starts, with a certificate that was or was not issued. A kept key
/// that is none comes first, and a configured peer that is none is named whatever
/// became of the certificate.
pub fn identified(
    settings: &ShipSettings,
    stored: Option<&StoredIdentity>,
    made: Result<Issued, NotIssued>,
    now: Instant,
) -> (r: Result<OwnIdentity, ShipError>)
    requires
        crate::clock::in_calendar(now as int),
    ensures
        match made {
            Err(NotIssued::Key(why)) => r matches Err(ShipError::Identity(said)) && said@
                == "the stored key: "@ + why@,
            _ => if !all_skis(settings.trust@, settings.trust@.len() as int) {
                r matches Err(e) && is_first_bad(e, settings.trust@)
            } else {
                match made {
                    Err(NotIssued::Key(_)) => true,
                    Err(NotIssued::Certificate(why)) => r matches Err(ShipError::Identity(said))
                        && said@ == why@,
                    Ok(issued) => {
                        &&& r matches Ok(own)
                        &&& own.ski == issued.ski
                        &&& own.key_pem@ == issued.key_pem@
                        &&& own.identity == issued.identity
                        &&& trusted(own.trust) == joined(kept_trust(stored), settings.trust@)
                        &&& own.keep.ship_id@ == settings.ship_id@
                        &&& own.keep.key_pem@ == issued.key_pem@
                        &&& written_trust(own.keep.trusted@) == Some(trusted(own.trust))
                    },
                }
            },
        },
{
    if let Err(NotIssued::Key(why)) = &made {
        let mut said = String::new();
        said.append("the stored key: ");
        said.append(why.as_str());
        assert(said@ =~= "the stored key: "@ + why@);
        return Err(ShipError::Identity(said));
    }
    if let Err(e) = check_skis(&settings.trust) {
        return Err(e);
    }
    let issued = match made {
        Ok(issued) => issued,
        Err(NotIssued::Key(why)) | Err(NotIssued::Certificate(why)) => {
            return Err(ShipError::Identity(why));
        },
    };
    let mut trust = match stored {
        Some(kept) => match restored(kept.trusted.as_str()) {
            Some(store) => store,
            None => nobody(),
        },
        None => nobody(),
    };
    let at = rfc3339(now);
    let mut i: usize = 0;
    assert(settings.trust@.take(0) =~= Seq::empty());
    while i < settings.trust.len()
        invariant
            i <= settings.trust@.len(),
            all_skis(settings.trust@, settings.trust@.len() as int),
            made is Ok,
            trusted(trust) == joined(kept_trust(stored), settings.trust@.take(i as int)),
        decreases settings.trust@.len() - i,
    {
        assert(ski_of(settings.trust@[i as int]@) is Some);
        match read_ski(settings.trust[i].as_str()) {
            Ok(ski) => {
                assert(settings.trust@.take(i + 1).drop_last() =~= settings.trust@.take(i as int));
                assert(settings.trust@.take(i + 1).last() == settings.trust@[i as int]);
                remember(&mut trust, &ski, at.as_str());
            },
            Err(e) => {
                return Err(e);
            },
        }
        i = i + 1;
    }
    assert(settings.trust@.take(i as int) =~= settings.trust@);
    let json = match written(&trust) {
        Ok(json) => json,
        Err(why) => {
            return Err(ShipError::Identity(why));
        },
    };
    let keep = StoredIdentity {
        ship_id: settings.ship_id.clone(),
        key_pem: issued.key_pem.clone(),
        trusted: json,
    };
    Ok(OwnIdentity { identity: issued.identity, ski: issued.ski, key_pem: issued.key_pem, trust, keep })
}

/// Whether a box that started kept what it is: its key, which has its identifier,
/// and whom it trusts.
pub open spec fn is_a_start(own: OwnIdentity) -> bool {
    &&& ski_of_key(own.key_pem@) == Some(own.ski@)
    &&& own.keep.key_pem@ == own.key_pem@
    &&& written_trust(own.keep.trusted@) == Some(trusted(own.trust))
}

/// The box's own identity, created once and then read back.
///
/// The configured peers are looked at before the key is read, and one that is none is
/// always told; so is a kept key that is none. Otherwise whether a key can be read and
/// a certificate issued rests on chance and on the clock, so success is not promised
/// here. Where there is one it names this node, its identifier is that of the key that
/// was kept, and what is kept again has it too.
pub fn identity(
    settings: &ShipSettings,
    stored: Option<&StoredIdentity>,
    now: Instant,
) -> (r: Result<OwnIdentity, ShipError>)
    requires
        crate::clock::in_calendar(now as int),
    ensures
        if !all_skis(settings.trust@, settings.trust@.len() as int) {
            r matches Err(e) && is_first_bad(e, settings.trust@)
        } else if stored matches Some(kept) && ski_of_key(kept.key_pem@) is None {
            r matches Err(e) && e is Identity
        } else {
            match r {
                Err(e) => e is Identity,
                Ok(own) => {
                    &&& certified_name(own.identity) == settings.ship_id@
                    &&& is_a_start(own)
                    &&& stored matches Some(kept) ==> ski_of_key(kept.key_pem@) == Some(own.ski@)
                    &&& trusted(own.trust) == joined(kept_trust(stored), settings.trust@)
                    &&& own.keep.ship_id@ == settings.ship_id@
                },
            }
        },
{
    if let Err(e) = check_skis(&settings.trust) {
        return Err(e);
    }
    let made = match stored {
        Some(kept) => reissued(settings.ship_id.as_str(), kept.key_pem.as_str()),
        None => issued(settings.ship_id.as_str()),
    };
    identified(settings, stored, made, now)
}

/// The identity survives a reboot: a box that starts from what it kept, with
/// nothing new configured, has the same identifier and trusts the same peers.
pub proof fn an_identity_survives_a_reboot(first: OwnIdentity, configured: Seq<String>)
    requires
        is_a_start(first),
        forall|i: int, ski: Seq<u8>| #[trigger]
            names(configured, ski, i) ==> trusted(first.trust).contains(ski),
    ensures
        ski_of_key(first.keep.key_pem@) == Some(first.ski@),
        joined(kept_trust(Some(&first.keep)), configured) == trusted(first.trust),
{
    let base = kept_trust(Some(&first.keep));
    assert forall|ski: Seq<u8>| joined(base, configured).contains(ski) <==> trusted(
        first.trust,
    ).contains(ski) by {
        trust_is_what_was_kept_and_what_is_configured(base, configured, ski);
    }
    assert(joined(base, configured) =~= trusted(first.trust));
}

// ── Approving on a running box ──────────────────────────────────────────────

/// Trusting a peer, and no longer trusting it, while the box is running.
pub struct Trust {
    store: TrustStore,
    keeps: bool,
    ship_id: String,
    key_pem: String,
}

/// Whether texts are the labels of identifiers, one for one.
pub open spec fn are_labels(labels: Seq<String>, skis: Seq<Seq<u8>>) -> bool {
    &&& labels.len() == skis.len()
    &&& forall|i: int| 0 <= i < skis.len() ==> (#[trigger] labels[i])@ == label(skis[i])
}

/// What is written after a decision: nothing on a box that keeps nothing.
pub open spec fn is_kept(
    keeps: bool,
    ship_id: Seq<char>,
    key_pem: Seq<char>,
    skis: Set<Seq<u8>>,
    r: Option<StoredIdentity>,
) -> bool {
    match r {
        Some(keep) => keeps && keep.ship_id@ == ship_id && keep.key_pem@ == key_pem
            && written_trust(keep.trusted@) == Some(skis),
        None => !keeps,
    }
}

impl Trust {
    /// Whom the box trusts.
    pub closed spec fn skis(self) -> Set<Seq<u8>> {
        trusted(self.store)
    }

    /// When each peer approved here was approved.
    pub closed spec fn since(self) -> Map<Seq<u8>, Seq<char>> {
        approved_at(self.store)
    }

    /// Whether anything outlives the process.
    pub closed spec fn keeps(self) -> bool {
        self.keeps
    }

    /// The name the box announces.
    pub closed spec fn ship_id(self) -> Seq<char> {
        self.ship_id@
    }

    /// Its private key.
    pub closed spec fn key_pem(self) -> Seq<char> {
        self.key_pem@
    }

    /// The trust of a running box.
    pub fn new(store: TrustStore, keeps: bool, ship_id: String, key_pem: String) -> (t: Self)
        ensures
            t.skis() == trusted(store),
            t.since() == approved_at(store),
            t.keeps() == keeps,
            t.ship_id() == ship_id@,
            t.key_pem() == key_pem@,
    {
        Trust { store, keeps, ship_id, key_pem }
    }

    /// The peers the box exchanges data with, as they are printed on their labels,
    /// in the order of their identifiers.
    pub fn peers(&self) -> (labels: Vec<String>)
        ensures
            exists|order: Seq<Seq<u8>>|
                {
                    &&& #[trigger] is_roster(order, self.skis())
                    &&& are_labels(labels@, order)
                },
    {
        let skis = listed(&self.store);
        let mut labels: Vec<String> = Vec::new();
        let mut i: usize = 0;
        while i < skis.len()
            invariant
                i <= skis@.len(),
                labels@.len() == i,
                forall|j: int| 0 <= j < i ==> (#[trigger] labels@[j])@ == label(skis@[j]@),
            decreases skis@.len() - i,
        {
            labels.push(display_ski(&skis[i]));
            i = i + 1;
        }
        assert(is_roster(plain(skis@), self.skis()));
        assert(are_labels(labels@, plain(skis@)));
        labels
    }

    fn persist(&self) -> (r: Result<Option<StoredIdentity>, ShipError>)
        ensures
            r is Ok,
            r matches Ok(keep) ==> is_kept(
                self.keeps(),
                self.ship_id(),
                self.key_pem(),
                self.skis(),
                keep,
            ),
    {
        if !self.keeps {
            return Ok(None);
        }
        match written(&self.store) {
            Ok(json) => Ok(
                Some(
                    StoredIdentity {
                        ship_id: self.ship_id.clone(),
                        key_pem: self.key_pem.clone(),
                        trusted: json,
                    },
                ),
            ),
            Err(why) => Err(ShipError::Identity(why)),
        }
    }

    /// Approve a peer; what is returned is written down, so that it is remembered
    /// across a reboot. A text that is no identifier is refused rather than kept.
    pub fn approve(&mut self, ski: &str, now: Instant) -> (r: Result<
        Option<StoredIdentity>,
        ShipError,
    >)
        requires
            crate::clock::in_calendar(now as int),
        ensures
            final(self).keeps() == old(self).keeps(),
            final(self).ship_id() == old(self).ship_id(),
            final(self).key_pem() == old(self).key_pem(),
            match ski_of(ski@) {
                None => {
                    &&& r matches Err(ShipError::NotASki(said)) && said@ == ski@
                    &&& final(self).skis() == old(self).skis()
                    &&& final(self).since() == old(self).since()
                },
                Some(bytes) => {
                    &&& final(self).skis() == old(self).skis().insert(bytes)
                    &&& final(self).since() == old(self).since().insert(
                        bytes,
                        crate::clock::rfc3339_text(now as int),
                    )
                    &&& r matches Ok(keep)
                    &&& is_kept(
                        final(self).keeps(),
                        final(self).ship_id(),
                        final(self).key_pem(),
                        final(self).skis(),
                        keep,
                    )
                },
            },
    {
        let parsed = match read_ski(ski) {
            Ok(parsed) => parsed,
            Err(e) => {
                return Err(e);
            },
        };
        let at = rfc3339(now);
        remember(&mut self.store, &parsed, at.as_str());
        self.persist()
    }

    /// Withdraw an approval; what is returned is written down. The peer's session
    /// goes on, and it cannot come back.
    pub fn forget(&mut self, ski: &str) -> (r: Result<Option<StoredIdentity>, ShipError>)
        ensures
            final(self).keeps() == old(self).keeps(),
            final(self).ship_id() == old(self).ship_id(),
            final(self).key_pem() == old(self).key_pem(),
            match ski_of(ski@) {
                None => {
                    &&& r matches Err(ShipError::NotASki(said)) && said@ == ski@
                    &&& final(self).skis() == old(self).skis()
                    &&& final(self).since() == old(self).since()
                },
                Some(bytes) => {
                    &&& final(self).skis() == old(self).skis().remove(bytes)
                    &&& final(self).since() == old(self).since().remove(bytes)
                    &&& r matches Ok(keep)
                    &&& is_kept(
                        final(self).keeps(),
                        final(self).ship_id(),
                        final(self).key_pem(),
                        final(self).skis(),
                        keep,
                    )
                },
            },
    {
        let parsed = match read_ski(ski) {
            Ok(parsed) => parsed,
            Err(e) => {
                return Err(e);
            },
        };
        forget(&mut self.store, &parsed);
        self.persist()
    }

    /// Turn a waiting peer down: the identifier to refuse. It may ask again, and
    /// nothing the box trusts changes.
    pub fn refuse(&self, ski: &str) -> (r: Result<[u8; 20], ShipError>)
        ensures
            match ski_of(ski@) {
                Some(bytes) => r matches Ok(parsed) && parsed@ == bytes,
                None => r matches Err(ShipError::NotASki(said)) && said@ == ski@,
            },
    {
        read_ski(ski)
    }
}

/// A decision about a peer survives a reboot: what is written after it names exactly
/// those the box trusts, and the box that starts from it trusts them again.
pub proof fn a_decision_survives_a_reboot(
    ship_id: Seq<char>,
    key_pem: Seq<char>,
    skis: Set<Seq<u8>>,
    written: StoredIdentity,
)
    requires
        is_kept(true, ship_id, key_pem, skis, Some(written)),
    ensures
        written.ship_id@ == ship_id,
        written.key_pem@ == key_pem,
        kept_trust(Some(&written)) == skis,
{
}

// ── Being found ─────────────────────────────────────────────────────────────

/// An address of the network.
#[derive(Debug, Clone, Copy, PartialEq, Eq)]
pub enum Address {
    /// Of the fourth version, by its octets.
    V4([u8; 4]),
    /// Of the sixth version, by its segments.
    V6([u16; 8]),
}

impl Address {
    /// Whether only this machine can reach it.
    pub open spec fn is_own(self) -> bool {
        match self {
            Address::V4(octets) => octets@[0] == 127,
            Address::V6(segments) => segments@ =~= seq![0u16, 0, 0, 0, 0, 0, 0, 1],
        }
    }

    /// Whether only this link can reach it: what a machine gives itself when
    /// nobody gave it an address.
    pub open spec fn is_of_the_link(self) -> bool {
        match self {
            Address::V4(octets) => octets@[0] == 169 && octets@[1] == 254,
            Address::V6(segments) => 0xfe80 <= segments@[0] <= 0xfebf,
        }
    }

    /// Whether a peer of the household network could dial it.
    pub open spec fn is_reachable(self) -> bool {
        !self.is_own() && !self.is_of_the_link()
    }
}

/// Whether only this link can reach an address.
pub fn is_link_local(address: Address) -> (r: bool)
    ensures
        r == address.is_of_the_link(),
{
    match address {
        Address::V4(octets) => octets[0] == 169 && octets[1] == 254,
        Address::V6(segments) => {
            let first: u16 = segments[0];
            assert((first & 0xffc0) == 0xfe80 <==> 0xfe80 <= first <= 0xfebf) by (bit_vector);
            (first & 0xffc0) == 0xfe80
        },
    }
}

/// Whether only this machine can reach an address.
pub fn is_loopback(address: Address) -> (r: bool)
    ensures
        r == address.is_own(),
{
    match address {
        Address::V4(octets) => octets[0] == 127,
        Address::V6(s) => s[0] == 0 && s[1] == 0 && s[2] == 0 && s[3] == 0 && s[4] == 0 && s[5] == 0
            && s[6] == 0 && s[7] == 1,
    }
}

/// The addresses of a list a peer could dial.
pub open spec fn reachable(found: Seq<Address>) -> Seq<Address> {
    found.filter(|a: Address| a.is_reachable())
}

/// The addresses worth announcing, of those the machine's interfaces have. Where
/// there is none, or they could not be asked, the machine's own is announced: a
/// record without an address is one nothing can resolve.
pub fn announced(found: Option<Vec<Address>>) -> (r: Vec<Address>)
    ensures
        match found {
            None => is_only_own(r@),
            Some(all) => if reachable(all@).len() == 0 {
                is_only_own(r@)
            } else {
                r@ == reachable(all@)
            },
        },
{
    let all = match found {
        Some(all) => all,
        None => Vec::new(),
    };
    let mut routable: Vec<Address> = Vec::new();
    let mut i: usize = 0;
    let ghost wanted = |a: Address| a.is_reachable();
    proof {
        reveal(Seq::filter);
        assert(all@.take(0) =~= Seq::empty());
    }
    while i < all.len()
        invariant
            i <= all@.len(),
            wanted == (|a: Address| a.is_reachable()),
            routable@ == all@.take(i as int).filter(wanted),
        decreases all@.len() - i,
    {
        let address = all[i];
        proof {
            reveal(Seq::filter);
            assert(all@.take(i + 1).drop_last() =~= all@.take(i as int));
        }
        if !is_loopback(address) && !is_link_local(address) {
            routable.push(address);
        }
        i = i + 1;
    }
    assert(all@.take(i as int) =~= all@);
    if routable.len() == 0 {
        let mut own: Vec<Address> = Vec::new();
        own.push(Address::V4([127, 0, 0, 1]));
        own
    } else {
        routable
    }
}

/// `if_addrs::get_if_addrs`: the address of every interface, as the machine has
/// them now; nothing where it could not be asked.
#[verifier::external_body]
fn interfaces() -> Option<Vec<Address>> {
    let found = if_addrs::get_if_addrs().ok()?;
    let plain = found.iter().map(
        |interface| match &interface.addr {
            if_addrs::IfAddr::V4(v4) => Address::V4(v4.ip.octets()),
            if_addrs::IfAddr::V6(v6) => Address::V6(v6.ip.segments()),
        },
    );
    Some(plain.collect())
}

/// The addresses this box can be reached on. Whatever the machine has, something is
/// announced: addresses that can be dialled, or the one a machine without any has.
/// Which interfaces the machine has is its own, so nothing is said of it.
pub fn local_addresses() -> (r: Vec<Address>)
    ensures
        r@.len() > 0,
        are_reachable(r@) || is_only_own(r@),
{
    let found = interfaces();
    let ghost all = found;
    let r = announced(found);
    proof {
        if let Some(list) = all {
            if reachable(list@).len() > 0 {
                assert forall|i: int| 0 <= i < r@.len() implies (#[trigger] r@[i]).is_reachable() by {
                    only_what_can_be_dialled_is_announced(list@, i);
                }
            }
        }
    }
    r
}

/// Whether a peer could dial every address of a list.
pub open spec fn are_reachable(addresses: Seq<Address>) -> bool {
    forall|i: int| 0 <= i < addresses.len() ==> (#[trigger] addresses[i]).is_reachable()
}

/// Whether a list is the one address a machine has of its own, `127.0.0.1`.
pub open spec fn is_only_own(addresses: Seq<Address>) -> bool {
    &&& addresses.len() == 1
    &&& addresses[0] matches Address::V4(octets)
    &&& octets@ == seq![127u8, 0, 0, 1]
}

/// An address no peer could dial is never announced beside one that it could.
pub proof fn only_what_can_be_dialled_is_announced(found: Seq<Address>, i: int)
    requires
        0 <= i < reachable(found).len(),
    ensures
        reachable(found)[i].is_reachable(),
        found.contains(reachable(found)[i]),
{
    let wanted = |a: Address| a.is_reachable();
    found.lemma_filter_pred(wanted, i);
    found.lemma_filter_contains_rev(wanted, found.filter(wanted)[i]);
    assert(wanted(found.filter(wanted)[i]));
}

/// Whether a text can be a node's name: up to sixty-three characters, none of them
/// a semicolon, a control character or white space.
pub open spec fn is_ship_id(s: Seq<char>) -> bool {
    &&& 1 <= s.len() <= 63
    &&& forall|i: int|
        0 <= i < s.len() ==> {
            let c = #[trigger] s[i];
            c != ';' && !(c as u32 <= 0x1f) && !(0x7f <= c as u32 <= 0x9f)
                && !crate::text::is_white(c)
        }
}

/// `eebus::ship::ShipId::from_str`: whether a text can be a node's name.
#[verifier::external_body]
fn can_be_announced(text: &str) -> (r: bool)
    ensures
        r == is_ship_id(text@),
{
    text.parse::<eebus::ship::ShipId>().is_ok()
}

/// What the box says about itself on the local network.
#[derive(Debug)]
pub struct Announcement {
    /// Its name.
    pub ship_id: String,
    /// The identifier a peer will prove.
    pub ski: [u8; 20],
    /// What a pairing screen shows beside it.
    pub brand: String,
    /// And as what: the whole household, addressed through one manager.
    pub device_type: String,
    /// Where it accepts sessions.
    pub port: u16,
    /// The addresses it accepts them on.
    pub addresses: Vec<Address>,
}

/// What the box announces, from the addresses it has: nothing where announcing is
/// turned off, and nothing under a name no record can carry.
pub fn announce(
    settings: &ShipSettings,
    ski: [u8; 20],
    port: u16,
    addresses: Vec<Address>,
) -> (r: Option<Announcement>)
    ensures
        r is Some <==> settings.announce && is_ship_id(settings.ship_id@),
        r matches Some(a) ==> {
            &&& a.ship_id@ == settings.ship_id@
            &&& a.ski == ski
            &&& a.brand@ == "hems"@
            &&& a.device_type@ == "EnergyManagementSystem"@
            &&& a.port == port
            &&& a.addresses == addresses
        },
{
    if !settings.announce || !can_be_announced(settings.ship_id.as_str()) {
        return None;
    }
    Some(
        Announcement {
            ship_id: settings.ship_id.clone(),
            ski,
            brand: "hems".to_owned(),
            device_type: "EnergyManagementSystem".to_owned(),
            port,
            addresses,
        },
    )
}

// ── Accepting, one at a time ────────────────────────────────────────────────

/// What the listening side is doing.
#[derive(Debug, Clone, Copy, PartialEq, Eq, Structural)]
pub enum Hosting {
    /// Waiting for somebody to connect.
    Listening,
    /// Finding out who connected.
    Handshake,
    /// In a session.
    Session,
    /// Nothing more.
    Stopped,
}

/// What happened to it.
#[derive(Debug, Clone, Copy, PartialEq, Eq, Structural)]
pub enum Guest {
    /// The process is asked to stop.
    Stopping,
    /// Somebody connected.
    Came,
    /// A connection could not be accepted.
    NotAccepted,
    /// The handshake did not complete.
    NotAdmitted,
    /// The handshake completed.
    Admitted,
    /// The session ended.
    Left,
}

/// What is done about it.
#[derive(Debug, Clone, Copy, PartialEq, Eq, Structural)]
pub enum Host {
    /// Nothing but going on.
    GoOn,
    /// Withdraw the announcement and run the session; the driver is told that its
    /// link is up.
    Serve,
    /// Tell the driver that its link is down and announce the box again.
    Reopen,
    /// Withdraw the announcement and stop.
    Close,
}

/// What the listening side does next, and what is done about what happened.
pub open spec fn hosted(phase: Hosting, guest: Guest) -> (Hosting, Host) {
    match (phase, guest) {
        (Hosting::Listening, Guest::Stopping) => (Hosting::Stopped, Host::Close),
        (Hosting::Listening, Guest::Came) => (Hosting::Handshake, Host::GoOn),
        (Hosting::Handshake, Guest::NotAdmitted) => (Hosting::Listening, Host::GoOn),
        (Hosting::Handshake, Guest::Admitted) => (Hosting::Session, Host::Serve),
        (Hosting::Session, Guest::Left) => (Hosting::Listening, Host::Reopen),
        _ => (phase, Host::GoOn),
    }
}

/// Whether the box is announced: whenever it could accept somebody.
pub open spec fn is_open(phase: Hosting) -> bool {
    phase == Hosting::Listening || phase == Hosting::Handshake
}

/// What the listening side does next, and what is done about what happened.
pub fn host(phase: Hosting, guest: Guest) -> (r: (Hosting, Host))
    ensures
        r == hosted(phase, guest),
{
    match (phase, guest) {
        (Hosting::Listening, Guest::Stopping) => (Hosting::Stopped, Host::Close),
        (Hosting::Listening, Guest::Came) => (Hosting::Handshake, Host::GoOn),
        (Hosting::Handshake, Guest::NotAdmitted) => (Hosting::Listening, Host::GoOn),
        (Hosting::Handshake, Guest::Admitted) => (Hosting::Session, Host::Serve),
        (Hosting::Session, Guest::Left) => (Hosting::Listening, Host::Reopen),
        _ => (phase, Host::GoOn),
    }
}

/// What the driver is told about its link.
pub fn told(action: Host) -> (link: Option<LinkState>)
    ensures
        link == match action {
            Host::Serve => Some(LinkState::Up),
            Host::Reopen => Some(LinkState::Down),
            _ => None,
        },
{
    match action {
        Host::Serve => Some(LinkState::Up),
        Host::Reopen => Some(LinkState::Down),
        _ => None,
    }
}

/// One peer at a time: nobody is let in while somebody is, and the box is announced
/// exactly while it could let somebody in.
pub proof fn one_peer_at_a_time(phase: Hosting, guest: Guest)
    ensures
        phase == Hosting::Session && guest != Guest::Left ==> hosted(phase, guest) == (
            phase,
            Host::GoOn,
        ),
        hosted(phase, guest).1 == Host::Serve || hosted(phase, guest).1 == Host::Close <==> is_open(
            phase,
        ) && !is_open(hosted(phase, guest).0),
        hosted(phase, guest).1 == Host::Reopen <==> !is_open(phase) && is_open(
            hosted(phase, guest).0,
        ),
{
}

/// What somebody puts between the digits is left out and nothing else: every other
/// character stays, in its order.
pub proof fn only_separators_are_left_out(a: Seq<char>, b: Seq<char>, c: char)
    ensures
        significant(a + b) == significant(a) + significant(b),
        c == ' ' || c == ':' || c == '-' || c == '_' ==> significant(seq![c]) == Seq::<
            char,
        >::empty(),
        c != ' ' && c != ':' && c != '-' && c != '_' ==> significant(seq![c]) == seq![c],
    decreases b.len(),
{
    reveal_with_fuel(significant, 2);
    assert(seq![c].drop_last() =~= Seq::empty());
    assert(Seq::<char>::empty().push(c) =~= seq![c]);
    if b.len() == 0 {
        assert(a + b =~= a);
        assert(significant(a) + significant(b) =~= significant(a));
    } else {
        only_separators_are_left_out(a, b.drop_last(), c);
        assert((a + b).drop_last() =~= a + b.drop_last());
        assert((a + b).last() == b.last());
        if !is_separator(b.last()) {
            assert(significant(a) + significant(b.drop_last()).push(b.last()) =~= (significant(a)
                + significant(b.drop_last())).push(b.last()));
        }
    }
}

/// An identifier may be written with separators anywhere: putting one in changes
/// nothing about what it means.
pub proof fn a_separator_changes_no_identifier(before: Seq<char>, after: Seq<char>, c: char)
    requires
        c == ' ' || c == ':' || c == '-' || c == '_',
    ensures
        ski_of(before + seq![c] + after) == ski_of(before + after),
{
    only_separators_are_left_out(before + seq![c], after, c);
    only_separators_are_left_out(before, seq![c], c);
    only_separators_are_left_out(before, after, c);
    assert(significant(before) + Seq::<char>::empty() =~= significant(before));
}

/// A digit means the same in capitals and in small letters, and the sixteen digits
/// mean the numbers below sixteen.
pub proof fn a_digit_is_worth_its_place(c: char)
    ensures
        nibble(c) matches Some(n) ==> 0 <= n < 16,
        'a' <= c <= 'f' ==> nibble(c) == nibble(((c as int) - 32) as char),
        'a' <= c < 'f' || 'A' <= c < 'F' || '0' <= c < '9' ==> nibble(
            ((c as int) + 1) as char,
        ) == Some(nibble(c)->Some_0 + 1),
        nibble('0') == Some(0int) && nibble('a') == Some(10int) && nibble('A') == Some(10int),
        nibble(c) is Some <==> '0' <= c <= '9' || 'a' <= c <= 'f' || 'A' <= c <= 'F',
{
}

/// Two identifiers that differ have labels that differ.
pub proof fn different_identifiers_have_different_labels(a: Seq<u8>, b: Seq<u8>)
    requires
        a.len() == 20,
        b.len() == 20,
        label(a) == label(b),
    ensures
        a == b,
{
    a_label_reads_back(a);
    a_label_reads_back(b);
}

/// Every address of the list a peer could dial is announced, and the list is announced
/// in its order: what two lists have is announced of each in turn.
pub proof fn whatever_can_be_dialled_is_announced(a: Seq<Address>, b: Seq<Address>, i: int)
    requires
        0 <= i < a.len(),
        a[i].is_reachable(),
    ensures
        reachable(a).contains(a[i]),
        reachable(a + b) == reachable(a) + reachable(b),
{
    let wanted = |x: Address| x.is_reachable();
    assert(wanted(a[i]));
    a.lemma_filter_contains(wanted, i);
    Seq::filter_distributes_over_add(a, b, wanted);
}

/// An address of the fourth version is the machine's own by its first octet and the
/// link's by its first two, whatever the others are.
pub proof fn the_first_octets_say_how_far_an_address_reaches(octets: [u8; 4])
    ensures
        Address::V4(octets).is_own() <==> 127 * 256 <= octets@[0] * 256 + octets@[1] < 128 * 256,
        Address::V4(octets).is_of_the_link() <==> octets@[0] * 256 + octets@[1] == 43518,
        Address::V4(octets).is_reachable() <==> !(127 * 256 <= octets@[0] * 256 + octets@[1] < 128
            * 256) && octets@[0] * 256 + octets@[1] != 43518,
{
}

/// An address of the sixth version is the link's by its first ten bits, and only the
/// one whose last segment is one and whose others are nothing is the machine's own.
pub proof fn the_first_bits_say_how_far_an_address_reaches(segments: [u16; 8])
    ensures
        Address::V6(segments).is_of_the_link() <==> segments@[0] as int / 64 == 1018,
        Address::V6(segments).is_own() <==> segments@[7] == 1 && (forall|i: int|
            0 <= i < 7 ==> #[trigger] segments@[i] == 0),
{
    if segments@[7] == 1 && (forall|i: int| 0 <= i < 7 ==> #[trigger] segments@[i] == 0) {
        assert(segments@ =~= seq![0u16, 0, 0, 0, 0, 0, 0, 1]);
    }
    if segments@ =~= seq![0u16, 0, 0, 0, 0, 0, 0, 1] {
        assert(segments@[7] == 1);
        assert forall|i: int| 0 <= i < 7 implies #[trigger] segments@[i] == 0 by {}
    }
}

/// Nobody is served who was not admitted, and everybody is who was; the box is open
/// again after everybody who left or was not admitted; and nothing but being asked to
/// makes it stop.
pub proof fn only_the_admitted_are_served(phase: Hosting, guest: Guest)
    ensures
        hosted(phase, guest).1 == Host::Serve <==> phase == Hosting::Handshake && guest
            == Guest::Admitted,
        hosted(phase, guest).0 == Hosting::Session <==> hosted(phase, guest).1 == Host::Serve
            || phase == Hosting::Session && guest != Guest::Left,
        phase == Hosting::Session && guest == Guest::Left || phase == Hosting::Handshake && guest
            == Guest::NotAdmitted ==> hosted(phase, guest).0 == Hosting::Listening,
        phase == Hosting::Listening && guest == Guest::Came ==> hosted(phase, guest).0
            == Hosting::Handshake,
        phase == Hosting::Listening && guest == Guest::NotAccepted ==> hosted(phase, guest).0
            == Hosting::Listening,
        phase != Hosting::Stopped ==> (hosted(phase, guest).0 == Hosting::Stopped <==> phase
            == Hosting::Listening && guest == Guest::Stopping),
        phase == Hosting::Stopped ==> hosted(phase, guest).0 == Hosting::Stopped,
        hosted(phase, guest).1 == Host::Close <==> phase != Hosting::Stopped && hosted(
            phase,
            guest,
        ).0 == Hosting::Stopped,
{
}

/// Trust is given by name and taken by nobody's leave: configuring somebody adds
/// exactly them, and a text that names nobody adds nobody.
pub proof fn configuring_somebody_adds_exactly_them(
    base: Set<Seq<u8>>,
    configured: Seq<String>,
    text: String,
)
    ensures
        match ski_of(text@) {
            Some(ski) => joined(base, configured.push(text)) == joined(base, configured).insert(
                ski,
            ),
            None => joined(base, configured.push(text)) == joined(base, configured),
        },
        joined(base, Seq::empty()) == base,
        base.subset_of(joined(base, configured)),
{
    assert(configured.push(text).drop_last() =~= configured);
    assert forall|ski: Seq<u8>| base.contains(ski) implies joined(base, configured).contains(
        ski,
    ) by {
        trust_is_what_was_kept_and_what_is_configured(base, configured, ski);
    }
}

/// What is written of a decision is read again as it was, and nothing is written on a
/// box that keeps nothing.
pub proof fn what_is_kept_is_the_box(
    keeps: bool,
    ship_id: Seq<char>,
    key_pem: Seq<char>,
    skis: Set<Seq<u8>>,
    r: Option<StoredIdentity>,
)
    requires
        is_kept(keeps, ship_id, key_pem, skis, r),
    ensures
        r is Some <==> keeps,
        r matches Some(keep) ==> keep.ship_id@ == ship_id && keep.key_pem@ == key_pem && kept_trust(
            Some(&keep),
        ) == skis,
{
}

} // verus!
