//! The secrets shared with other devices, and the bodies that are sealed with them.

use vstd::prelude::*;
use vstd::string::*;

use crate::crypto::{body_opens_to, body_sender, envelope_kid, envelope_of, fresh_body, generate_secret, is_secret, law_fingerprint_symmetric, law_replay_refused, open_body_at, opened_body, seal_body, sealed_body, secret_ok, within_limits, NONCE_BYTES};
use crate::manager::{SyncManager, SyncManagerV};
use crate::models::Timestamp;
use crate::outside::{clock, json_document, json_text, json_texts};
use crate::storage::devices::time_text;
use crate::storage::secrets::{pairs_view, safety_code, safety_codes, secret_of, with_secret};
use crate::storage::SyncDbV;
use crate::text::{opt_str, opt_text, text_outcome, Outcome};

verus! {

/// The secret that is adopted: the offered one where it is usable, else a fresh one.
pub open spec fn adopted(offered: Option<Seq<char>>, fresh: Seq<char>) -> Seq<char> {
    match offered {
        Some(s) => if is_secret(s) {
            s
        } else {
            fresh
        },
        None => fresh,
    }
}

/// The state after the secret shared with a device is replaced.
pub open spec fn keyed(m: SyncManagerV, peer_id: Seq<char>, secret: Seq<char>, now: Timestamp) -> SyncManagerV {
    SyncManagerV {
        db: SyncDbV {
            secrets: with_secret(m.db.secrets, peer_id, secret, time_text(now)),
            ..m.db
        },
        ..m
    }
}

/// The state after the secret in an answer is taken over; one that is missing or not usable
/// changes nothing.
pub open spec fn absorbed(
    m: SyncManagerV,
    peer_id: Seq<char>,
    offered: Option<Seq<char>>,
    now: Timestamp,
) -> SyncManagerV {
    match offered {
        Some(s) => if is_secret(s) {
            keyed(m, peer_id, s, now)
        } else {
            m
        },
        None => m,
    }
}

/// The secret in an answer.
pub open spec fn offered_secret(resp: serde_json::Value) -> Option<Seq<char>> {
    if json_texts(resp).contains_key("device_secret"@) {
        Some(json_texts(resp)["device_secret"@])
    } else {
        None
    }
}

/// The sender that a plain body names: `Err` where it is no snapshot, `None` where it names
/// none.
pub open spec fn sender_view(sender: Result<Option<String>, String>) -> Outcome<Option<Seq<char>>> {
    match sender {
        Ok(id) => Ok(opt_text(id)),
        Err(e) => Err(e@),
    }
}

/// What the body of a snapshot holds, and the nonces after it: an envelope is opened with the
/// secret shared with its sender; anything else must be a snapshot of a sender with whom no
/// secret is shared.
pub open spec fn decoded(
    m: SyncManagerV,
    raw: Seq<char>,
    path: Seq<char>,
    sender: Outcome<Option<Seq<char>>>,
    now: i64,
) -> (Outcome<Seq<char>>, Map<Seq<char>, i64>) {
    match body_sender(raw) {
        Some(kid) => {
            let (plain, seen) = opened_body(secret_of(m.db.secrets, kid), path, raw, m.seen, now);
            (
                match plain {
                    Ok(text) => Ok(text),
                    Err(e) => Err("信封报文处理失败: "@ + e),
                },
                seen,
            )
        },
        None => (
            match sender {
                Err(e) => Err("快照 JSON 解析失败: "@ + e),
                Ok(None) => Ok(raw),
                Ok(Some(id)) => if secret_of(m.db.secrets, id) is Some {
                    Err("已与 "@ + id + " 协商加密密钥，拒收明文报文（防止中间人降级）"@)
                } else {
                    Ok(raw)
                },
            },
            m.seen,
        ),
    }
}

/// The secret shared with whoever asks.
pub open spec fn requester_secret(m: SyncManagerV, requester: Option<Seq<char>>) -> Option<Seq<char>> {
    match requester {
        Some(id) => secret_of(m.db.secrets, id),
        None => None,
    }
}

impl SyncManager {
    /// The secret shared with a device.
    pub fn device_secret(&self, peer_id: &str) -> (r: Option<String>)
        ensures
            opt_text(r) == secret_of(self@.db.secrets, peer_id@),
    {
        self.db.get_device_secret(peer_id)
    }

    /// Answers the secret that a pairing message offers, with a fresh one at hand, at a time.
    pub fn adopt_incoming_secret_with(
        &mut self,
        peer_id: &str,
        offered: Option<&str>,
        fresh: String,
        now: &Timestamp,
    ) -> (r: String)
        ensures
            r@ == adopted(opt_str(offered), fresh@),
            final(self)@ == keyed(old(self)@, peer_id@, r@, *now),
    {
        let secret: String = match offered {
            Some(s) => if secret_ok(s) {
                s.to_string()
            } else {
                fresh
            },
            None => fresh,
        };
        self.db.set_device_secret_at(peer_id, secret.as_str(), now);
        secret
    }

    /// Answers the secret that a pairing message offers: a usable one is adopted, else a new
    /// one is made. The answer is stored, and goes back to the sender.
    pub fn adopt_incoming_secret(&mut self, peer_id: &str, offered: Option<&str>) -> (r: String)
        ensures
            is_secret(r@),
            (offered is Some && is_secret(offered->0@)) ==> r@ == offered->0@,
            exists|now: Timestamp| final(self)@ == #[trigger] keyed(old(self)@, peer_id@, r@, now),
    {
        self.adopt_incoming_secret_with(peer_id, offered, generate_secret(), &clock())
    }

    /// Takes over the secret in an answer at a time.
    pub fn absorb_secret_from_at(
        &mut self,
        peer_id: &str,
        resp: &serde_json::Value,
        now: &Timestamp,
    )
        ensures
            final(self)@ == absorbed(old(self)@, peer_id@, offered_secret(*resp), *now),
    {
        match json_text(resp, "device_secret") {
            Some(s) => {
                if secret_ok(s.as_str()) {
                    self.db.set_device_secret_at(peer_id, s.as_str(), now);
                }
            },
            None => {},
        }
    }

    /// Takes over the secret in an answer. One that is missing or not usable changes nothing.
    pub fn absorb_secret_from(&mut self, peer_id: &str, resp: &serde_json::Value)
        ensures
            exists|now: Timestamp|
                final(self)@ == #[trigger] absorbed(
                    old(self)@,
                    peer_id@,
                    offered_secret(*resp),
                    now,
                ),
    {
        self.absorb_secret_from_at(peer_id, resp, &clock())
    }

    /// The safety codes, by device.
    pub fn security_fingerprints(&self) -> (r: Vec<(String, String)>)
        ensures
            pairs_view(r@) == safety_codes(
                self@.db.secrets,
                self@.self_id,
                self@.db.secrets.len(),
            ),
    {
        self.db.fingerprints(self.self_id.as_str())
    }

    /// Reads the body of a snapshot at a time in Unix seconds. `sender` is what a plain body
    /// names as its sender.
    pub fn decode_snapshot_body_at(
        &mut self,
        raw: &str,
        path: &str,
        sender: &Result<Option<String>, String>,
        now: i64,
    ) -> (r: Result<String, String>)
        ensures
            text_outcome(r) == decoded(old(self)@, raw@, path@, sender_view(*sender), now).0,
            final(self)@ == (SyncManagerV {
                seen: decoded(old(self)@, raw@, path@, sender_view(*sender), now).1,
                ..old(self)@
            }),
    {
        match envelope_kid(raw) {
            Some(kid) => {
                let secret: Option<String> = self.device_secret(kid.as_str());
                let shared: Option<&str> = match &secret {
                    Some(s) => Some(s.as_str()),
                    None => None,
                };
                let opened: Result<String, String> = open_body_at(
                    shared,
                    path,
                    raw,
                    &mut self.seen,
                    now,
                );
                match opened {
                    Ok(text) => Ok(text),
                    Err(e) => {
                        let mut m: String = "信封报文处理失败: ".to_string();
                        m.append(e.as_str());
                        Err(m)
                    },
                }
            },
            None => match sender {
                Err(e) => {
                    let mut m: String = "快照 JSON 解析失败: ".to_string();
                    m.append(e.as_str());
                    Err(m)
                },
                Ok(None) => Ok(raw.to_string()),
                Ok(Some(id)) => {
                    if self.device_secret(id.as_str()).is_some() {
                        let mut m: String = "已与 ".to_string();
                        m.append(id.as_str());
                        m.append(" 协商加密密钥，拒收明文报文（防止中间人降级）");
                        return Err(m);
                    }
                    Ok(raw.to_string())
                },
            },
        }
    }

    /// Reads the body of a snapshot. `sender` is what a plain body names as its sender.
    pub fn decode_snapshot_body(
        &mut self,
        raw: &str,
        path: &str,
        sender: &Result<Option<String>, String>,
    ) -> (r: Result<String, String>)
        ensures
            exists|now: i64|
                #![trigger decoded(old(self)@, raw@, path@, sender_view(*sender), now)]
                text_outcome(r) == decoded(old(self)@, raw@, path@, sender_view(*sender), now).0
                    && final(self)@ == (SyncManagerV {
                    seen: decoded(old(self)@, raw@, path@, sender_view(*sender), now).1,
                    ..old(self)@
                }),
    {
        let now: Timestamp = clock();
        self.decode_snapshot_body_at(raw, path, sender, now.secs)
    }

    /// Prepares the body of a snapshot for whoever asks: sealed where a secret is shared.
    pub fn encode_snapshot_body(&self, requester_id: Option<&str>, path: &str, plain: &str) -> (r:
        Result<String, String>)
        ensures
            exists|nonce: Seq<u8>, ts: i64|
                nonce.len() == NONCE_BYTES && text_outcome(r) == #[trigger] sealed_body(
                    requester_secret(self@, opt_str(requester_id)),
                    path@,
                    self@.self_id,
                    plain@,
                    nonce,
                    ts,
                ),
            within_limits(path@, self@.self_id, plain@) ==> r is Ok,
            (requester_secret(self@, opt_str(requester_id)) is Some && is_secret(
                requester_secret(self@, opt_str(requester_id))->0,
            ) && self@.self_id.len() > 0 && r is Ok) ==> body_opens_to(
                requester_secret(self@, opt_str(requester_id))->0,
                path@,
                r->Ok_0@,
                plain@,
            ) && body_sender(r->Ok_0@) == Some(self@.self_id),
    {
        let secret: Option<String> = match requester_id {
            Some(id) => self.device_secret(id),
            None => None,
        };
        let shared: Option<&str> = match &secret {
            Some(s) => Some(s.as_str()),
            None => None,
        };
        let ghost asked = requester_secret(self@, opt_str(requester_id));
        assert(opt_str(shared) == asked);
        let r: Result<String, String> = seal_body(shared, path, self.self_id.as_str(), plain);
        proof {
            let (nonce, ts) = choose|nonce: Seq<u8>, ts: i64|
                nonce.len() == NONCE_BYTES && text_outcome(r) == #[trigger] sealed_body(
                    opt_str(shared),
                    path@,
                    self@.self_id,
                    plain@,
                    nonce,
                    ts,
                );
            assert(text_outcome(r) == sealed_body(asked, path@, self@.self_id, plain@, nonce, ts));
        }
        r
    }
}

// ---- laws ----

/// A body that one device seals for another arrives: it is opened to what was sealed, on the
/// same path, once, and within the time window.
pub proof fn law_sealed_snapshot_arrives(
    receiver: SyncManagerV,
    sender_id: Seq<char>,
    secret: Seq<char>,
    path: Seq<char>,
    body: Seq<char>,
    plain: Seq<char>,
    named: Outcome<Option<Seq<char>>>,
    now: i64,
)
    requires
        secret_of(receiver.db.secrets, sender_id) == Some(secret),
        body_sender(body) == Some(sender_id),
        body_opens_to(secret, path, body, plain),
        fresh_body(body, receiver.seen, now),
    ensures
        decoded(receiver, body, path, named, now).0 == Outcome::<Seq<char>>::Ok(plain),
{
}

/// Once a secret is shared with a device, plain snapshots that name it are refused.
pub proof fn law_plain_snapshot_refused(
    receiver: SyncManagerV,
    sender_id: Seq<char>,
    path: Seq<char>,
    raw: Seq<char>,
    now: i64,
)
    requires
        secret_of(receiver.db.secrets, sender_id) is Some,
        body_sender(raw) is None,
    ensures
        decoded(receiver, raw, path, Ok(Some(sender_id)), now).0 is Err,
        decoded(receiver, raw, path, Ok(Some(sender_id)), now).1 == receiver.seen,
{
}

/// Both sides of a pairing end up with one secret: the one that answers stores the secret that
/// it sends back, and the one that asked takes it over.
pub proof fn law_pairing_agrees(
    asked: SyncManagerV,
    asked_at: Timestamp,
    asking: SyncManagerV,
    asking_at: Timestamp,
    offered: Option<Seq<char>>,
    fresh: Seq<char>,
)
    requires
        is_secret(fresh),
    ensures
        ({
            let secret = adopted(offered, fresh);
            let here = keyed(asked, asking.self_id, secret, asked_at);
            let there = absorbed(asking, asked.self_id, Some(secret), asking_at);
            &&& is_secret(secret)
            &&& secret_of(here.db.secrets, asking.self_id) == Some(secret)
            &&& secret_of(there.db.secrets, asked.self_id) == Some(secret)
        }),
{
    let secret = adopted(offered, fresh);
    crate::storage::secrets::law_secret_reads_back(
        asked.db.secrets,
        asking.self_id,
        secret,
        time_text(asked_at),
        asking.self_id,
    );
    crate::storage::secrets::law_secret_reads_back(
        asking.db.secrets,
        asked.self_id,
        secret,
        time_text(asking_at),
        asked.self_id,
    );
}

/// A sealed snapshot that arrived is refused whenever it comes again, on whatever path.
pub proof fn law_snapshot_arrives_once(
    receiver: SyncManagerV,
    path: Seq<char>,
    body: Seq<char>,
    named: Outcome<Option<Seq<char>>>,
    now: i64,
    again_path: Seq<char>,
    later: i64,
)
    requires
        body_sender(body) matches Some(kid) && secret_of(receiver.db.secrets, kid) is Some,
        fresh_body(body, receiver.seen, now),
    ensures
        ({
            let after = SyncManagerV {
                seen: decoded(receiver, body, path, named, now).1,
                ..receiver
            };
            decoded(after, body, again_path, named, later).0 is Err
        }),
{
    let kid = body_sender(body)->0;
    let secret = secret_of(receiver.db.secrets, kid)->0;
    let env = envelope_of(json_document(body)->Ok_0)->Ok_0;
    law_replay_refused(secret, path, env, receiver.seen, now, secret, again_path, env, later);
}

/// Two devices that share a secret show the same safety code.
pub proof fn law_safety_codes_agree(a: SyncManagerV, b: SyncManagerV)
    requires
        secret_of(a.db.secrets, b.self_id) == secret_of(b.db.secrets, a.self_id),
    ensures
        safety_code(a.db.secrets, a.self_id, b.self_id) == safety_code(
            b.db.secrets,
            b.self_id,
            a.self_id,
        ),
{
    if secret_of(a.db.secrets, b.self_id) is Some {
        law_fingerprint_symmetric(
            secret_of(a.db.secrets, b.self_id)->0,
            a.self_id,
            b.self_id,
        );
    }
}

/// The secret that is agreed is the offered one where that is usable, and the fresh one else.
pub proof fn law_offered_secret_counts(offered: Option<Seq<char>>, fresh: Seq<char>)
    ensures
        (offered matches Some(s) && is_secret(s)) ==> adopted(offered, fresh) == offered->0,
        !(offered matches Some(s) && is_secret(s)) ==> adopted(offered, fresh) == fresh,
{
}

/// A usable secret in an answer is from then on the one shared with the sender and with no other
/// device; one that is missing or not usable changes nothing.
pub proof fn law_answered_secret_counts(
    m: SyncManagerV,
    peer_id: Seq<char>,
    offered: Option<Seq<char>>,
    now: Timestamp,
    other: Seq<char>,
)
    ensures
        (offered matches Some(s) && is_secret(s)) ==> secret_of(
            absorbed(m, peer_id, offered, now).db.secrets,
            peer_id,
        ) == offered,
        !(offered matches Some(s) && is_secret(s)) ==> absorbed(m, peer_id, offered, now) == m,
        other != peer_id ==> secret_of(absorbed(m, peer_id, offered, now).db.secrets, other)
            == secret_of(m.db.secrets, other),
        absorbed(m, peer_id, offered, now).db.devices == m.db.devices,
        absorbed(m, peer_id, offered, now).inbound == m.inbound,
{
    if offered is Some {
        crate::storage::secrets::law_secret_reads_back(
            m.db.secrets,
            peer_id,
            offered->0,
            time_text(now),
            other,
        );
    }
}

/// A secret that replaces another is shared with that device from then on, and with no other.
pub proof fn law_keyed_secret_is_shared(
    m: SyncManagerV,
    peer_id: Seq<char>,
    secret: Seq<char>,
    now: Timestamp,
    other: Seq<char>,
)
    ensures
        secret_of(keyed(m, peer_id, secret, now).db.secrets, peer_id) == Some(secret),
        other != peer_id ==> secret_of(keyed(m, peer_id, secret, now).db.secrets, other)
            == secret_of(m.db.secrets, other),
        keyed(m, peer_id, secret, now) == (SyncManagerV {
            db: SyncDbV { secrets: keyed(m, peer_id, secret, now).db.secrets, ..m.db },
            ..m
        }),
{
    crate::storage::secrets::law_secret_reads_back(
        m.db.secrets,
        peer_id,
        secret,
        time_text(now),
        other,
    );
}

/// A plain snapshot of a sender with whom no secret is shared, or that names none, is taken as it
/// is; what is no snapshot is refused. Neither uses up a nonce.
pub proof fn law_plain_snapshot_is_taken(
    receiver: SyncManagerV,
    path: Seq<char>,
    raw: Seq<char>,
    sender: Outcome<Option<Seq<char>>>,
    now: i64,
)
    requires
        body_sender(raw) is None,
    ensures
        sender is Err ==> decoded(receiver, raw, path, sender, now).0 is Err,
        sender == Ok::<Option<Seq<char>>, Seq<char>>(None) ==> decoded(
            receiver,
            raw,
            path,
            sender,
            now,
        ).0 == Outcome::<Seq<char>>::Ok(raw),
        (sender matches Ok(Some(id)) && secret_of(receiver.db.secrets, id) is None) ==> decoded(
            receiver,
            raw,
            path,
            sender,
            now,
        ).0 == Outcome::<Seq<char>>::Ok(raw),
        decoded(receiver, raw, path, sender, now).1 == receiver.seen,
{
}

/// A sealed body of a sender with whom no secret is shared is refused, whatever it holds.
pub proof fn law_unknown_seal_is_refused(
    receiver: SyncManagerV,
    path: Seq<char>,
    raw: Seq<char>,
    sender: Outcome<Option<Seq<char>>>,
    now: i64,
)
    requires
        body_sender(raw) matches Some(kid) && secret_of(receiver.db.secrets, kid) is None,
    ensures
        decoded(receiver, raw, path, sender, now).0 is Err,
{
}

/// What is sent to whoever asks is sealed with the secret shared with that device, and with none
/// where nobody is named.
pub proof fn law_answer_is_sealed_for_the_asker(m: SyncManagerV, id: Seq<char>)
    ensures
        requester_secret(m, Some(id)) == secret_of(m.db.secrets, id),
        requester_secret(m, None) is None,
{
}

/// The secret in an answer is the text that it holds under its key.
pub proof fn law_answer_holds_the_secret(resp: serde_json::Value)
    ensures
        json_texts(resp).contains_key("device_secret"@) ==> offered_secret(resp) == Some(
            json_texts(resp)["device_secret"@],
        ),
        !json_texts(resp).contains_key("device_secret"@) ==> offered_secret(resp) is None,
{
}

} // verus!
