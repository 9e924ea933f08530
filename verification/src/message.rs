//! Chat messages. A message carries a fresh UUID, the sender's public key,
//! the body, and a signature over the canonical serialization of those
//! three fields; a message emitted by a peer therefore verifies under that
//! peer's key wherever it arrives unchanged.

use vstd::prelude::*;
use vstd::string::StringSliceAdditionalSpecFns;
use vstd::string::StrSliceExecFns;
use crate::codec::{
    enc_bytes, enc_str, enc_sym, push_lp, parse_lp, string_from_utf8, spec_parse_lp, SEP_BYTES,
    SEP_STR, SEP_SYM, REC_OPEN, REC_CLOSE,
};
use crate::crypto::{sig_of, vk_of, verify_ok, PeerKey, Signature, SigningKey};
use crate::ident::{fresh_uuid, MessageId, UUID_LEN};
use crate::keymap::bytes_eq;

verus! {

/// The record label of a serialized message, ASCII `message`.
pub open spec fn label_message() -> Seq<u8> {
    seq![109u8, 101u8, 115u8, 115u8, 97u8, 103u8, 101u8]
}

fn label_message_vec() -> (r: Vec<u8>)
    ensures
        r@ == label_message(),
{
    let r: Vec<u8> = vec![109u8, 101u8, 115u8, 115u8, 97u8, 103u8, 101u8];
    proof {
        assert(r@ =~= label_message());
    }
    r
}

/// The canonical bytes that a message's signature covers: the encoded id,
/// sender key and body, in that order.
pub open spec fn spec_fields_bytes(id: Seq<u8>, sender: Seq<u8>, msg: Seq<char>) -> Seq<u8> {
    enc_bytes(id) + enc_bytes(sender) + enc_str(msg)
}

/// The serialization of a message: a record labelled `message` holding the
/// id, the sender key, the body and the signature.
pub open spec fn spec_enc_message(
    id: Seq<u8>,
    sender: Seq<u8>,
    msg: Seq<char>,
    sig: Seq<u8>,
) -> Seq<u8> {
    seq![REC_OPEN] + enc_sym(label_message()) + enc_bytes(id) + enc_bytes(sender) + enc_str(msg)
        + enc_bytes(sig) + seq![REC_CLOSE]
}

/// What reading a serialized message from `s` yields: the id, sender key,
/// body and signature, with every length and the record shape checked and
/// the whole input consumed.
pub open spec fn spec_parse_message(s: Seq<u8>) -> Option<(Seq<u8>, Seq<u8>, Seq<char>, Seq<u8>)> {
    if s.len() < 1 || s[0] != REC_OPEN {
        None
    } else {
        match spec_parse_lp(s, 1, SEP_SYM) {
            Some((label, i1)) => if label != label_message() {
                None
            } else {
                match spec_parse_lp(s, i1, SEP_BYTES) {
                    Some((id, i2)) => if id.len() != UUID_LEN {
                        None
                    } else {
                        match spec_parse_lp(s, i2, SEP_BYTES) {
                            Some((vk, i3)) => if vk.len() != 32 {
                                None
                            } else {
                                match spec_parse_lp(s, i3, SEP_STR) {
                                    Some((mb, i4)) => if !vstd::utf8::valid_utf8(mb) {
                                        None
                                    } else {
                                        match spec_parse_lp(s, i4, SEP_BYTES) {
                                            Some((sig, i5)) => if sig.len() == 64 && i5 + 1
                                                == s.len() && s[i5] == REC_CLOSE {
                                                Some(
                                                    (id, vk, vstd::utf8::decode_utf8(mb), sig),
                                                )
                                            } else {
                                                None
                                            },
                                            None => None,
                                        }
                                    },
                                    None => None,
                                }
                            },
                            None => None,
                        }
                    },
                    None => None,
                }
            },
            None => None,
        }
    }
}

/// A signed chat message.
#[derive(Clone, Debug)]
pub struct Message {
    pub id: MessageId,
    pub sender: PeerKey,
    pub msg: String,
    pub signature: Signature,
}

impl Message {
    /// A well-formed message holds byte strings of the right lengths.
    pub open spec fn wf(&self) -> bool {
        self.id.wf() && self.sender.wf() && self.signature.wf()
    }

    /// Whether this message's signature verifies over its canonical field
    /// bytes under the public key `k`.
    pub open spec fn valid_under(&self, k: Seq<u8>) -> bool {
        verify_ok(k, spec_fields_bytes(self.id@, self.sender@, self.msg@), self.signature@)
    }

    /// The canonical serialization of the signed fields.
    pub fn fields_to_bytes(id: &MessageId, sender: &PeerKey, msg: &String) -> (r: Vec<u8>)
        ensures
            r@ == spec_fields_bytes(id@, sender@, msg@),
    {
        let mut out: Vec<u8> = Vec::new();
        push_lp(&id.bytes, SEP_BYTES, &mut out);
        push_lp(&sender.bytes, SEP_BYTES, &mut out);
        let mb = msg.as_str().as_bytes_vec();
        push_lp(&mb, SEP_STR, &mut out);
        proof {
            assert(out@ =~= spec_fields_bytes(id@, sender@, msg@));
        }
        out
    }

    /// Builds a message under a fresh id and signs it with `signing_key`.
    /// When `sender` is the key that `signing_key` derives, the result
    /// verifies under `sender`.
    pub fn new(sender: PeerKey, msg: String, signing_key: &SigningKey) -> (r: Message)
        requires
            sender.wf(),
            signing_key.wf(),
        ensures
            r.wf(),
            r.sender@ == sender@,
            r.msg@ == msg@,
            r.signature@ == sig_of(
                signing_key@,
                spec_fields_bytes(r.id@, sender@, msg@),
            ),
            r.valid_under(vk_of(signing_key@)),
    {
        let id = fresh_uuid();
        let bytes = Self::fields_to_bytes(&id, &sender, &msg);
        let signature = signing_key.sign(&bytes);
        Message { id, sender, msg, signature }
    }

    /// Wraps already-signed fields under a fresh id. The signature is taken
    /// as given; nothing is claimed of its validity.
    pub fn new_signed(sender: PeerKey, msg: String, signature: Signature) -> (r: Message)
        requires
            sender.wf(),
            signature.wf(),
        ensures
            r.wf(),
            r.sender@ == sender@,
            r.msg@ == msg@,
            r.signature@ == signature@,
    {
        Message { id: fresh_uuid(), sender, msg, signature }
    }

    /// Re-serializes the fields and strictly verifies the signature under
    /// `key`; deterministic.
    pub fn verify_strict(&self, key: &PeerKey) -> (r: bool)
        requires
            key.wf(),
            self.signature.wf(),
        ensures
            r == self.valid_under(key@),
    {
        let bytes = Self::fields_to_bytes(&self.id, &self.sender, &self.msg);
        crate::crypto::verify_strict_bytes(key, &bytes, &self.signature)
    }

    /// Serializes the message as a labelled record.
    pub fn serialize(&self) -> (r: Vec<u8>)
        ensures
            r@ == spec_enc_message(self.id@, self.sender@, self.msg@, self.signature@),
    {
        let mut out: Vec<u8> = Vec::new();
        out.push(REC_OPEN);
        let label = label_message_vec();
        push_lp(&label, SEP_SYM, &mut out);
        push_lp(&self.id.bytes, SEP_BYTES, &mut out);
        push_lp(&self.sender.bytes, SEP_BYTES, &mut out);
        let mb = self.msg.as_str().as_bytes_vec();
        push_lp(&mb, SEP_STR, &mut out);
        push_lp(&self.signature.bytes, SEP_BYTES, &mut out);
        out.push(REC_CLOSE);
        proof {
            assert(out@ =~= spec_enc_message(self.id@, self.sender@, self.msg@, self.signature@));
        }
        out
    }

    /// Reads a message back from its serialization; fails exactly where the
    /// input is not such a serialization.
    pub fn deserialize(bytes: &Vec<u8>) -> (r: Option<Message>)
        ensures
            match r {
                Some(m) => spec_parse_message(bytes@) == Some(
                    (m.id@, m.sender@, m.msg@, m.signature@),
                ) && m.wf(),
                None => spec_parse_message(bytes@) is None,
            },
    {
        if bytes.len() < 1 || bytes[0] != REC_OPEN {
            return None;
        }
        let (label, i1) = match parse_lp(bytes, 1, SEP_SYM) {
            Some(x) => x,
            None => { return None; },
        };
        let expected = label_message_vec();
        if !bytes_eq(&label, &expected) {
            return None;
        }
        let (id, i2) = match parse_lp(bytes, i1, SEP_BYTES) {
            Some(x) => x,
            None => { return None; },
        };
        if id.len() != UUID_LEN {
            return None;
        }
        let (vk, i3) = match parse_lp(bytes, i2, SEP_BYTES) {
            Some(x) => x,
            None => { return None; },
        };
        if vk.len() != 32 {
            return None;
        }
        let (mb, i4) = match parse_lp(bytes, i3, SEP_STR) {
            Some(x) => x,
            None => { return None; },
        };
        let msg = match string_from_utf8(mb) {
            Some(s) => s,
            None => { return None; },
        };
        let (sig, i5) = match parse_lp(bytes, i4, SEP_BYTES) {
            Some(x) => x,
            None => { return None; },
        };
        if !(sig.len() == 64 && i5 < bytes.len() && i5 + 1 == bytes.len() && bytes[i5]
            == REC_CLOSE) {
            return None;
        }
        Some(
            Message {
                id: MessageId { bytes: id },
                sender: PeerKey { bytes: vk },
                msg,
                signature: Signature { bytes: sig },
            },
        )
    }
}

/// Law: a message emitted by the peer whose signing key derives `k` — its
/// sender field is `k` and its signature was produced over its canonical
/// field bytes by that key — verifies strictly under `k` wherever it is
/// received unchanged.
pub proof fn lemma_emitted_message_verifies(m: Message, sk: Seq<u8>)
    requires
        m.sender@ == vk_of(sk),
        m.signature@ == sig_of(sk, spec_fields_bytes(m.id@, m.sender@, m.msg@)),
        verify_ok(
            vk_of(sk),
            spec_fields_bytes(m.id@, m.sender@, m.msg@),
            sig_of(sk, spec_fields_bytes(m.id@, m.sender@, m.msg@)),
        ),
    ensures
        m.valid_under(m.sender@),
{
}

/// Law: decoding undoes encoding for messages.
pub proof fn lemma_message_round_trip(id: Seq<u8>, sender: Seq<u8>, msg: Seq<char>, sig: Seq<u8>)
    requires
        id.len() == UUID_LEN,
        sender.len() == 32,
        sig.len() == 64,
    ensures
        spec_parse_message(spec_enc_message(id, sender, msg, sig)) == Some(
            (id, sender, msg, sig),
        ),
{
    broadcast use vstd::utf8::encode_utf8_valid_utf8;
    broadcast use vstd::utf8::encode_utf8_decode_utf8;

    let s = spec_enc_message(id, sender, msg, sig);
    let e0 = enc_sym(label_message());
    let e1 = enc_bytes(id);
    let e2 = enc_bytes(sender);
    let e3 = enc_str(msg);
    let e4 = enc_bytes(sig);
    let o1 = 1 + e0.len() as int;
    let o2 = o1 + e1.len() as int;
    let o3 = o2 + e2.len() as int;
    let o4 = o3 + e3.len() as int;
    let o5 = o4 + e4.len() as int;
    assert(s.len() == o5 + 1);
    assert(s[0] == REC_OPEN);
    assert(s.subrange(1, o1) =~= e0);
    assert(s.subrange(o1, o2) =~= e1);
    assert(s.subrange(o2, o3) =~= e2);
    assert(s.subrange(o3, o4) =~= e3);
    assert(s.subrange(o4, o5) =~= e4);
    assert(s[o5] == REC_CLOSE);
    crate::codec::lemma_parse_lp_exact(s, 1, label_message(), SEP_SYM);
    crate::codec::lemma_parse_lp_exact(s, o1, id, SEP_BYTES);
    crate::codec::lemma_parse_lp_exact(s, o2, sender, SEP_BYTES);
    crate::codec::lemma_parse_lp_exact(s, o3, vstd::utf8::encode_utf8(msg), SEP_STR);
    crate::codec::lemma_parse_lp_exact(s, o4, sig, SEP_BYTES);
    assert(REC_CLOSE != REC_OPEN);
}

} // verus!
