//! Profiles and the local persona. A profile carries the peer's public key,
//! a username and an optional avatar; it is broadcast by value and fetched
//! by remotes through the persona capability.

use vstd::prelude::*;
use vstd::string::StringSliceAdditionalSpecFns;
use vstd::string::StrSliceExecFns;
use crate::codec::{
    enc_bytes, enc_str, enc_sym, push_lp, parse_lp, string_from_utf8, spec_parse_lp,
    lemma_dec_digits_shape, SEP_BYTES, SEP_STR, SEP_SYM, REC_OPEN, REC_CLOSE,
};
use crate::crypto::PeerKey;
use crate::keymap::bytes_eq;

verus! {

/// ASCII `f`, marking an absent avatar.
pub const OPT_NONE: u8 = 102;

/// The record label of a serialized profile, ASCII `profile`.
pub open spec fn label_profile() -> Seq<u8> {
    seq![112u8, 114u8, 111u8, 102u8, 105u8, 108u8, 101u8]
}

fn label_profile_vec() -> (r: Vec<u8>)
    ensures
        r@ == label_profile(),
{
    let r: Vec<u8> = vec![112u8, 114u8, 111u8, 102u8, 105u8, 108u8, 101u8];
    proof {
        assert(r@ =~= label_profile());
    }
    r
}

/// The encoding of an optional string: `f` when absent, the string when
/// present. A present string opens with a decimal digit, so the two cases
/// cannot be mistaken for one another.
pub open spec fn enc_opt_str(a: Option<Seq<char>>) -> Seq<u8> {
    match a {
        None => seq![OPT_NONE],
        Some(s) => enc_str(s),
    }
}

/// The serialization of a profile: a record labelled `profile` holding the
/// public key, the username and the optional avatar.
pub open spec fn spec_enc_profile(
    vkey: Seq<u8>,
    username: Seq<char>,
    avatar: Option<Seq<char>>,
) -> Seq<u8> {
    seq![REC_OPEN] + enc_sym(label_profile()) + enc_bytes(vkey) + enc_str(username) + enc_opt_str(
        avatar,
    ) + seq![REC_CLOSE]
}

/// What reading an optional string at `i` yields.
pub open spec fn spec_parse_opt_str(s: Seq<u8>, i: int) -> Option<(Option<Seq<char>>, int)> {
    if 0 <= i < s.len() && s[i] == OPT_NONE {
        Some((None, i + 1))
    } else {
        match spec_parse_lp(s, i, SEP_STR) {
            Some((b, j)) => if vstd::utf8::valid_utf8(b) {
                Some((Some(vstd::utf8::decode_utf8(b)), j))
            } else {
                None
            },
            None => None,
        }
    }
}

/// What reading a serialized profile yields, the whole input consumed.
pub open spec fn spec_parse_profile(s: Seq<u8>) -> Option<(Seq<u8>, Seq<char>, Option<Seq<char>>)> {
    if s.len() < 1 || s[0] != REC_OPEN {
        None
    } else {
        match spec_parse_lp(s, 1, SEP_SYM) {
            Some((label, i1)) => if label != label_profile() {
                None
            } else {
                match spec_parse_lp(s, i1, SEP_BYTES) {
                    Some((vk, i2)) => if vk.len() != 32 {
                        None
                    } else {
                        match spec_parse_lp(s, i2, SEP_STR) {
                            Some((ub, i3)) => if !vstd::utf8::valid_utf8(ub) {
                                None
                            } else {
                                match spec_parse_opt_str(s, i3) {
                                    Some((avatar, i4)) => if i4 + 1 == s.len() && i4 < s.len()
                                        && s[i4] == REC_CLOSE {
                                        Some((vk, vstd::utf8::decode_utf8(ub), avatar))
                                    } else {
                                        None
                                    },
                                    None => None,
                                }
                            },
                            None => None,
                        }
                    },
                    None => None,
                }
            },
            None => None,
        }
    }
}

/// A peer's profile.
#[derive(Clone, Debug)]
pub struct Profile {
    pub vkey: PeerKey,
    pub username: String,
    pub avatar: Option<String>,
}

impl Profile {
    /// A well-formed profile names its peer by a full public key.
    pub open spec fn wf(&self) -> bool {
        self.vkey.wf()
    }

    /// The avatar as a sequence of characters, when one is set.
    pub open spec fn spec_avatar(&self) -> Option<Seq<char>> {
        match self.avatar {
            None => None,
            Some(a) => Some(a@),
        }
    }

    /// Assembles a profile.
    pub fn new(vkey: PeerKey, username: String, avatar: Option<String>) -> (r: Profile)
        ensures
            r.vkey@ == vkey@,
            r.username@ == username@,
            r.avatar == avatar,
    {
        Profile { vkey, username, avatar }
    }

    /// Serializes the profile as a labelled record.
    pub fn serialize(&self) -> (r: Vec<u8>)
        ensures
            r@ == spec_enc_profile(self.vkey@, self.username@, self.spec_avatar()),
    {
        let mut out: Vec<u8> = Vec::new();
        out.push(REC_OPEN);
        let label = label_profile_vec();
        push_lp(&label, SEP_SYM, &mut out);
        push_lp(&self.vkey.bytes, SEP_BYTES, &mut out);
        let ub = self.username.as_str().as_bytes_vec();
        push_lp(&ub, SEP_STR, &mut out);
        match &self.avatar {
            None => out.push(OPT_NONE),
            Some(a) => {
                let ab = a.as_str().as_bytes_vec();
                push_lp(&ab, SEP_STR, &mut out);
            },
        }
        out.push(REC_CLOSE);
        proof {
            assert(out@ =~= spec_enc_profile(self.vkey@, self.username@, self.spec_avatar()));
        }
        out
    }

    /// Reads a profile back from its serialization; fails exactly where the
    /// input is not such a serialization.
    pub fn deserialize(bytes: &Vec<u8>) -> (r: Option<Profile>)
        ensures
            match r {
                Some(p) => spec_parse_profile(bytes@) == Some(
                    (p.vkey@, p.username@, p.spec_avatar()),
                ) && p.wf(),
                None => spec_parse_profile(bytes@) is None,
            },
    {
        if bytes.len() < 1 || bytes[0] != REC_OPEN {
            return None;
        }
        let (label, i1) = match parse_lp(bytes, 1, SEP_SYM) {
            Some(x) => x,
            None => { return None; },
        };
        let expected = label_profile_vec();
        if !bytes_eq(&label, &expected) {
            return None;
        }
        let (vk, i2) = match parse_lp(bytes, i1, SEP_BYTES) {
            Some(x) => x,
            None => { return None; },
        };
        if vk.len() != 32 {
            return None;
        }
        let (ub, i3) = match parse_lp(bytes, i2, SEP_STR) {
            Some(x) => x,
            None => { return None; },
        };
        let username = match string_from_utf8(ub) {
            Some(s) => s,
            None => { return None; },
        };
        let (avatar, i4): (Option<String>, usize) = if i3 < bytes.len() && bytes[i3] == OPT_NONE {
            (None, i3 + 1)
        } else {
            let (ab, j) = match parse_lp(bytes, i3, SEP_STR) {
                Some(x) => x,
                None => { return None; },
            };
            match string_from_utf8(ab) {
                Some(a) => (Some(a), j),
                None => { return None; },
            }
        };
        if !(i4 < bytes.len() && i4 + 1 == bytes.len() && bytes[i4] == REC_CLOSE) {
            return None;
        }
        Some(Profile { vkey: PeerKey { bytes: vk }, username, avatar })
    }
}

/// Law: decoding undoes encoding for profiles.
pub proof fn lemma_profile_round_trip(vkey: Seq<u8>, username: Seq<char>, avatar: Option<Seq<char>>)
    requires
        vkey.len() == 32,
    ensures
        spec_parse_profile(spec_enc_profile(vkey, username, avatar)) == Some(
            (vkey, username, avatar),
        ),
{
    broadcast use vstd::utf8::encode_utf8_valid_utf8;
    broadcast use vstd::utf8::encode_utf8_decode_utf8;

    let s = spec_enc_profile(vkey, username, avatar);
    let e0 = enc_sym(label_profile());
    let e1 = enc_bytes(vkey);
    let e2 = enc_str(username);
    let e3 = enc_opt_str(avatar);
    let o1 = 1 + e0.len() as int;
    let o2 = o1 + e1.len() as int;
    let o3 = o2 + e2.len() as int;
    let o4 = o3 + e3.len() as int;
    assert(s.len() == o4 + 1);
    assert(s[0] == REC_OPEN);
    assert(s.subrange(1, o1) =~= e0);
    assert(s.subrange(o1, o2) =~= e1);
    assert(s.subrange(o2, o3) =~= e2);
    assert(s.subrange(o3, o4) =~= e3);
    assert(s[o4] == REC_CLOSE);
    crate::codec::lemma_parse_lp_exact(s, 1, label_profile(), SEP_SYM);
    crate::codec::lemma_parse_lp_exact(s, o1, vkey, SEP_BYTES);
    crate::codec::lemma_parse_lp_exact(s, o2, vstd::utf8::encode_utf8(username), SEP_STR);
    match avatar {
        None => {
            assert(s[o3] == OPT_NONE);
        },
        Some(a) => {
            crate::codec::lemma_parse_lp_exact(s, o3, vstd::utf8::encode_utf8(a), SEP_STR);
            lemma_dec_digits_shape(vstd::utf8::encode_utf8(a).len());
            assert(s[o3] == e3[0]);
            assert(e3[0] == crate::codec::dec_digits(vstd::utf8::encode_utf8(a).len())[0]);
            assert(s[o3] != OPT_NONE);
        },
    }
}

/// The local capability that hands the profile to remotes.
#[derive(Debug)]
pub struct Persona {
    pub profile: Profile,
}

impl Persona {
    /// Wraps a profile.
    pub fn new(profile: Profile) -> (r: Persona)
        ensures
            r.profile == profile,
    {
        Persona { profile }
    }

    /// The current profile snapshot.
    pub fn profile(&self) -> (r: &Profile)
        ensures
            r == &self.profile,
    {
        &self.profile
    }

    /// Replaces the profile; updates are whole-value.
    pub fn update_profile(&mut self, profile: Profile)
        ensures
            final(self).profile == profile,
    {
        self.profile = profile;
    }
}

} // verus!
