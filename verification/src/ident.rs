//! Identifiers: channels and messages are named by 16-byte version-4 UUIDs,
//! held here as plain byte vectors.

use vstd::prelude::*;

verus! {

/// The byte length of a UUID.
pub const UUID_LEN: usize = 16;

/// A 16-byte UUID, held as its bytes.
#[derive(Clone, Debug, PartialEq, Eq)]
pub struct UuidBytes {
    pub bytes: Vec<u8>,
}

impl View for UuidBytes {
    type V = Seq<u8>;

    open spec fn view(&self) -> Seq<u8> {
        self.bytes@
    }
}

impl UuidBytes {
    /// A well-formed identifier holds exactly the UUID's bytes.
    pub open spec fn wf(&self) -> bool {
        self@.len() == UUID_LEN
    }

    /// Wraps 16 bytes.
    pub fn from_bytes(bytes: Vec<u8>) -> (r: UuidBytes)
        requires
            bytes@.len() == UUID_LEN,
        ensures
            r@ == bytes@,
            r.wf(),
    {
        UuidBytes { bytes }
    }

    /// Whether `self` and `other` are the same identifier.
    pub fn id_eq(&self, other: &UuidBytes) -> (r: bool)
        ensures
            r == (self@ == other@),
    {
        crate::keymap::bytes_eq(&self.bytes, &other.bytes)
    }

    /// A copy of the identifier.
    pub fn dup(&self) -> (r: UuidBytes)
        ensures
            r@ == self@,
    {
        UuidBytes { bytes: crate::keymap::bytes_clone(&self.bytes) }
    }
}

/// Names a channel for its whole lifetime; doubles as the channel's swiss
/// number.
pub type ChannelId = UuidBytes;

/// Names one message.
pub type MessageId = UuidBytes;

/// The lower-case hexadecimal digit of a value below sixteen.
pub open spec fn hex_char(n: u8) -> char {
    if n < 10 {
        (48 + n) as char
    } else {
        (87 + n) as char
    }
}

/// The two hexadecimal digits of a byte, high nibble first.
pub open spec fn hex_of_byte(b: u8) -> Seq<char> {
    seq![hex_char(b / 16), hex_char(b % 16)]
}

/// The hexadecimal digits of a byte string.
pub open spec fn hex_of(bytes: Seq<u8>) -> Seq<char>
    decreases bytes.len(),
{
    if bytes.len() == 0 {
        Seq::empty()
    } else {
        hex_of(bytes.drop_last()) + hex_of_byte(bytes.last())
    }
}

/// The canonical string of a 16-byte UUID: five hexadecimal groups joined
/// by dashes.
pub open spec fn uuid_string(b: Seq<u8>) -> Seq<char> {
    hex_of(b.subrange(0, 4)) + seq!['-'] + hex_of(b.subrange(4, 6)) + seq!['-'] + hex_of(
        b.subrange(6, 8),
    ) + seq!['-'] + hex_of(b.subrange(8, 10)) + seq!['-'] + hex_of(b.subrange(10, 16))
}

/// The lower-case hexadecimal digit of a value below sixteen.
fn hex_str(n: u8) -> (r: &'static str)
    requires
        n < 16,
    ensures
        r@ == seq![hex_char(n)],
{
    proof {
        reveal_strlit("0");
        reveal_strlit("1");
        reveal_strlit("2");
        reveal_strlit("3");
        reveal_strlit("4");
        reveal_strlit("5");
        reveal_strlit("6");
        reveal_strlit("7");
        reveal_strlit("8");
        reveal_strlit("9");
        reveal_strlit("a");
        reveal_strlit("b");
        reveal_strlit("c");
        reveal_strlit("d");
        reveal_strlit("e");
        reveal_strlit("f");
    }
    match n {
        0 => "0",
        1 => "1",
        2 => "2",
        3 => "3",
        4 => "4",
        5 => "5",
        6 => "6",
        7 => "7",
        8 => "8",
        9 => "9",
        10 => "a",
        11 => "b",
        12 => "c",
        13 => "d",
        14 => "e",
        _ => "f",
    }
}

/// Appends the hexadecimal digits of the bytes of `src` in `from..to`.
fn push_hex(src: &Vec<u8>, from: usize, to: usize, out: &mut String)
    requires
        from <= to <= src@.len(),
    ensures
        final(out)@ == old(out)@ + hex_of(src@.subrange(from as int, to as int)),
{
    let mut i: usize = from;
    proof {
        assert(src@.subrange(from as int, from as int) =~= Seq::<u8>::empty());
    }
    while i < to
        invariant
            from <= i <= to <= src@.len(),
            out@ == old(out)@ + hex_of(src@.subrange(from as int, i as int)),
        decreases to - i,
    {
        let b = src[i];
        out.append(hex_str(b / 16));
        out.append(hex_str(b % 16));
        i = i + 1;
        proof {
            let sub = src@.subrange(from as int, i as int);
            assert(sub.drop_last() =~= src@.subrange(from as int, i as int - 1));
            assert(sub.last() == src@[i as int - 1]);
            assert(out@ =~= old(out)@ + hex_of(sub));
        }
    }
}

impl UuidBytes {
    /// The canonical string form of the identifier.
    pub fn to_display_string(&self) -> (r: String)
        requires
            self.wf(),
        ensures
            r@ == uuid_string(self@),
    {
        let mut out = String::new();
        push_hex(&self.bytes, 0, 4, &mut out);
        out.append("-");
        push_hex(&self.bytes, 4, 6, &mut out);
        out.append("-");
        push_hex(&self.bytes, 6, 8, &mut out);
        out.append("-");
        push_hex(&self.bytes, 8, 10, &mut out);
        out.append("-");
        push_hex(&self.bytes, 10, 16, &mut out);
        proof {
            reveal_strlit("-");
            assert(out@ =~= uuid_string(self@));
        }
        out
    }
}

/// Relies on `uuid::Uuid::new_v4`: a fresh random version-4 UUID of 16
/// bytes. Nothing more can be said of a random value.
#[verifier::external_body]
pub fn fresh_uuid() -> (r: UuidBytes)
    ensures
        r@.len() == UUID_LEN,
        r.wf(),
{
    UuidBytes { bytes: uuid::Uuid::new_v4().as_bytes().to_vec() }
}

} // verus!
