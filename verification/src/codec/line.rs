//! The line codec: a stateful splitter of CRLF-terminated frames over a
//! byte buffer, with a character encoding chosen by label and a hard
//! line-length budget on both paths.
use vstd::prelude::*;
use vstd::utf8::{encode_utf8, decode_utf8, valid_utf8, is_scalar};
use crate::encodings;
use crate::encodings::sb_opt;
use crate::error::{ProtocolError, ProtocolErrorV};
use crate::text::{
    ascii_lower, find_crlf, find_crlf_vec, str_chars, to_ascii_lower, chars_eq, char_from_u32,
    push_char, subvec,
};

verus! {

/// The character encodings the codec can carry.
#[derive(PartialEq, Eq, Structural, Clone, Copy)]
pub enum Encoding {
    Utf8,
    Iso8859_6,
    Iso8859_14,
    Iso8859_16,
    Windows1255,
    Windows1257,
    Cp437,
}

/// The forward index of a single-byte encoding.
pub open spec fn enc_forward(e: Encoding) -> Seq<u16> {
    match e {
        Encoding::Utf8 => Seq::empty(),
        Encoding::Iso8859_6 => encodings::iso_8859_6::forward_seq(),
        Encoding::Iso8859_14 => encodings::iso_8859_14::forward_seq(),
        Encoding::Iso8859_16 => encodings::iso_8859_16::forward_seq(),
        Encoding::Windows1255 => encodings::windows_1255::forward_seq(),
        Encoding::Windows1257 => encodings::windows_1257::forward_seq(),
        Encoding::Cp437 => encodings::cp437::forward_seq(),
    }
}

/// The backward lookup of a single-byte encoding.
pub open spec fn enc_backward(e: Encoding, code: u32) -> u8 {
    match e {
        Encoding::Utf8 => 0,
        Encoding::Iso8859_6 => sb_opt(
            encodings::iso_8859_6::lower_seq(),
            encodings::iso_8859_6::upper_seq(),
            encodings::iso_8859_6::page_shift(),
            encodings::iso_8859_6::page_mask(),
            code,
        ),
        Encoding::Iso8859_14 => sb_opt(
            encodings::iso_8859_14::lower_seq(),
            encodings::iso_8859_14::upper_seq(),
            encodings::iso_8859_14::page_shift(),
            encodings::iso_8859_14::page_mask(),
            code,
        ),
        Encoding::Iso8859_16 => sb_opt(
            encodings::iso_8859_16::lower_seq(),
            encodings::iso_8859_16::upper_seq(),
            encodings::iso_8859_16::page_shift(),
            encodings::iso_8859_16::page_mask(),
            code,
        ),
        Encoding::Windows1255 => sb_opt(
            encodings::windows_1255::lower_seq(),
            encodings::windows_1255::upper_seq(),
            encodings::windows_1255::page_shift(),
            encodings::windows_1255::page_mask(),
            code,
        ),
        Encoding::Windows1257 => sb_opt(
            encodings::windows_1257::lower_seq(),
            encodings::windows_1257::upper_seq(),
            encodings::windows_1257::page_shift(),
            encodings::windows_1257::page_mask(),
            code,
        ),
        Encoding::Cp437 => sb_opt(
            encodings::cp437::lower_seq(),
            encodings::cp437::upper_seq(),
            encodings::cp437::page_shift(),
            encodings::cp437::page_mask(),
            code,
        ),
    }
}

/// One byte decoded under a single-byte encoding: low bytes map to
/// themselves, assigned high bytes through the forward index, and
/// unassigned bytes to the replacement character.
pub open spec fn sb_decode_char(e: Encoding, b: u8) -> char {
    if b < 0x80 {
        b as char
    } else {
        let cp = enc_forward(e)[b - 0x80];
        if cp == 0xFFFF {
            '\u{FFFD}'
        } else if is_scalar(cp as u32) {
            (cp as u32) as char
        } else {
            '\u{FFFD}'
        }
    }
}

/// One character encoded under a single-byte encoding: low code points
/// map to themselves, the rest through the backward index, with `?` for
/// the unmappable.
pub open spec fn sb_encode_char(e: Encoding, c: char) -> u8 {
    if (c as u32) < 0x80 {
        (c as u32) as u8
    } else {
        let b = enc_backward(e, c as u32);
        if b != 0 {
            b
        } else {
            0x3F
        }
    }
}

/// What `String::from_utf8_lossy` yields on arbitrary bytes: a function
/// of the bytes alone.
pub uninterp spec fn utf8_lossy_of(bytes: Seq<u8>) -> Seq<char>;

/// The bytes a string encodes to under `e`.
pub open spec fn encode_bytes(e: Encoding, s: Seq<char>) -> Seq<u8> {
    if e == Encoding::Utf8 {
        encode_utf8(s)
    } else {
        s.map_values(|c: char| sb_encode_char(e, c))
    }
}

/// The characters a byte frame decodes to under `e`, with replacement.
pub open spec fn decode_chars(e: Encoding, bytes: Seq<u8>) -> Seq<char> {
    if e == Encoding::Utf8 {
        if valid_utf8(bytes) {
            decode_utf8(bytes)
        } else {
            utf8_lossy_of(bytes)
        }
    } else {
        bytes.map_values(|b: u8| sb_decode_char(e, b))
    }
}

/// Whether `e` can represent `c` and bring it back unchanged: under
/// UTF-8 every character; under a single-byte encoding the low code
/// points and those the backward index maps to a high byte whose
/// forward entry is the code point again.
pub open spec fn encodable_char(e: Encoding, c: char) -> bool {
    if e == Encoding::Utf8 {
        true
    } else {
        (c as u32) < 0x80 || {
            let b = enc_backward(e, c as u32);
            b >= 0x80 && enc_forward(e)[b - 0x80] as u32 == c as u32 && (c as u32) != 0xFFFF
        }
    }
}

/// The encoding a WHATWG-style label selects, if any. Labels are
/// compared ASCII case-insensitively.
pub open spec fn encoding_for_label(label: Seq<char>) -> Option<Encoding> {
    let l = ascii_lower(label);
    if l == "utf-8"@ || l == "utf8"@ || l == "unicode-1-1-utf-8"@ {
        Some(Encoding::Utf8)
    } else if l == "iso-8859-6"@ || l == "iso8859-6"@ || l == "iso88596"@ || l == "arabic"@ {
        Some(Encoding::Iso8859_6)
    } else if l == "iso-8859-14"@ || l == "iso8859-14"@ || l == "iso885914"@ {
        Some(Encoding::Iso8859_14)
    } else if l == "iso-8859-16"@ || l == "iso8859-16"@ || l == "iso885916"@ {
        Some(Encoding::Iso8859_16)
    } else if l == "windows-1255"@ || l == "cp1255"@ || l == "x-cp1255"@ {
        Some(Encoding::Windows1255)
    } else if l == "windows-1257"@ || l == "cp1257"@ || l == "x-cp1257"@ {
        Some(Encoding::Windows1257)
    } else if l == "cp437"@ || l == "ibm437"@ || l == "437"@ || l == "cspc8codepage437"@ {
        Some(Encoding::Cp437)
    } else {
        None
    }
}

/// The canonical name of each encoding.
pub open spec fn encoding_name(e: Encoding) -> Seq<char> {
    match e {
        Encoding::Utf8 => "utf-8"@,
        Encoding::Iso8859_6 => "iso-8859-6"@,
        Encoding::Iso8859_14 => "iso-8859-14"@,
        Encoding::Iso8859_16 => "iso-8859-16"@,
        Encoding::Windows1255 => "windows-1255"@,
        Encoding::Windows1257 => "windows-1257"@,
        Encoding::Cp437 => "cp437"@,
    }
}

/// The forward index entry for a high byte.
fn forward_of(e: Encoding, b: u8) -> (r: u16)
    requires
        e != Encoding::Utf8,
        b >= 0x80,
    ensures
        r == enc_forward(e)[b - 0x80],
{
    match e {
        Encoding::Utf8 => 0xFFFF,
        Encoding::Iso8859_6 => encodings::iso_8859_6::forward(b),
        Encoding::Iso8859_14 => encodings::iso_8859_14::forward(b),
        Encoding::Iso8859_16 => encodings::iso_8859_16::forward(b),
        Encoding::Windows1255 => encodings::windows_1255::forward(b),
        Encoding::Windows1257 => encodings::windows_1257::forward(b),
        Encoding::Cp437 => encodings::cp437::forward(b),
    }
}

/// The backward index entry for a code point.
fn backward_of(e: Encoding, code: u32) -> (r: u8)
    requires
        e != Encoding::Utf8,
    ensures
        r == enc_backward(e, code),
{
    match e {
        Encoding::Utf8 => 0,
        Encoding::Iso8859_6 => encodings::iso_8859_6::backward(code),
        Encoding::Iso8859_14 => encodings::iso_8859_14::backward(code),
        Encoding::Iso8859_16 => encodings::iso_8859_16::backward(code),
        Encoding::Windows1255 => encodings::windows_1255::backward(code),
        Encoding::Windows1257 => encodings::windows_1257::backward(code),
        Encoding::Cp437 => encodings::cp437::backward(code),
    }
}

/// Relies on alloc's `String::from_utf8_lossy` (with `into_owned` to
/// detach the result): valid UTF-8 decodes losslessly; any input gives
/// a result that depends on the bytes alone.
#[verifier::external_body]
fn utf8_lossy(v: &Vec<u8>) -> (r: String)
    ensures
        r@ == utf8_lossy_of(v@),
        valid_utf8(v@) ==> r@ == decode_utf8(v@),
{
    String::from_utf8_lossy(v.as_slice()).into_owned()
}

/// A CRLF-framed line codec over a growable byte buffer.
pub struct LineCodec {
    pub encoding: Encoding,
    pub next_index: usize,
    pub max_length: usize,
}

impl LineCodec {
    /// A codec for the encoding `label` names, with the given line
    /// budget; an unknown label is refused.
    pub fn new(label: &str, max_length: usize) -> (r: Result<LineCodec, ProtocolError>)
        requires
            max_length >= 2,
        ensures
            match r {
                Ok(c) => encoding_for_label(label@) == Some(c.encoding) && c.next_index == 0
                    && c.max_length == max_length,
                Err(e) => encoding_for_label(label@) is None && e@
                    == ProtocolErrorV::UnsupportedEncoding(label@),
            },
    {
        let lower = to_ascii_lower(&str_chars(label));
        let enc: Option<Encoding> = if chars_eq(&lower, &str_chars("utf-8")) || chars_eq(
            &lower,
            &str_chars("utf8"),
        ) || chars_eq(&lower, &str_chars("unicode-1-1-utf-8")) {
            Some(Encoding::Utf8)
        } else if chars_eq(&lower, &str_chars("iso-8859-6")) || chars_eq(
            &lower,
            &str_chars("iso8859-6"),
        ) || chars_eq(&lower, &str_chars("iso88596")) || chars_eq(&lower, &str_chars("arabic")) {
            Some(Encoding::Iso8859_6)
        } else if chars_eq(&lower, &str_chars("iso-8859-14")) || chars_eq(
            &lower,
            &str_chars("iso8859-14"),
        ) || chars_eq(&lower, &str_chars("iso885914")) {
            Some(Encoding::Iso8859_14)
        } else if chars_eq(&lower, &str_chars("iso-8859-16")) || chars_eq(
            &lower,
            &str_chars("iso8859-16"),
        ) || chars_eq(&lower, &str_chars("iso885916")) {
            Some(Encoding::Iso8859_16)
        } else if chars_eq(&lower, &str_chars("windows-1255")) || chars_eq(
            &lower,
            &str_chars("cp1255"),
        ) || chars_eq(&lower, &str_chars("x-cp1255")) {
            Some(Encoding::Windows1255)
        } else if chars_eq(&lower, &str_chars("windows-1257")) || chars_eq(
            &lower,
            &str_chars("cp1257"),
        ) || chars_eq(&lower, &str_chars("x-cp1257")) {
            Some(Encoding::Windows1257)
        } else if chars_eq(&lower, &str_chars("cp437")) || chars_eq(&lower, &str_chars("ibm437"))
            || chars_eq(&lower, &str_chars("437")) || chars_eq(
            &lower,
            &str_chars("cspc8codepage437"),
        ) {
            Some(Encoding::Cp437)
        } else {
            None
        };
        match enc {
            Some(encoding) => Ok(LineCodec { encoding, next_index: 0, max_length }),
            None => Err(ProtocolError::UnsupportedEncoding(label.to_owned())),
        }
    }

    /// The canonical name of the codec's encoding.
    pub fn name(&self) -> (r: &'static str)
        ensures
            r@ == encoding_name(self.encoding),
    {
        match self.encoding {
            Encoding::Utf8 => "utf-8",
            Encoding::Iso8859_6 => "iso-8859-6",
            Encoding::Iso8859_14 => "iso-8859-14",
            Encoding::Iso8859_16 => "iso-8859-16",
            Encoding::Windows1255 => "windows-1255",
            Encoding::Windows1257 => "windows-1257",
            Encoding::Cp437 => "cp437",
        }
    }

    /// Decodes one frame of `bytes` into text.
    fn decode_frame(&self, bytes: &Vec<u8>) -> (r: String)
        ensures
            r@ == decode_chars(self.encoding, bytes@),
    {
        match self.encoding {
            Encoding::Utf8 => utf8_lossy(bytes),
            _ => {
                let mut out = String::new();
                let mut i: usize = 0;
                let ghost spec_out = decode_chars(self.encoding, bytes@);
                proof {
                    assert(spec_out.len() == bytes@.len());
                }
                while i < bytes.len()
                    invariant
                        i <= bytes@.len(),
                        self.encoding != Encoding::Utf8,
                        spec_out == decode_chars(self.encoding, bytes@),
                        spec_out.len() == bytes@.len(),
                        out@ == spec_out.subrange(0, i as int),
                    decreases bytes@.len() - i,
                {
                    let b = bytes[i];
                    let c: char;
                    if b < 0x80 {
                        c = match char_from_u32(b as u32) {
                            Some(x) => x,
                            None => '\u{FFFD}',
                        };
                        proof {
                            vstd::utf8::char_u32_cast(b as char, b as u32);
                        }
                    } else {
                        let cp = forward_of(self.encoding, b);
                        if cp == 0xFFFF {
                            c = '\u{FFFD}';
                        } else {
                            c = match char_from_u32(cp as u32) {
                                Some(x) => x,
                                None => '\u{FFFD}',
                            };
                        }
                    }
                    push_char(&mut out, c);
                    i = i + 1;
                    proof {
                        assert(c == sb_decode_char(self.encoding, bytes@[i - 1]));
                        assert(out@ =~= spec_out.subrange(0, i as int));
                    }
                }
                proof {
                    assert(out@ =~= spec_out);
                }
                out
            },
        }
    }

    /// Encodes text into the bytes of one frame payload.
    fn encode_frame(&self, item: &str) -> (r: Vec<u8>)
        ensures
            r@ == encode_bytes(self.encoding, item@),
    {
        match self.encoding {
            Encoding::Utf8 => item.as_bytes_vec(),
            _ => {
                let chars = str_chars(item);
                let mut out: Vec<u8> = Vec::new();
                let ghost spec_out = encode_bytes(self.encoding, item@);
                proof {
                    assert(spec_out.len() == chars@.len());
                }
                let mut i: usize = 0;
                while i < chars.len()
                    invariant
                        i <= chars@.len(),
                        self.encoding != Encoding::Utf8,
                        chars@ == item@,
                        spec_out == encode_bytes(self.encoding, item@),
                        spec_out.len() == chars@.len(),
                        out@ == spec_out.subrange(0, i as int),
                    decreases chars@.len() - i,
                {
                    let c = chars[i];
                    let u: u32 = c as u32;
                    let b: u8;
                    if u < 0x80 {
                        b = u as u8;
                    } else {
                        let raw = backward_of(self.encoding, u);
                        if raw != 0 {
                            b = raw;
                        } else {
                            b = 0x3F;
                        }
                    }
                    out.push(b);
                    i = i + 1;
                    proof {
                        assert(b == sb_encode_char(self.encoding, chars@[i - 1]));
                        assert(out@ =~= spec_out.subrange(0, i as int));
                    }
                }
                proof {
                    assert(out@ =~= spec_out);
                }
                out
            },
        }
    }

    /// Tries to take one CRLF-terminated frame off the front of `src`.
    /// With no terminator in the window the call asks for more bytes,
    /// unless the buffer has already outgrown the budget, which clears
    /// it and fails; on a hit the frame is consumed, terminator
    /// included, and decoded.
    pub fn decode(&mut self, src: &mut Vec<u8>) -> (r: Result<Option<String>, ProtocolError>)
        ensures
            ({
                let buf = old(src)@;
                let window = if old(self).max_length + 1 < buf.len() {
                    old(self).max_length + 1
                } else {
                    buf.len() as int
                };
                &&& final(self).encoding == old(self).encoding
                &&& final(self).max_length == old(self).max_length
                &&& if buf.len() == 0 {
                    r == Ok::<Option<String>, ProtocolError>(None) && final(src)@ == buf
                        && final(self).next_index == old(self).next_index
                } else {
                    match find_crlf(buf, old(self).next_index as int, window) {
                        Some(i) => {
                            &&& match r {
                                Ok(Some(s)) => s@ == decode_chars(
                                    old(self).encoding,
                                    buf.subrange(0, i),
                                ),
                                _ => false,
                            }
                            &&& final(src)@ == buf.subrange(i + 2, buf.len() as int)
                            &&& final(self).next_index == 0
                        },
                        None => {
                            if buf.len() > old(self).max_length {
                                &&& r == Err::<Option<String>, ProtocolError>(
                                    ProtocolError::MaxLineLengthExceeded,
                                )
                                &&& final(src)@ == Seq::<u8>::empty()
                                &&& final(self).next_index == 0
                            } else {
                                &&& r == Ok::<Option<String>, ProtocolError>(None)
                                &&& final(src)@ == buf
                                &&& final(self).next_index == buf.len()
                            }
                        },
                    }
                }
            }),
    {
        if src.len() == 0 {
            return Ok(None);
        }
        let read_to: usize = if self.max_length < src.len() {
            self.max_length + 1
        } else {
            src.len()
        };
        match find_crlf_vec(src, self.next_index, read_to) {
            Some(i) => {
                let frame = subvec(src, 0, i);
                let rest = subvec(src, i + 2, src.len());
                *src = rest;
                self.next_index = 0;
                let text = self.decode_frame(&frame);
                Ok(Some(text))
            },
            None => {
                if src.len() > self.max_length {
                    *src = Vec::new();
                    self.next_index = 0;
                    proof {
                        assert(src@ =~= Seq::<u8>::empty());
                    }
                    Err(ProtocolError::MaxLineLengthExceeded)
                } else {
                    self.next_index = src.len();
                    Ok(None)
                }
            },
        }
    }

    /// Encodes `item`, cuts it at the first embedded CRLF, refuses it
    /// when the payload would overflow the budget, and otherwise
    /// appends the payload and a terminator to `dst`.
    pub fn encode(&mut self, item: String, dst: &mut Vec<u8>) -> (r: Result<(), ProtocolError>)
        requires
            old(self).max_length >= 2,
        ensures
            *final(self) == *old(self),
            ({
                let bytes = encode_bytes(old(self).encoding, item@);
                let payload = match find_crlf(bytes, 0, bytes.len() as int) {
                    Some(n) => bytes.subrange(0, n),
                    None => bytes,
                };
                if payload.len() > old(self).max_length - 2 {
                    r == Err::<(), ProtocolError>(ProtocolError::MaxLineLengthExceeded)
                        && final(dst)@ == old(dst)@
                } else {
                    r == Ok::<(), ProtocolError>(()) && final(dst)@ == old(dst)@ + payload + seq![
                        13u8,
                        10u8,
                    ]
                }
            }),
    {
        let bytes = self.encode_frame(item.as_str());
        let payload = match find_crlf_vec(&bytes, 0, bytes.len()) {
            Some(n) => subvec(&bytes, 0, n),
            None => bytes,
        };
        if payload.len() > self.max_length - 2 {
            return Err(ProtocolError::MaxLineLengthExceeded);
        }
        let ghost dst0 = dst@;
        let mut i: usize = 0;
        proof {
            assert(dst@ =~= dst0 + payload@.subrange(0, 0));
        }
        while i < payload.len()
            invariant
                i <= payload@.len(),
                dst@ == dst0 + payload@.subrange(0, i as int),
            decreases payload@.len() - i,
        {
            dst.push(payload[i]);
            i = i + 1;
            proof {
                assert(dst@ =~= dst0 + payload@.subrange(0, i as int));
            }
        }
        dst.push(13);
        dst.push(10);
        proof {
            assert(payload@.subrange(0, payload@.len() as int) =~= payload@);
            assert(dst@ =~= dst0 + payload@ + seq![13u8, 10u8]);
        }
        Ok(())
    }
}

/// Every encoding spends at least one byte per character.
pub proof fn lemma_encode_bytes_len(e: Encoding, s: Seq<char>)
    ensures
        encode_bytes(e, s).len() >= s.len(),
    decreases s.len(),
{
    if e == Encoding::Utf8 {
        if s.len() > 0 {
            lemma_encode_bytes_len(e, s.drop_first());
            vstd::utf8::char_is_scalar(s[0]);
        }
    }
}

/// Decoding inverts encoding on every string the encoding can
/// represent.
pub proof fn lemma_codec_roundtrip(e: Encoding, s: Seq<char>)
    requires
        forall|i: int| 0 <= i < s.len() ==> encodable_char(e, #[trigger] s[i]),
    ensures
        decode_chars(e, encode_bytes(e, s)) == s,
{
    if e == Encoding::Utf8 {
        vstd::utf8::encode_utf8_valid_utf8(s);
        vstd::utf8::encode_utf8_decode_utf8(s);
    } else {
        let bytes = encode_bytes(e, s);
        let back = decode_chars(e, bytes);
        assert(bytes.len() == s.len());
        assert(back.len() == s.len());
        assert forall|i: int| 0 <= i < s.len() implies back[i] == s[i] by {
            let c = s[i];
            assert(encodable_char(e, c));
            let b = sb_encode_char(e, c);
            assert(bytes[i] == b);
            assert(back[i] == sb_decode_char(e, b));
            if (c as u32) < 0x80 {
                assert(b == (c as u32) as u8);
                assert(b < 0x80);
                assert(b as u32 == c as u32);
                vstd::utf8::char_u32_cast(c, c as u32);
                assert((b as char) as u32 == b as u32);
                assert(sb_decode_char(e, b) == c);
            } else {
                let b0 = enc_backward(e, c as u32);
                assert(b0 >= 0x80 && enc_forward(e)[b0 - 0x80] as u32 == c as u32);
                assert(b == b0);
                let cp = enc_forward(e)[b - 0x80];
                assert(cp as u32 == c as u32);
                assert(cp != 0xFFFF);
                vstd::utf8::char_is_scalar(c);
                assert(is_scalar(cp as u32));
                vstd::utf8::char_u32_cast(c, cp as u32);
                assert(sb_decode_char(e, b) == c);
            }
        }
        assert(back =~= s);
    }
}

/// The line-codec round trip: a string the encoding represents, whose
/// payload holds no embedded terminator and fits the budget less the
/// terminator, is framed by `encode` and found whole again by
/// `decode`: the terminator is found exactly at the payload's end and
/// the payload decodes back to the string.
pub proof fn lemma_line_roundtrip(e: Encoding, s: Seq<char>, max: int)
    requires
        max >= 2,
        forall|i: int| 0 <= i < s.len() ==> encodable_char(e, #[trigger] s[i]),
        find_crlf(encode_bytes(e, s), 0, encode_bytes(e, s).len() as int) is None,
        encode_bytes(e, s).len() <= max - 2,
    ensures
        ({
            let payload = encode_bytes(e, s);
            let buf = payload + seq![13u8, 10u8];
            let window = if max + 1 < buf.len() {
                max + 1
            } else {
                buf.len() as int
            };
            &&& find_crlf(buf, 0, window) == Some(payload.len() as int)
            &&& buf.subrange(0, payload.len() as int) == payload
            &&& decode_chars(e, buf.subrange(0, payload.len() as int)) == s
        }),
{
    let payload = encode_bytes(e, s);
    let buf = payload + seq![13u8, 10u8];
    let k = payload.len() as int;
    let window = if max + 1 < buf.len() {
        max + 1
    } else {
        buf.len() as int
    };
    assert(buf.len() == k + 2);
    assert(window == k + 2);
    assert(buf[k] == 13 && buf[k + 1] == 10);
    crate::text::lemma_find_crlf(payload, 0, k);
    assert forall|j: int| #![trigger buf[j]] 0 <= j < k implies !(buf[j] == 13 && buf[j + 1]
        == 10) by {
        if j + 1 < k {
            assert(buf[j] == payload[j] && buf[j + 1] == payload[j + 1]);
        } else {
            assert(j + 1 == k);
            assert(buf[j + 1] == 13);
        }
    }
    crate::text::lemma_find_crlf_exact(buf, 0, window, k);
    assert(buf.subrange(0, k) =~= payload);
    lemma_codec_roundtrip(e, s);
}

/// The line-codec length bound: a string longer than the budget less
/// the terminator, with no embedded terminator to cut it short, leaves
/// `encode` with an oversized payload, which it refuses.
pub proof fn lemma_encode_too_long(e: Encoding, s: Seq<char>, max: int)
    requires
        max >= 2,
        s.len() > max - 2,
        find_crlf(encode_bytes(e, s), 0, encode_bytes(e, s).len() as int) is None,
    ensures
        ({
            let bytes = encode_bytes(e, s);
            let payload = match find_crlf(bytes, 0, bytes.len() as int) {
                Some(n) => bytes.subrange(0, n),
                None => bytes,
            };
            payload.len() > max - 2
        }),
{
    lemma_encode_bytes_len(e, s);
}

} // verus!
