//! Images attached to a prompt: their type, read from their first bytes or their file name,
//! and their `data:` URL.
use vstd::prelude::*;
use crate::text::{cat, cat3, push_char, push_str, to_lowercase, unicode_lowercase, usize_to_string};

verus! {

/// The largest image that can be attached, in bytes.
pub const MAX_IMAGE_BYTES: usize = 5242880;

#[derive(Debug, Clone, PartialEq, Eq)]
pub struct ImageAttachment {
    pub source_path: String,
    pub file_name: String,
    pub mime_type: String,
    pub byte_len: usize,
    pub data_url: String,
}

// ---------------------------------------------------------------------------
// Base64

/// The base64 symbol of a six-bit value.
pub open spec fn symbol(i: u8) -> char {
    if i < 26 {
        (65 + i) as char
    } else if i < 52 {
        (97 + (i - 26)) as char
    } else if i < 62 {
        (48 + (i - 52)) as char
    } else if i == 62 {
        '+'
    } else {
        '/'
    }
}

/// The four six-bit values of three bytes.
pub open spec fn sextets(a: u8, b: u8, c: u8) -> (u8, u8, u8, u8) {
    (a >> 2, ((a & 3) << 4) | (b >> 4), ((b & 15) << 2) | (c >> 6), c & 63)
}

/// The four symbols of a group of one to three bytes, padded with `=`.
pub open spec fn group_spec(g: Seq<u8>) -> Seq<char> {
    let a = g[0];
    let b: u8 = if g.len() > 1 { g[1] } else { 0 };
    let c: u8 = if g.len() > 2 { g[2] } else { 0 };
    let s = sextets(a, b, c);
    seq![symbol(s.0), symbol(s.1), if g.len() > 1 { symbol(s.2) } else { '=' }, if g.len() > 2 { symbol(s.3) } else { '=' }]
}

/// Standard base64 with padding: the bytes in groups of three, each written as four symbols.
pub open spec fn base64_spec(bytes: Seq<u8>) -> Seq<char>
    decreases bytes.len(),
{
    if bytes.len() == 0 {
        Seq::empty()
    } else {
        group_spec(bytes.take(if bytes.len() < 3 { bytes.len() as int } else { 3 })) + base64_spec(
            bytes.skip(if bytes.len() < 3 { bytes.len() as int } else { 3 }),
        )
    }
}

fn symbol_exec(i: u8) -> (r: char)
    requires
        i < 64,
    ensures
        r == symbol(i),
{
    if i < 26 {
        (65 + i) as char
    } else if i < 52 {
        (97 + (i - 26)) as char
    } else if i < 62 {
        (48 + (i - 52)) as char
    } else if i == 62 {
        '+'
    } else {
        '/'
    }
}

/// Base64 of the bytes, with padding.
pub fn base64_encode(bytes: &[u8]) -> (r: String)
    ensures
        r@ == base64_spec(bytes@),
{
    let mut encoded = String::new();
    let n = bytes.len();
    let mut i: usize = 0;
    assert(bytes@.skip(0) =~= bytes@);
    while i < n
        invariant
            n == bytes@.len(),
            i <= n,
            encoded@ + base64_spec(bytes@.skip(i as int)) == base64_spec(bytes@),
        decreases n - i,
    {
        let rest = n - i;
        let len: usize = if rest < 3 { rest } else { 3 };
        let a = bytes[i];
        let b: u8 = if len > 1 { bytes[i + 1] } else { 0 };
        let c: u8 = if len > 2 { bytes[i + 2] } else { 0 };
        let i0 = a >> 2;
        let i1 = ((a & 3) << 4) | (b >> 4);
        let i2 = ((b & 15) << 2) | (c >> 6);
        let i3 = c & 63;
        assert(i0 < 64 && i1 < 64 && i2 < 64 && i3 < 64) by (bit_vector)
            requires
                i0 == a >> 2,
                i1 == ((a & 3) << 4) | (b >> 4),
                i2 == ((b & 15) << 2) | (c >> 6),
                i3 == c & 63,
        ;
        let ghost tail = bytes@.skip(i as int);
        let ghost g = tail.take(len as int);
        assert(g[0] == a);
        assert(len > 1 ==> g[1] == b);
        assert(len > 2 ==> g[2] == c);
        let ghost before = encoded@;
        push_char(&mut encoded, symbol_exec(i0));
        push_char(&mut encoded, symbol_exec(i1));
        if len > 1 {
            push_char(&mut encoded, symbol_exec(i2));
        } else {
            push_char(&mut encoded, '=');
        }
        if len > 2 {
            push_char(&mut encoded, symbol_exec(i3));
        } else {
            push_char(&mut encoded, '=');
        }
        assert(encoded@ =~= before + group_spec(g));
        assert(tail.skip(len as int) =~= bytes@.skip(i + len));
        assert(base64_spec(tail) == group_spec(g) + base64_spec(tail.skip(len as int)));
        i = i + len;
        assert((before + group_spec(g)) + base64_spec(bytes@.skip(i as int)) =~= before + (group_spec(g)
            + base64_spec(bytes@.skip(i as int))));
    }
    assert(bytes@.skip(n as int) =~= Seq::<u8>::empty());
    assert(encoded@ + Seq::<char>::empty() =~= encoded@);
    encoded
}

/// Base64 writes four symbols for each group of three bytes, the last one padded.
pub proof fn law_base64_length(bytes: Seq<u8>)
    ensures
        base64_spec(bytes).len() == 4 * ((bytes.len() + 2) / 3),
    decreases bytes.len(),
{
    if bytes.len() > 0 {
        let k: int = if bytes.len() < 3 { bytes.len() as int } else { 3 };
        law_base64_length(bytes.skip(k));
        assert(bytes.skip(k).len() == bytes.len() - k);
    }
}

// ---------------------------------------------------------------------------
// Types

pub open spec fn starts_with_bytes(bytes: Seq<u8>, prefix: Seq<u8>) -> bool {
    prefix.len() <= bytes.len() && bytes.take(prefix.len() as int) == prefix
}

/// The type of an image: from its first bytes (PNG, JPEG, GIF, WebP, BMP), else from its file
/// name's extension, in any case (which also knows SVG).
pub open spec fn mime_spec(extension: Option<Seq<char>>, bytes: Seq<u8>) -> Option<Seq<char>> {
    if starts_with_bytes(bytes, seq![0x89u8, 0x50u8, 0x4Eu8, 0x47u8, 0x0Du8, 0x0Au8, 0x1Au8, 0x0Au8]) {
        Some("image/png"@)
    } else if starts_with_bytes(bytes, seq![0xFFu8, 0xD8u8, 0xFFu8]) {
        Some("image/jpeg"@)
    } else if starts_with_bytes(bytes, seq![0x47u8, 0x49u8, 0x46u8, 0x38u8, 0x37u8, 0x61u8])
        || starts_with_bytes(bytes, seq![0x47u8, 0x49u8, 0x46u8, 0x38u8, 0x39u8, 0x61u8]) {
        Some("image/gif"@)
    } else if bytes.len() >= 12 && starts_with_bytes(bytes, seq![0x52u8, 0x49u8, 0x46u8, 0x46u8])
        && bytes.subrange(8, 12) == seq![0x57u8, 0x45u8, 0x42u8, 0x50u8] {
        Some("image/webp"@)
    } else if starts_with_bytes(bytes, seq![0x42u8, 0x4Du8]) {
        Some("image/bmp"@)
    } else {
        match extension {
            Some(e) => {
                let x = unicode_lowercase(e);
                if x == "png"@ {
                    Some("image/png"@)
                } else if x == "jpg"@ || x == "jpeg"@ {
                    Some("image/jpeg"@)
                } else if x == "gif"@ {
                    Some("image/gif"@)
                } else if x == "webp"@ {
                    Some("image/webp"@)
                } else if x == "bmp"@ {
                    Some("image/bmp"@)
                } else if x == "svg"@ {
                    Some("image/svg+xml"@)
                } else {
                    None
                }
            },
            None => None,
        }
    }
}

fn starts_with_exec(bytes: &[u8], prefix: &[u8]) -> (r: bool)
    ensures
        r == starts_with_bytes(bytes@, prefix@),
{
    if prefix.len() > bytes.len() {
        return false;
    }
    let mut i: usize = 0;
    while i < prefix.len()
        invariant
            prefix@.len() <= bytes@.len(),
            i <= prefix@.len(),
            forall|j: int| 0 <= j < i ==> bytes@[j] == prefix@[j],
        decreases prefix.len() - i,
    {
        if bytes[i] != prefix[i] {
            assert(bytes@.take(prefix@.len() as int)[i as int] != prefix@[i as int]);
            return false;
        }
        i = i + 1;
    }
    assert(bytes@.take(prefix@.len() as int) =~= prefix@);
    true
}

fn str_is(s: &str, t: &str) -> (r: bool)
    ensures
        r == (s@ == t@),
{
    crate::text::str_eq(s, t)
}

/// The type of an image, as `mime_spec` says.
pub fn guess_image_mime(extension: Option<&str>, bytes: &[u8]) -> (r: Option<&'static str>)
    ensures
        match mime_spec(
            match extension {
                Some(e) => Some(e@),
                None => None,
            },
            bytes@,
        ) {
            Some(m) => r matches Some(x) && x@ == m,
            None => r is None,
        },
{
    let png: [u8; 8] = [0x89, 0x50, 0x4E, 0x47, 0x0D, 0x0A, 0x1A, 0x0A];
    let jpeg: [u8; 3] = [0xFF, 0xD8, 0xFF];
    let gif7: [u8; 6] = [0x47, 0x49, 0x46, 0x38, 0x37, 0x61];
    let gif9: [u8; 6] = [0x47, 0x49, 0x46, 0x38, 0x39, 0x61];
    let riff: [u8; 4] = [0x52, 0x49, 0x46, 0x46];
    let bm: [u8; 2] = [0x42, 0x4D];
    assert(png@ =~= seq![0x89u8, 0x50u8, 0x4Eu8, 0x47u8, 0x0Du8, 0x0Au8, 0x1Au8, 0x0Au8]);
    assert(jpeg@ =~= seq![0xFFu8, 0xD8u8, 0xFFu8]);
    assert(gif7@ =~= seq![0x47u8, 0x49u8, 0x46u8, 0x38u8, 0x37u8, 0x61u8]);
    assert(gif9@ =~= seq![0x47u8, 0x49u8, 0x46u8, 0x38u8, 0x39u8, 0x61u8]);
    assert(riff@ =~= seq![0x52u8, 0x49u8, 0x46u8, 0x46u8]);
    assert(bm@ =~= seq![0x42u8, 0x4Du8]);
    if starts_with_exec(bytes, png.as_slice()) {
        return Some("image/png");
    }
    if starts_with_exec(bytes, jpeg.as_slice()) {
        return Some("image/jpeg");
    }
    if starts_with_exec(bytes, gif7.as_slice()) || starts_with_exec(bytes, gif9.as_slice()) {
        return Some("image/gif");
    }
    if bytes.len() >= 12 && starts_with_exec(bytes, riff.as_slice()) && bytes[8] == 0x57 && bytes[9] == 0x45
        && bytes[10] == 0x42 && bytes[11] == 0x50 {
        assert(bytes@.subrange(8, 12) =~= seq![0x57u8, 0x45u8, 0x42u8, 0x50u8]);
        return Some("image/webp");
    }
    assert(bytes@.len() >= 12 && starts_with_bytes(bytes@, riff@) ==> (bytes@.subrange(8, 12) == seq![
        0x57u8,
        0x45u8,
        0x42u8,
        0x50u8,
    ] ==> bytes@[8] == 0x57 && bytes@[9] == 0x45 && bytes@[10] == 0x42 && bytes@[11] == 0x50));
    if starts_with_exec(bytes, bm.as_slice()) {
        return Some("image/bmp");
    }
    match extension {
        Some(e) => {
            let x = to_lowercase(e);
            if str_is(x.as_str(), "png") {
                Some("image/png")
            } else if str_is(x.as_str(), "jpg") || str_is(x.as_str(), "jpeg") {
                Some("image/jpeg")
            } else if str_is(x.as_str(), "gif") {
                Some("image/gif")
            } else if str_is(x.as_str(), "webp") {
                Some("image/webp")
            } else if str_is(x.as_str(), "bmp") {
                Some("image/bmp")
            } else if str_is(x.as_str(), "svg") {
                Some("image/svg+xml")
            } else {
                None
            }
        },
        None => None,
    }
}

// ---------------------------------------------------------------------------
// Attachments

/// An image read from a file: refused when empty, larger than `MAX_IMAGE_BYTES`, or of no
/// known type; else its type and its bytes as a base64 `data:` URL.
pub open spec fn attachment_spec(
    source_path: Seq<char>,
    file_name: Seq<char>,
    display: Seq<char>,
    extension: Option<Seq<char>>,
    bytes: Seq<u8>,
    r: Result<ImageAttachment, String>,
) -> bool {
    if bytes.len() == 0 {
        r matches Err(m) && m@ == "image file is empty: "@ + display
    } else if bytes.len() > MAX_IMAGE_BYTES {
        r matches Err(m) && m@ == "image is too large: "@ + crate::text::dec(bytes.len()) + " bytes exceeds 5242880 bytes"@
    } else {
        match mime_spec(extension, bytes) {
            None => r matches Err(m) && m@ == "unsupported image format: "@ + match extension {
                Some(e) => e,
                None => "<unknown>"@,
            },
            Some(mime) => r matches Ok(a) && a.source_path@ == source_path && a.file_name@ == file_name
                && a.mime_type@ == mime && a.byte_len == bytes.len() && a.data_url@ == "data:"@ + mime + ";base64,"@
                + base64_spec(bytes),
        }
    }
}

pub fn image_attachment_from_bytes(
    source_path: String,
    file_name: String,
    display: &str,
    extension: Option<&str>,
    bytes: &[u8],
) -> (r: Result<ImageAttachment, String>)
    ensures
        attachment_spec(
            source_path@,
            file_name@,
            display@,
            match extension {
                Some(e) => Some(e@),
                None => None,
            },
            bytes@,
            r,
        ),
{
    if bytes.len() == 0 {
        return Err(cat("image file is empty: ", display));
    }
    if bytes.len() > MAX_IMAGE_BYTES {
        return Err(cat3("image is too large: ", usize_to_string(bytes.len()).as_str(), " bytes exceeds 5242880 bytes"));
    }
    match guess_image_mime(extension, bytes) {
        None => {
            let e = match extension {
                Some(e) => e,
                None => "<unknown>",
            };
            Err(cat("unsupported image format: ", e))
        },
        Some(mime) => {
            let mut data_url = cat3("data:", mime, ";base64,");
            push_str(&mut data_url, base64_encode(bytes).as_str());
            Ok(
                ImageAttachment {
                    source_path,
                    file_name,
                    mime_type: crate::text::to_owned_str(mime),
                    byte_len: bytes.len(),
                    data_url,
                },
            )
        },
    }
}

} // verus!
