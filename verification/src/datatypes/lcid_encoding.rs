//! The code pages of collations that are not Unicode.

use crate::error::{Error, ErrorKind, TdsResult};
use crate::text::number_message;
use encoding_rs::Encoding;
use vstd::prelude::*;
use vstd::utf8::{encode_utf8, is_ascii_chars};

verus! {

/// A code page.
#[derive(Clone, Copy, Debug, PartialEq, Eq, Structural)]
pub enum CodePage {
    Windows874,
    ShiftJis,
    Gbk,
    EucKr,
    Big5,
    Windows1250,
    Windows1251,
    Windows1252,
    Windows1253,
    Windows1254,
    Windows1255,
    Windows1256,
    Windows1257,
    Windows1258,
}

/// What `encoding_rs::Encoding::encode` makes of a text in the encoding with a label: the bytes, and
/// whether some character could not be encoded.
pub uninterp spec fn encoded_text(label: Seq<char>, text: Seq<char>) -> (Seq<u8>, bool);

/// What `encoding_rs::Encoding::decode` makes of bytes in the encoding with a label: the text, and
/// whether some bytes could not be decoded.
pub uninterp spec fn decoded_text(label: Seq<char>, bytes: Seq<u8>) -> (Seq<char>, bool);

/// Whether bytes are all codes of ASCII characters.
pub open spec fn is_ascii_bytes(bytes: Seq<u8>) -> bool {
    forall|i: int| 0 <= i < bytes.len() ==> #[trigger] bytes[i] < 0x80
}

/// Calls `encoding_rs::Encoding::encode` on the encoding that `encoding_rs::Encoding::for_label`
/// finds for the label of a code page. The result is that of the two arguments alone. A text of
/// ASCII characters comes back as its bytes, without an error: no code page here is ISO-2022-JP.
#[verifier::external_body]
fn encode_with_label(label: &str, text: &str) -> (r: (Vec<u8>, bool))
    requires
        exists|p: CodePage| #[trigger] p.spec_label() == label@,
    ensures
        (r.0@, r.1) == encoded_text(label@, text@),
        is_ascii_chars(text@) ==> r.0@ == encode_utf8(text@) && !r.1,
{
    match Encoding::for_label(label.as_bytes()) {
        Some(encoding) => {
            let (bytes, _, had_errors) = encoding.encode(text);
            (bytes.into_owned(), had_errors)
        },
        None => (Vec::new(), true),
    }
}

/// Calls `encoding_rs::Encoding::decode` on the encoding that `encoding_rs::Encoding::for_label`
/// finds for the label of a code page. The result is that of the two arguments alone. Bytes of ASCII
/// characters are the text's bytes in UTF-8, without an error.
#[verifier::external_body]
fn decode_with_label(label: &str, bytes: &[u8]) -> (r: (String, bool))
    requires
        exists|p: CodePage| #[trigger] p.spec_label() == label@,
    ensures
        (r.0@, r.1) == decoded_text(label@, bytes@),
        is_ascii_bytes(bytes@) ==> encode_utf8(r.0@) == bytes@ && !r.1,
{
    match Encoding::for_label(label.as_bytes()) {
        Some(encoding) => {
            let (text, _, had_errors) = encoding.decode(bytes);
            (text.into_owned(), had_errors)
        },
        None => (String::new(), true),
    }
}

impl CodePage {
    /// The label of the code page in the encoding standard.
    pub open spec fn spec_label(self) -> Seq<char> {
        match self {
            CodePage::Windows874 => "windows-874"@,
            CodePage::ShiftJis => "shift_jis"@,
            CodePage::Gbk => "gbk"@,
            CodePage::EucKr => "euc-kr"@,
            CodePage::Big5 => "big5"@,
            CodePage::Windows1250 => "windows-1250"@,
            CodePage::Windows1251 => "windows-1251"@,
            CodePage::Windows1252 => "windows-1252"@,
            CodePage::Windows1253 => "windows-1253"@,
            CodePage::Windows1254 => "windows-1254"@,
            CodePage::Windows1255 => "windows-1255"@,
            CodePage::Windows1256 => "windows-1256"@,
            CodePage::Windows1257 => "windows-1257"@,
            CodePage::Windows1258 => "windows-1258"@,
        }
    }

    /// The label of the code page in the encoding standard.
    pub fn label(self) -> (s: &'static str)
        ensures
            s@ == self.spec_label(),
    {
        match self {
            CodePage::Windows874 => "windows-874",
            CodePage::ShiftJis => "shift_jis",
            CodePage::Gbk => "gbk",
            CodePage::EucKr => "euc-kr",
            CodePage::Big5 => "big5",
            CodePage::Windows1250 => "windows-1250",
            CodePage::Windows1251 => "windows-1251",
            CodePage::Windows1252 => "windows-1252",
            CodePage::Windows1253 => "windows-1253",
            CodePage::Windows1254 => "windows-1254",
            CodePage::Windows1255 => "windows-1255",
            CodePage::Windows1256 => "windows-1256",
            CodePage::Windows1257 => "windows-1257",
            CodePage::Windows1258 => "windows-1258",
        }
    }

    /// A text in this code page, and whether some character could not be encoded. ASCII characters
    /// are encoded as themselves in every code page.
    pub fn encode(self, text: &str) -> (r: (Vec<u8>, bool))
        ensures
            (r.0@, r.1) == encoded_text(self.spec_label(), text@),
            is_ascii_chars(text@) ==> r.0@ == encode_utf8(text@) && !r.1,
    {
        encode_with_label(self.label(), text)
    }

    /// The text that bytes in this code page stand for, and whether some could not be decoded. ASCII
    /// characters stand for themselves in every code page.
    pub fn decode(self, bytes: &[u8]) -> (r: (String, bool))
        ensures
            (r.0@, r.1) == decoded_text(self.spec_label(), bytes@),
            is_ascii_bytes(bytes@) ==> encode_utf8(r.0@) == bytes@ && !r.1,
    {
        decode_with_label(self.label(), bytes)
    }
}

/// The code page of a language, given as the low 16 bits of a locale identifier.
pub open spec fn code_page_of_language(language: u32) -> Option<CodePage> {
    match language {
        0x041E => Some(CodePage::Windows874),
        0x0411 => Some(CodePage::ShiftJis),
        0x0804 | 0x1004 => Some(CodePage::Gbk),
        0x0412 => Some(CodePage::EucKr),
        0x0404 | 0x0C04 | 0x1404 => Some(CodePage::Big5),
        0x0405 | 0x040E | 0x0415 | 0x0418 | 0x041A | 0x041B | 0x041C | 0x0424
            | 0x0442 | 0x081A | 0x101A | 0x141A | 0x181A => Some(CodePage::Windows1250),
        0x0402 | 0x0419 | 0x0422 | 0x0423 | 0x0428 | 0x042F | 0x043F | 0x0440
            | 0x0444 | 0x0450 | 0x046D | 0x0485 | 0x082C | 0x0843 | 0x0C1A | 0x1C1A
            | 0x201A => Some(CodePage::Windows1251),
        0x0403 | 0x0406 | 0x0407 | 0x0409 | 0x040A | 0x040B | 0x040C | 0x040F
            | 0x0410 | 0x0413 | 0x0414 | 0x0416 | 0x0417 | 0x041D | 0x0421 | 0x042D
            | 0x042E | 0x0432 | 0x0434 | 0x0435 | 0x0436 | 0x0438 | 0x043B | 0x043E
            | 0x0441 | 0x0452 | 0x0456 | 0x0462 | 0x0464 | 0x0468 | 0x046A | 0x046B
            | 0x046C | 0x046E | 0x046F | 0x0470 | 0x0478 | 0x047A | 0x047C | 0x047E
            | 0x0481 | 0x0482 | 0x0483 | 0x0484 | 0x0486 | 0x0487 | 0x0488 | 0x0807
            | 0x0809 | 0x080A | 0x080C | 0x0810 | 0x0813 | 0x0814 | 0x0816 | 0x081D
            | 0x082E | 0x083B | 0x083C | 0x083E | 0x086B | 0x0C07 | 0x0C09 | 0x0C0A
            | 0x0C0C | 0x0C3B | 0x0C6B | 0x1007 | 0x1009 | 0x100A | 0x100C | 0x103B
            | 0x1407 | 0x1409 | 0x140A | 0x140C | 0x143B | 0x1809 | 0x180A | 0x180C
            | 0x183B | 0x1C09 | 0x1C0A | 0x1C3B | 0x2009 | 0x200A | 0x203B | 0x2409
            | 0x240A | 0x243B | 0x2809 | 0x280A | 0x2C09 | 0x2C0A | 0x3009 | 0x300A
            | 0x3409 | 0x340A | 0x380A | 0x3C0A | 0x4009 | 0x400A | 0x4409 | 0x440A
            | 0x4809 | 0x480A | 0x4C0A | 0x500A | 0x540A => Some(CodePage::Windows1252),
        0x0408 => Some(CodePage::Windows1253),
        0x041F | 0x042C | 0x0443 => Some(CodePage::Windows1254),
        0x040D => Some(CodePage::Windows1255),
        0x0401 | 0x0420 | 0x0429 | 0x0480 | 0x048C | 0x0801 | 0x0C01 | 0x1001
            | 0x1401 | 0x1801 | 0x1C01 | 0x2001 | 0x2401 | 0x2801 | 0x2C01 | 0x3001
            | 0x3401 | 0x3801 | 0x3C01 | 0x4001 => Some(CodePage::Windows1256),
        0x0425 | 0x0426 | 0x0427 => Some(CodePage::Windows1257),
        0x042A => Some(CodePage::Windows1258),
        _ => None,
    }
}

/// The code page of a locale identifier of 20 bits: the upper four are a sort order and do not count.
pub open spec fn code_page_of(lcid: u32) -> Option<CodePage> {
    if lcid > 0xF_FFFF {
        None
    } else {
        code_page_of_language((lcid % 0x1_0000) as u32)
    }
}

/// The label of the code page that a language is written in, in a country: countries are counted from 1 in
/// every language. Nothing where the language or the country is not known.
#[verifier::opaque]
pub open spec fn label_of_language(language: u32, country: u32) -> Option<Seq<char>> {
    let known = match language {
        0x01 => 1 <= country <= 16,
        0x0A => 1 <= country <= 21,
        0x09 => 1 <= country <= 18 && country != 14 && country != 15,
        0x3B => 1 <= country <= 9,
        0x1A => 1 <= country <= 8,
        0x0C => 1 <= country <= 6,
        0x04 | 0x07 => 1 <= country <= 5,
        0x6B => 1 <= country <= 3,
        0x10 | 0x13 | 0x14 | 0x16 | 0x1D | 0x2C | 0x2E | 0x3E | 0x43 => 1 <= country <= 2,
        0x3C => country == 2,
        _ => country == 1,
    };
    if !known {
        None
    } else {
        match language {
            // Arabic, Urdu, Persian, Uyghur and Dari
            0x01 | 0x20 | 0x29 | 0x80 | 0x8C => Some("windows-1256"@),
            // Bulgarian, Russian, Ukrainian, Belarusian, Tajik, Macedonian, Kazakh, Kyrgyz, Tatar,
            // Mongolian, Bashkir and Yakut
            0x02 | 0x19 | 0x22 | 0x23 | 0x28 | 0x2F | 0x3F | 0x40 | 0x44 | 0x50 | 0x6D
            | 0x85 => Some("windows-1251"@),
            // Czech, Hungarian, Polish, Romanian, Slovak, Albanian, Slovenian and Turkmen
            0x05 | 0x0E | 0x15 | 0x18 | 0x1B | 0x1C | 0x24 | 0x42 => Some("windows-1250"@),
            // Croatian, Serbian and Bosnian, some of them in Cyrillic letters
            0x1A => if country == 3 || country == 7 || country == 8 {
                Some("windows-1251"@)
            } else {
                Some("windows-1250"@)
            },
            // Chinese, in simplified and in traditional characters
            0x04 => if country == 2 || country == 4 {
                Some("gbk"@)
            } else {
                Some("big5"@)
            },
            // Azerbaijani and Uzbek, in Latin and in Cyrillic letters
            0x2C | 0x43 => if country == 1 {
                Some("windows-1254"@)
            } else {
                Some("windows-1251"@)
            },
            0x08 => Some("windows-1253"@),
            0x0D => Some("windows-1255"@),
            0x11 => Some("shift_jis"@),
            0x12 => Some("euc-kr"@),
            0x1E => Some("windows-874"@),
            0x1F => Some("windows-1254"@),
            0x25 | 0x26 | 0x27 => Some("windows-1257"@),
            0x2A => Some("windows-1258"@),
            // The languages of Western Europe, and those that are written in the same letters
            0x03 | 0x06 | 0x07 | 0x09 | 0x0A | 0x0B | 0x0C | 0x0F | 0x10 | 0x13 | 0x14 | 0x16
            | 0x17 | 0x1D | 0x21 | 0x2D | 0x2E | 0x32 | 0x34 | 0x35 | 0x36 | 0x38 | 0x3B | 0x3C
            | 0x3E | 0x41 | 0x52 | 0x56 | 0x62 | 0x64 | 0x68 | 0x6A | 0x6B | 0x6C | 0x6E | 0x6F
            | 0x70 | 0x78 | 0x7A | 0x7C | 0x7E | 0x81 | 0x82 | 0x83 | 0x84 | 0x86 | 0x87 | 0x88 => Some(
                "windows-1252"@,
            ),
            _ => None,
        }
    }
}

/// The code page of a locale identifier is that of its language, which is its lowest ten bits, and its
/// country, which is the six above them. The four bits above those, a sort order, do not count, and more
/// than 20 bits are no locale identifier.
#[verifier::rlimit(100)]
#[verifier::spinoff_prover]
pub proof fn law_languages(lcid: u32)
    ensures
        lcid < 0x10_0000 ==> (match code_page_of(lcid) {
            Some(p) => Some(p.spec_label()),
            None => None,
        }) == label_of_language(lcid % 0x400, (lcid / 0x400) % 0x40),
        lcid >= 0x10_0000 ==> code_page_of(lcid) is None,
{
    reveal(label_of_language);
    let l = lcid % 0x1_0000;
    let language = lcid % 0x400;
    let country = (lcid / 0x400) % 0x40;
    assert(l == language + 0x400 * country);
}

/// The code page of a locale identifier; a usage error where there is none.
pub fn lcid_to_encoding(lcid: u32) -> (r: TdsResult<CodePage>)
    ensures
        match code_page_of(lcid) {
            Some(p) => r == Ok::<CodePage, Error>(p),
            None => r matches Err(e) && e.kind() == ErrorKind::Usage,
        },
{
    let unsupported = Error::UsageError(number_message("Unsupported LCID: ", lcid as u128, ""));
    if lcid > 0xF_FFFF {
        return Err(unsupported);
    }
    let language: u32 = lcid % 0x1_0000;
    match language {
        0x041E => Ok(CodePage::Windows874),
        0x0411 => Ok(CodePage::ShiftJis),
        0x0804 | 0x1004 => Ok(CodePage::Gbk),
        0x0412 => Ok(CodePage::EucKr),
        0x0404 | 0x0C04 | 0x1404 => Ok(CodePage::Big5),
        0x0405 | 0x040E | 0x0415 | 0x0418 | 0x041A | 0x041B | 0x041C | 0x0424
            | 0x0442 | 0x081A | 0x101A | 0x141A | 0x181A => Ok(CodePage::Windows1250),
        0x0402 | 0x0419 | 0x0422 | 0x0423 | 0x0428 | 0x042F | 0x043F | 0x0440
            | 0x0444 | 0x0450 | 0x046D | 0x0485 | 0x082C | 0x0843 | 0x0C1A | 0x1C1A
            | 0x201A => Ok(CodePage::Windows1251),
        0x0403 | 0x0406 | 0x0407 | 0x0409 | 0x040A | 0x040B | 0x040C | 0x040F
            | 0x0410 | 0x0413 | 0x0414 | 0x0416 | 0x0417 | 0x041D | 0x0421 | 0x042D
            | 0x042E | 0x0432 | 0x0434 | 0x0435 | 0x0436 | 0x0438 | 0x043B | 0x043E
            | 0x0441 | 0x0452 | 0x0456 | 0x0462 | 0x0464 | 0x0468 | 0x046A | 0x046B
            | 0x046C | 0x046E | 0x046F | 0x0470 | 0x0478 | 0x047A | 0x047C | 0x047E
            | 0x0481 | 0x0482 | 0x0483 | 0x0484 | 0x0486 | 0x0487 | 0x0488 | 0x0807
            | 0x0809 | 0x080A | 0x080C | 0x0810 | 0x0813 | 0x0814 | 0x0816 | 0x081D
            | 0x082E | 0x083B | 0x083C | 0x083E | 0x086B | 0x0C07 | 0x0C09 | 0x0C0A
            | 0x0C0C | 0x0C3B | 0x0C6B | 0x1007 | 0x1009 | 0x100A | 0x100C | 0x103B
            | 0x1407 | 0x1409 | 0x140A | 0x140C | 0x143B | 0x1809 | 0x180A | 0x180C
            | 0x183B | 0x1C09 | 0x1C0A | 0x1C3B | 0x2009 | 0x200A | 0x203B | 0x2409
            | 0x240A | 0x243B | 0x2809 | 0x280A | 0x2C09 | 0x2C0A | 0x3009 | 0x300A
            | 0x3409 | 0x340A | 0x380A | 0x3C0A | 0x4009 | 0x400A | 0x4409 | 0x440A
            | 0x4809 | 0x480A | 0x4C0A | 0x500A | 0x540A => Ok(CodePage::Windows1252),
        0x0408 => Ok(CodePage::Windows1253),
        0x041F | 0x042C | 0x0443 => Ok(CodePage::Windows1254),
        0x040D => Ok(CodePage::Windows1255),
        0x0401 | 0x0420 | 0x0429 | 0x0480 | 0x048C | 0x0801 | 0x0C01 | 0x1001
            | 0x1401 | 0x1801 | 0x1C01 | 0x2001 | 0x2401 | 0x2801 | 0x2C01 | 0x3001
            | 0x3401 | 0x3801 | 0x3C01 | 0x4001 => Ok(CodePage::Windows1256),
        0x0425 | 0x0426 | 0x0427 => Ok(CodePage::Windows1257),
        0x042A => Ok(CodePage::Windows1258),
        _ => Err(unsupported),
    }
}

} // verus!
