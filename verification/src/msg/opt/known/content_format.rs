use vstd::prelude::*;
use vstd::std_specs::convert::FromSpecImpl;

verus! {

/// Content-Format
#[non_exhaustive]
#[derive(Debug, Clone, Copy, PartialEq, Eq, Structural, Hash)]
pub enum ContentFormat {
    /// `text/plain; charset=utf-8`
    Text,
    /// `application/link-format`
    LinkFormat,
    /// `application/xml`
    Xml,
    /// `application/octet-stream`
    OctetStream,
    /// `application/exi`
    Exi,
    /// `application/json`
    Json,
    /// Another content format
    Other(u16),
}

/// The registered number of a content format.
pub open spec fn spec_content_format_num(f: ContentFormat) -> u16 {
    match f {
        ContentFormat::Text => 0,
        ContentFormat::LinkFormat => 40,
        ContentFormat::Xml => 41,
        ContentFormat::OctetStream => 42,
        ContentFormat::Exi => 47,
        ContentFormat::Json => 50,
        ContentFormat::Other(n) => n,
    }
}

/// The content format with a registered number.
pub open spec fn spec_content_format_of(n: u16) -> ContentFormat {
    if n == 0 {
        ContentFormat::Text
    } else if n == 40 {
        ContentFormat::LinkFormat
    } else if n == 41 {
        ContentFormat::Xml
    } else if n == 42 {
        ContentFormat::OctetStream
    } else if n == 47 {
        ContentFormat::Exi
    } else if n == 50 {
        ContentFormat::Json
    } else {
        ContentFormat::Other(n)
    }
}

impl ContentFormat {
    /// The registered number of this content format
    pub fn num(&self) -> (r: u16)
        ensures
            r == spec_content_format_num(*self),
    {
        match *self {
            ContentFormat::Text => 0,
            ContentFormat::LinkFormat => 40,
            ContentFormat::Xml => 41,
            ContentFormat::OctetStream => 42,
            ContentFormat::Exi => 47,
            ContentFormat::Json => 50,
            ContentFormat::Other(n) => n,
        }
    }

    /// Convert this content format to the CoAP byte value: its number, big-endian
    pub fn bytes(&self) -> (r: [u8; 2])
        ensures
            r@ == crate::msg::id::be16_bytes(spec_content_format_num(*self)),
    {
        let n = self.num();
        let r = [(n / 256) as u8, (n % 256) as u8];
        assert(r@ =~= crate::msg::id::be16_bytes(n));
        r
    }
}

impl From<u16> for ContentFormat {
    fn from(n: u16) -> (r: ContentFormat) {
        match n {
            0 => ContentFormat::Text,
            40 => ContentFormat::LinkFormat,
            41 => ContentFormat::Xml,
            42 => ContentFormat::OctetStream,
            47 => ContentFormat::Exi,
            50 => ContentFormat::Json,
            n => ContentFormat::Other(n),
        }
    }
}

impl FromSpecImpl<u16> for ContentFormat {
    open spec fn obeys_from_spec() -> bool {
        true
    }

    open spec fn from_spec(n: u16) -> ContentFormat {
        spec_content_format_of(n)
    }
}

/// Reading a content format back from its number gives its registered form.
pub proof fn lemma_content_format_num_roundtrip(n: u16)
    ensures
        spec_content_format_num(spec_content_format_of(n)) == n,
{
}

} // verus!
