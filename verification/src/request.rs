//! The image request: the identifier and the five parameters of a URL, the
//! canonical string that names its derivative, and the steps by which it is
//! carried out.
use crate::error::IiifError;
use crate::decimal::lemma_decimal_chars;
use crate::format::{lemma_format_round_trip, spec_parse_format, Format};
use crate::quality::{lemma_quality_round_trip, spec_parse_quality, Quality};
use crate::region::{
    lemma_region_round_trip, lemma_region_text_has_no_slash, spec_parse_region, Region,
};
use crate::rotation::{lemma_rotation_round_trip, spec_parse_rotation, Rotation};
use crate::size::{
    lemma_size_round_trip, lemma_size_text_has_no_slash, lemma_size_text_injective,
    spec_parse_size, Size,
};
use crate::text::{
    chars_of, lemma_concat_lacks, lemma_middle_differs, lemma_split_concat, lemma_split_five,
    lemma_split_single, push_all, push_str, split, split_text, string_of, texts,
};
use vstd::prelude::*;
use vstd::string::StringExecFns;
use vstd::utf8::{decode_utf8, encode_utf8, valid_utf8};

verus! {

/// The type of a URL of the `url` crate.
#[verifier::external_type_specification]
#[verifier::external_body]
pub struct ExUrl(url::Url);

/// The error with which a byte string is refused as UTF-8.
#[verifier::external_type_specification]
#[verifier::external_body]
pub struct ExFromUtf8Error(std::string::FromUtf8Error);

/// Whether a byte stands for itself in a percent-encoded text: a letter, a
/// digit, or one of `-`, `.`, `_` and `~`.
pub open spec fn is_unreserved(b: u8) -> bool {
    (48 <= b && b <= 57) || (65 <= b && b <= 90) || (97 <= b && b <= 122) || b == 45 || b == 46
        || b == 95 || b == 126
}

/// The upper-case hexadecimal digit of a number below sixteen.
pub open spec fn hex_digit(d: int) -> char {
    if d < 10 {
        (48 + d) as u8 as char
    } else {
        (55 + d) as u8 as char
    }
}

/// The text that stands for one byte: the byte itself where it is
/// unreserved, and `%` with two hexadecimal digits otherwise.
pub open spec fn escaped(b: u8) -> Seq<char> {
    if is_unreserved(b) {
        seq![b as char]
    } else {
        seq!['%', hex_digit(b as int / 16), hex_digit(b as int % 16)]
    }
}

/// The percent-encoded text of a byte string.
pub open spec fn percent_encoded(bytes: Seq<u8>) -> Seq<char>
    decreases bytes.len(),
{
    if bytes.len() == 0 {
        Seq::<char>::empty()
    } else {
        escaped(bytes[0]) + percent_encoded(bytes.drop_first())
    }
}

/// The number that a hexadecimal digit of either case stands for.
pub open spec fn hex_value(b: u8) -> Option<int> {
    if 48 <= b && b <= 57 {
        Some(b - 48)
    } else if 65 <= b && b <= 70 {
        Some(b - 55)
    } else if 97 <= b && b <= 102 {
        Some(b - 87)
    } else {
        None
    }
}

/// The byte string that a percent-encoded byte string stands for: `%` with
/// two hexadecimal digits is one byte, and every other byte, a `%` without
/// two such digits too, is itself.
pub open spec fn percent_decoded(bytes: Seq<u8>) -> Seq<u8>
    decreases bytes.len(),
{
    if bytes.len() == 0 {
        Seq::<u8>::empty()
    } else if bytes[0] == 37 && bytes.len() >= 3 && hex_value(bytes[1]) is Some && hex_value(
        bytes[2],
    ) is Some {
        seq![(hex_value(bytes[1])->0 * 16 + hex_value(bytes[2])->0) as u8] + percent_decoded(
            bytes.skip(3),
        )
    } else {
        seq![bytes[0]] + percent_decoded(bytes.drop_first())
    }
}

/// The percent-encoded form of a text.
pub open spec fn spec_url_encode(s: Seq<char>) -> Seq<char> {
    percent_encoded(encode_utf8(s))
}

/// The text that a percent-encoded text stands for; `None` where the bytes
/// it stands for are not UTF-8.
pub open spec fn spec_url_decode(s: Seq<char>) -> Option<Seq<char>> {
    let bytes = percent_decoded(encode_utf8(s));
    if valid_utf8(bytes) {
        Some(decode_utf8(bytes))
    } else {
        None
    }
}

/// Calls `urlencoding::decode`: `%` with two hexadecimal digits becomes the
/// byte they write, everything else stays, and the result is refused where
/// it is not UTF-8.
#[verifier::external_body]
fn percent_decode(value: &str) -> (r: Result<String, std::string::FromUtf8Error>)
    ensures
        match r {
            Ok(s) => spec_url_decode(value@) == Some(s@),
            Err(_) => spec_url_decode(value@) is None,
        },
{
    urlencoding::decode(value).map(|decoded| decoded.into_owned())
}

/// Calls `urlencoding::encode`: every byte of the text but letters, digits,
/// `-`, `.`, `_` and `~` becomes `%` with two upper-case hexadecimal digits.
#[verifier::external_body]
fn percent_encode(value: &str) -> (r: String)
    ensures
        r@ == spec_url_encode(value@),
{
    urlencoding::encode(value).into_owned()
}

/// The segments that `Url::path_segments` gives for a URL: the texts
/// between the slashes of its path; `None` for a URL that cannot be a base.
pub uninterp spec fn url_segments(url: url::Url) -> Option<Seq<Seq<char>>>;

/// Calls `Url::path_segments` and copies the segments: `None` for a URL
/// that cannot be a base. The segments depend on the URL alone.
#[verifier::external_body]
fn url_path_segments(url: &url::Url) -> (r: Option<Vec<String>>)
    ensures
        match r {
            Some(v) => url_segments(*url) == Some(strings(v@)),
            None => url_segments(*url) is None,
        },
{
    url.path_segments().map(|segments| segments.map(|s| s.to_string()).collect())
}

/// The segments of the path of a URL, of which a URL that cannot be a base
/// has none.
pub open spec fn path_segments_of(url: url::Url) -> Seq<Seq<char>> {
    match url_segments(url) {
        Some(segments) => segments,
        None => Seq::<Seq<char>>::empty(),
    }
}

/// Decodes a percent-encoded identifier.
pub fn url_decode(value: &str) -> (r: Result<String, IiifError>)
    ensures
        match spec_url_decode(value@) {
            Some(s) => r matches Ok(decoded) && decoded@ == s,
            None => r matches Err(e) && e.is_bad_request("Invalid identifier: "@, value@),
        },
{
    match percent_decode(value) {
        Ok(decoded) => Ok(decoded),
        Err(_) => Err(IiifError::bad_request("Invalid identifier: ", value)),
    }
}

/// Percent-encodes an identifier.
pub fn url_encode(value: &str) -> (r: String)
    ensures
        r@ == spec_url_encode(value@),
{
    percent_encode(value)
}

/// A request for a derivative of an image.
#[derive(Debug)]
pub struct IiifImage {
    pub identifier: String,
    pub region: Region,
    pub size: Size,
    pub rotation: Rotation,
    pub quality: Quality,
    pub format: Format,
}

/// The mathematical model of a request: the identifier as a text and the
/// five parameters.
pub struct Request {
    pub identifier: Seq<char>,
    pub region: Region,
    pub size: Size,
    pub rotation: Rotation,
    pub quality: Quality,
    pub format: Format,
}

/// Why five segments are no request: whether the URL as such is blamed or
/// the request's syntax, and the two halves of the message.
pub struct Fault {
    pub invalid_url: bool,
    pub reason: Seq<char>,
    pub value: Seq<char>,
}

impl Fault {
    /// Whether an error reports this fault.
    pub open spec fn is_reported_by(self, e: IiifError) -> bool {
        if self.invalid_url {
            e.is_invalid_url(self.reason, self.value)
        } else {
            e.is_bad_request(self.reason, self.value)
        }
    }
}

/// The fault of a parameter that cannot be read.
pub open spec fn invalid_param(name: Seq<char>, value: Seq<char>) -> Fault {
    Fault { invalid_url: true, reason: "Invalid "@ + name + " format: "@, value }
}

/// The request that five segments write, or the first fault among them, in
/// the order identifier, region, size, rotation, quality and format.
///
/// The identifier is percent-decoded and must not be empty. The last segment
/// is the quality and the format on either side of its only dot.
pub open spec fn spec_parse_request(
    identifier: Seq<char>,
    region: Seq<char>,
    size: Seq<char>,
    rotation: Seq<char>,
    last: Seq<char>,
) -> Result<Request, Fault> {
    let halves = split(last, '.');
    if spec_url_decode(identifier) is None {
        Err(Fault { invalid_url: false, reason: "Invalid identifier: "@, value: identifier })
    } else if spec_url_decode(identifier)->0.len() == 0 {
        Err(Fault { invalid_url: true, reason: "Identifier cannot be empty"@, value: ""@ })
    } else if spec_parse_region(region) is None {
        Err(invalid_param("region"@, region))
    } else if spec_parse_size(size) is None {
        Err(invalid_param("size"@, size))
    } else if spec_parse_rotation(rotation) is None {
        Err(invalid_param("rotation"@, rotation))
    } else if halves.len() != 2 {
        Err(Fault { invalid_url: true, reason: "Invalid quality.format segment: "@, value: last })
    } else if spec_parse_quality(halves[0]) is None {
        Err(invalid_param("quality"@, halves[0]))
    } else if spec_parse_format(halves[1]) is None {
        Err(invalid_param("format"@, halves[1]))
    } else {
        Ok(
            Request {
                identifier: spec_url_decode(identifier)->0,
                region: spec_parse_region(region)->0,
                size: spec_parse_size(size)->0,
                rotation: spec_parse_rotation(rotation)->0,
                quality: spec_parse_quality(halves[0])->0,
                format: spec_parse_format(halves[1])->0,
            },
        )
    }
}

/// The request that the last five of a list of segments write; the fault of
/// a list that is too short.
pub open spec fn spec_parse_segments(segments: Seq<Seq<char>>) -> Result<Request, Fault> {
    if segments.len() < 5 {
        Err(Fault { invalid_url: true, reason: "URL does not have enough segments"@, value: ""@ })
    } else {
        let n = segments.len() as int;
        spec_parse_request(
            segments[n - 5],
            segments[n - 4],
            segments[n - 3],
            segments[n - 2],
            segments[n - 1],
        )
    }
}

/// The texts held by a vector of strings.
pub open spec fn strings(parts: Seq<String>) -> Seq<Seq<char>> {
    Seq::new(parts.len(), |i: int| parts[i]@)
}

impl View for IiifImage {
    type V = Request;

    open spec fn view(&self) -> Request {
        Request {
            identifier: self.identifier@,
            region: self.region,
            size: self.size,
            rotation: self.rotation,
            quality: self.quality,
            format: self.format,
        }
    }
}

impl Request {
    /// The canonical string of the request:
    /// `identifier/region/size/rotation/quality.format`, the identifier
    /// percent-encoded.
    pub open spec fn spec_text(self) -> Seq<char> {
        spec_url_encode(self.identifier) + seq!['/'] + self.region.spec_text() + seq!['/']
            + self.size.spec_text() + seq!['/'] + self.rotation.spec_text() + seq!['/']
            + self.quality.spec_text() + seq!['.'] + self.format.spec_text()
    }

    /// Every number of the request is well formed.
    pub open spec fn wf(self) -> bool {
        self.region.wf() && self.rotation.wf()
    }
}

impl IiifImage {
    /// Whether a parsing outcome is the one that `expected` names.
    pub open spec fn parsed_as(
        r: Result<IiifImage, IiifError>,
        expected: Result<Request, Fault>,
    ) -> bool {
        match expected {
            Ok(request) => r matches Ok(image) && image@ == request && request.wf(),
            Err(fault) => r matches Err(e) && fault.is_reported_by(e),
        }
    }

    /// Refuses an empty identifier.
    pub fn validate_identifier(identifier: &str) -> (r: Result<String, IiifError>)
        ensures
            if identifier@.len() == 0 {
                r matches Err(e) && e.is_invalid_url("Identifier cannot be empty"@, ""@)
            } else {
                r matches Ok(s) && s@ == identifier@
            },
    {
        if identifier.is_empty() {
            Err(IiifError::invalid_url("Identifier cannot be empty", ""))
        } else {
            Ok(String::from_str(identifier))
        }
    }

    /// Splits the last segment into quality and format at its only dot.
    pub fn parse_quality_format(segment: &str) -> (r: Result<(String, String), IiifError>)
        ensures
            if split(segment@, '.').len() == 2 {
                r matches Ok(halves) && halves.0@ == split(segment@, '.')[0] && halves.1@ == split(
                    segment@,
                    '.',
                )[1]
            } else {
                r matches Err(e) && e.is_invalid_url("Invalid quality.format segment: "@, segment@)
            },
    {
        let parts = split_text(&chars_of(segment), '.');
        if parts.len() != 2 {
            return Err(IiifError::invalid_url("Invalid quality.format segment: ", segment));
        }
        assert(texts(parts@)[0] == parts@[0]@);
        assert(texts(parts@)[1] == parts@[1]@);
        Ok((string_of(&parts[0]), string_of(&parts[1])))
    }

    /// What the reading of one parameter becomes: its value, or an invalid
    /// URL that names the parameter and the text that could not be read.
    pub fn parse_param<T>(parsed: Result<T, IiifError>, value: &str, param_name: &str) -> (r:
        Result<T, IiifError>)
        ensures
            match parsed {
                Ok(v) => r == Ok::<T, IiifError>(v),
                Err(_) => r matches Err(e) && invalid_param(param_name@, value@).is_reported_by(
                    e,
                ),
            },
    {
        match parsed {
            Ok(v) => Ok(v),
            Err(_) => {
                let reason = String::from_str("Invalid ").concat(param_name).concat(
                    " format: ",
                );
                Err(IiifError::invalid_url(reason.as_str(), value))
            },
        }
    }

    /// Reads a request from its five segments.
    pub fn from_parts(
        identifier: &str,
        region: &str,
        size: &str,
        rotation: &str,
        last: &str,
    ) -> (r: Result<IiifImage, IiifError>)
        ensures
            IiifImage::parsed_as(
                r,
                spec_parse_request(identifier@, region@, size@, rotation@, last@),
            ),
    {
        let decoded = url_decode(identifier)?;
        let identifier = IiifImage::validate_identifier(decoded.as_str())?;
        let region = IiifImage::parse_param(Region::from_str(region), region, "region")?;
        let size = IiifImage::parse_param(Size::from_str(size), size, "size")?;
        let rotation = IiifImage::parse_param(Rotation::from_str(rotation), rotation, "rotation")?;
        let (quality_str, format_str) = IiifImage::parse_quality_format(last)?;
        let quality = IiifImage::parse_param(
            Quality::from_str(quality_str.as_str()),
            quality_str.as_str(),
            "quality",
        )?;
        let format = IiifImage::parse_param(
            Format::from_str(format_str.as_str()),
            format_str.as_str(),
            "format",
        )?;
        Ok(IiifImage { identifier, region, size, rotation, quality, format })
    }

    /// Reads a request from the last five of a list of path segments.
    pub fn from_segments(segments: &Vec<String>) -> (r: Result<IiifImage, IiifError>)
        ensures
            IiifImage::parsed_as(r, spec_parse_segments(strings(segments@))),
    {
        let n: usize = segments.len();
        if n < 5 {
            return Err(IiifError::invalid_url("URL does not have enough segments", ""));
        }
        assert(strings(segments@)[n - 5] == segments@[n - 5]@);
        assert(strings(segments@)[n - 4] == segments@[n - 4]@);
        assert(strings(segments@)[n - 3] == segments@[n - 3]@);
        assert(strings(segments@)[n - 2] == segments@[n - 2]@);
        assert(strings(segments@)[n - 1] == segments@[n - 1]@);
        IiifImage::from_parts(
            segments[n - 5].as_str(),
            segments[n - 4].as_str(),
            segments[n - 3].as_str(),
            segments[n - 2].as_str(),
            segments[n - 1].as_str(),
        )
    }

    /// Reads a request from the path of a URL: the text between its
    /// slashes, of which the last five segments count.
    pub fn parse_path(path: &str) -> (r: Result<IiifImage, IiifError>)
        ensures
            IiifImage::parsed_as(r, spec_parse_segments(split(path@, '/'))),
    {
        let parts = split_text(&chars_of(path), '/');
        let mut segments: Vec<String> = Vec::new();
        let mut i: usize = 0;
        while i < parts.len()
            invariant
                i <= parts.len(),
                segments.len() == i,
                forall|k: int| 0 <= k < i ==> segments@[k]@ == parts@[k]@,
            decreases parts.len() - i,
        {
            segments.push(string_of(&parts[i]));
            i += 1;
        }
        assert(strings(segments@) == texts(parts@));
        IiifImage::from_segments(&segments)
    }

    /// Reads a request from a URL: from the segments of its path, of which
    /// a URL that cannot be a base has none.
    pub fn try_from_url(url: &url::Url) -> (r: Result<IiifImage, IiifError>)
        ensures
            IiifImage::parsed_as(r, spec_parse_segments(path_segments_of(*url))),
    {
        let segments = match url_path_segments(url) {
            Some(segments) => segments,
            None => Vec::new(),
        };
        assert(strings(segments@) == path_segments_of(*url));
        IiifImage::from_segments(&segments)
    }

    /// The canonical string of the request, which names its derivative.
    pub fn to_string(&self) -> (r: String)
        ensures
            r@ == self@.spec_text(),
    {
        let mut out: Vec<char> = Vec::new();
        let id = url_encode(self.identifier.as_str());
        push_str(&mut out, id.as_str());
        out.push('/');
        self.region.push_text(&mut out);
        out.push('/');
        self.size.push_text(&mut out);
        out.push('/');
        self.rotation.push_text(&mut out);
        out.push('/');
        let quality = self.quality.to_string();
        push_str(&mut out, quality.as_str());
        out.push('.');
        let format = self.format.to_string();
        push_str(&mut out, format.as_str());
        string_of(&out)
    }
}

impl vstd::std_specs::convert::TryFromSpecImpl<url::Url> for IiifImage {
    /// Nothing is known of a URL, so the conversion has no specification.
    open spec fn obeys_try_from_spec() -> bool {
        false
    }

    open spec fn try_from_spec(v: url::Url) -> Result<Self, IiifError> {
        arbitrary()
    }
}

impl TryFrom<url::Url> for IiifImage {
    type Error = IiifError;

    /// Reads a request from a URL, as [`IiifImage::try_from_url`] does:
    /// from the last five segments of its path.
    fn try_from(url: url::Url) -> (r: Result<Self, Self::Error>)
        ensures
            IiifImage::parsed_as(r, spec_parse_segments(path_segments_of(url))),
    {
        IiifImage::try_from_url(&url)
    }
}

/// The bytes of a text of ASCII characters.
pub open spec fn ascii_bytes(text: Seq<char>) -> Seq<u8> {
    Seq::new(text.len(), |i: int| text[i] as u8)
}

/// Whether a character may stand in a percent-encoded text.
pub open spec fn is_encoded_char(c: char) -> bool {
    c == '%' || (c as u32 <= 127 && is_unreserved(c as u8))
}

/// A hexadecimal digit is a digit or one of the letters `A` to `F`, and
/// stands for its number.
pub proof fn lemma_hex_digit(d: int)
    requires
        0 <= d < 16,
    ensures
        is_encoded_char(hex_digit(d)),
        hex_value(hex_digit(d) as u8) == Some(d),
{
    if d < 10 {
        assert(hex_digit(d) as u32 == 48 + d);
    } else {
        assert(hex_digit(d) as u32 == 55 + d);
    }
}

/// What stands for a byte is made of the characters of a percent-encoded
/// text.
pub proof fn lemma_escaped_chars(b: u8)
    ensures
        forall|i: int| 0 <= i < escaped(b).len() ==> is_encoded_char(#[trigger] escaped(b)[i]),
{
    lemma_hex_digit(b as int / 16);
    lemma_hex_digit(b as int % 16);
    if is_unreserved(b) {
        assert((b as char) as u32 == b);
    }
}

/// A percent-encoded text is made of `%`, letters, digits, `-`, `.`, `_`
/// and `~` alone: ASCII characters, none of them a slash.
pub proof fn lemma_percent_encoded_chars(bytes: Seq<u8>)
    ensures
        forall|i: int|
            0 <= i < percent_encoded(bytes).len() ==> is_encoded_char(
                #[trigger] percent_encoded(bytes)[i],
            ),
        !percent_encoded(bytes).contains('/'),
        vstd::utf8::is_ascii_chars(percent_encoded(bytes)),
    decreases bytes.len(),
{
    let t = percent_encoded(bytes);
    if bytes.len() > 0 {
        let e = escaped(bytes[0]);
        let r = percent_encoded(bytes.drop_first());
        lemma_escaped_chars(bytes[0]);
        lemma_percent_encoded_chars(bytes.drop_first());
        assert forall|i: int| 0 <= i < t.len() implies is_encoded_char(#[trigger] t[i]) by {
            if i < e.len() {
                assert(t[i] == e[i]);
            } else {
                assert(t[i] == r[i - e.len()]);
            }
        }
    }
    assert forall|i: int| 0 <= i < t.len() implies t[i] != '/' && '\0' <= t[i] <= '\u{7f}' by {
        assert(is_encoded_char(t[i]));
    }
}

/// Decoding what stands for a byte, followed by more, gives the byte,
/// followed by what the rest decodes to.
pub proof fn lemma_decode_escaped(b: u8, rest: Seq<u8>)
    ensures
        percent_decoded(ascii_bytes(escaped(b)) + rest) == seq![b] + percent_decoded(rest),
{
    let t = ascii_bytes(escaped(b)) + rest;
    if is_unreserved(b) {
        assert((b as char) as u8 == b);
        assert(t[0] == b);
        assert(t.drop_first() == rest);
    } else {
        let hi = b as int / 16;
        let lo = b as int % 16;
        lemma_hex_digit(hi);
        lemma_hex_digit(lo);
        assert(t[0] == 37);
        assert(t[1] == hex_digit(hi) as u8);
        assert(t[2] == hex_digit(lo) as u8);
        assert(t.skip(3) == rest);
        assert((hi * 16 + lo) as u8 == b);
    }
}

/// Decoding the bytes of a percent-encoded text gives the bytes that were
/// encoded.
pub proof fn lemma_percent_round_trip(bytes: Seq<u8>)
    ensures
        percent_decoded(ascii_bytes(percent_encoded(bytes))) == bytes,
    decreases bytes.len(),
{
    if bytes.len() > 0 {
        let e = escaped(bytes[0]);
        let r = percent_encoded(bytes.drop_first());
        lemma_percent_round_trip(bytes.drop_first());
        assert(ascii_bytes(e + r) == ascii_bytes(e) + ascii_bytes(r));
        lemma_decode_escaped(bytes[0], ascii_bytes(r));
        assert(seq![bytes[0]] + bytes.drop_first() == bytes);
    } else {
        assert(ascii_bytes(percent_encoded(bytes)) == Seq::<u8>::empty());
    }
}

/// A percent-encoded identifier decodes to the identifier.
pub proof fn lemma_url_round_trip(s: Seq<char>)
    ensures
        spec_url_decode(spec_url_encode(s)) == Some(s),
        !spec_url_encode(s).contains('/'),
{
    let bytes = encode_utf8(s);
    let text = percent_encoded(bytes);
    lemma_percent_encoded_chars(bytes);
    vstd::utf8::is_ascii_chars_encode_utf8(text);
    assert(encode_utf8(text) == ascii_bytes(text));
    lemma_percent_round_trip(bytes);
    vstd::utf8::encode_utf8_valid_utf8(s);
    vstd::utf8::encode_utf8_decode_utf8(s);
}

impl Request {
    /// Whether the request is one that a URL can write: every number well
    /// formed, a percentage of the size without the upscale marker at most
    /// 100, and an identifier that is not empty.
    pub open spec fn is_valid(self) -> bool {
        self.wf() && self.size.wf() && self.identifier.len() > 0
    }

    /// The last segment of the canonical string: quality, dot, format.
    pub open spec fn last_segment(self) -> Seq<char> {
        self.quality.spec_text() + seq!['.'] + self.format.spec_text()
    }
}

/// The last segment of a canonical string reads back as quality and format.
proof fn lemma_last_segment(request: Request)
    ensures
        !request.last_segment().contains('/'),
        split(request.last_segment(), '.') == seq![
            request.quality.spec_text(),
            request.format.spec_text(),
        ],
{
    let q = request.quality.spec_text();
    let f = request.format.spec_text();
    reveal_strlit("default");
    reveal_strlit("color");
    reveal_strlit("gray");
    reveal_strlit("bitonal");
    reveal_strlit("jpg");
    reveal_strlit("tif");
    reveal_strlit("png");
    reveal_strlit("gif");
    reveal_strlit("jp2");
    reveal_strlit("pdf");
    reveal_strlit("webp");
    assert(!q.contains('.') && !q.contains('/'));
    assert(!f.contains('.') && !f.contains('/'));
    lemma_split_concat(q, '.', f);
    lemma_split_single(f, '.');
    assert(!seq!['.'].contains('/'));
    lemma_concat_lacks(q, seq!['.'], '/');
    lemma_concat_lacks(q + seq!['.'], f, '/');
}

/// The segments of the canonical string of a request are the
/// percent-encoded identifier, the texts of region, size and rotation, and
/// quality, dot, format.
pub proof fn lemma_request_segments(request: Request)
    requires
        request.wf(),
    ensures
        split(request.spec_text(), '/') == seq![
            spec_url_encode(request.identifier),
            request.region.spec_text(),
            request.size.spec_text(),
            request.rotation.spec_text(),
            request.last_segment(),
        ],
{
    let id = spec_url_encode(request.identifier);
    let region = request.region.spec_text();
    let size = request.size.spec_text();
    let rotation = request.rotation.spec_text();
    let last = request.last_segment();
    lemma_url_round_trip(request.identifier);
    lemma_region_text_has_no_slash(request.region);
    lemma_size_text_has_no_slash(request.size);
    lemma_decimal_chars(request.rotation.degrees());
    assert(!rotation.contains('/')) by {
        assert(!seq!['!'].contains('/'));
        lemma_concat_lacks(seq!['!'], request.rotation.degrees().spec_text(), '/');
    }
    lemma_last_segment(request);
    lemma_split_five(id, region, size, rotation, last, '/');
    assert(request.spec_text() == id + seq!['/'] + region + seq!['/'] + size + seq!['/'] + rotation
        + seq!['/'] + last);
}

/// The canonical string of a valid request reads back as the request: its
/// five segments are those of the request, and each reads as its part.
pub proof fn lemma_request_round_trip(request: Request)
    requires
        request.is_valid(),
    ensures
        spec_parse_segments(split(request.spec_text(), '/')) == Ok::<Request, Fault>(request),
{
    let last = request.last_segment();
    lemma_request_segments(request);
    let segments = split(request.spec_text(), '/');
    assert(segments[0] == spec_url_encode(request.identifier) && segments[1]
        == request.region.spec_text() && segments[2] == request.size.spec_text() && segments[3]
        == request.rotation.spec_text() && segments[4] == last);
    lemma_url_round_trip(request.identifier);
    lemma_last_segment(request);
    lemma_region_round_trip(request.region);
    lemma_size_round_trip(request.size);
    lemma_rotation_round_trip(request.rotation);
    lemma_quality_round_trip(request.quality);
    lemma_format_round_trip(request.format);
    let halves = split(last, '.');
    assert(halves[0] == request.quality.spec_text());
    assert(halves[1] == request.format.spec_text());
}

/// Two requests with the same canonical string are the same request: no two
/// derivatives share a cache key. This holds of every pair of requests
/// whose numbers are well formed, an empty identifier and a percentage
/// above 100 without the upscale marker included.
pub proof fn lemma_cache_key_injective(a: Request, b: Request)
    requires
        a.wf(),
        b.wf(),
        a.spec_text() == b.spec_text(),
    ensures
        a == b,
{
    lemma_request_segments(a);
    lemma_request_segments(b);
    let sa = split(a.spec_text(), '/');
    let sb = split(b.spec_text(), '/');
    assert(sa[0] == sb[0] && sa[1] == sb[1] && sa[2] == sb[2] && sa[3] == sb[3] && sa[4] == sb[4]);
    assert(a.identifier == b.identifier) by {
        lemma_url_round_trip(a.identifier);
        lemma_url_round_trip(b.identifier);
    }
    assert(a.region == b.region) by {
        lemma_region_round_trip(a.region);
        lemma_region_round_trip(b.region);
    }
    assert(a.size == b.size) by {
        lemma_size_text_injective(a.size, b.size);
    }
    assert(a.rotation == b.rotation) by {
        lemma_rotation_round_trip(a.rotation);
        lemma_rotation_round_trip(b.rotation);
    }
    assert(a.quality == b.quality && a.format == b.format) by {
        lemma_last_segment(a);
        lemma_last_segment(b);
        let ha = split(a.last_segment(), '.');
        let hb = split(b.last_segment(), '.');
        assert(ha[0] == hb[0] && ha[1] == hb[1]);
        lemma_quality_round_trip(a.quality);
        lemma_quality_round_trip(b.quality);
        lemma_format_round_trip(a.format);
        lemma_format_round_trip(b.format);
    }
}

/// Two requests that differ in their quality alone have different canonical
/// strings.
pub proof fn lemma_quality_changes_cache_key(a: Request, b: Request)
    requires
        a.identifier == b.identifier,
        a.region == b.region,
        a.size == b.size,
        a.rotation == b.rotation,
        a.format == b.format,
        a.quality != b.quality,
    ensures
        a.spec_text() != b.spec_text(),
{
    let head = spec_url_encode(a.identifier) + seq!['/'] + a.region.spec_text() + seq!['/']
        + a.size.spec_text() + seq!['/'] + a.rotation.spec_text() + seq!['/'];
    let tail = seq!['.'] + a.format.spec_text();
    reveal_strlit("default");
    reveal_strlit("color");
    reveal_strlit("gray");
    reveal_strlit("bitonal");
    let x = a.quality.spec_text();
    let y = b.quality.spec_text();
    assert(x != y) by {
        if x == y {
            assert(x.len() == y.len());
            assert(x[0] == y[0]);
        }
    }
    lemma_middle_differs(head, x, y, tail);
    assert(a.spec_text() == head + x + tail);
    assert(b.spec_text() == head + y + tail);
}

} // verus!
