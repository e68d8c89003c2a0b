//! The encoding unit: one file's bytes and path, its classification, and its
//! canonical form (UTF-8 behind a byte-order mark).

use vstd::prelude::*;

verus! {

/// Label under which the detector reports UTF-8, in upper case.
pub const UTF8: &'static str = "UTF-8";

/// Label under which the detector reports seven-bit text, in upper case.
pub const ASCII: &'static str = "ASCII";

/// Bit pattern of the single-precision number 0.7, the confidence that a
/// verdict must exceed to be believed.
pub const PROBABILITY_AT_LEAST: u32 = 0x3F33_3333;

/// Bit pattern of single-precision positive infinity.
pub const POSITIVE_INFINITY: u32 = 0x7F80_0000;

/// The three bytes of the UTF-8 byte-order mark.
pub open spec fn bom() -> Seq<u8> {
    seq![0xEFu8, 0xBBu8, 0xBFu8]
}

/// How a file's bytes are encoded.
#[derive(Debug, Clone, Copy, PartialEq, Eq, Structural)]
pub enum EncodingType {
    /// Valid UTF-8 without a byte-order mark.
    UTF8,
    /// UTF-8 behind the byte-order mark.
    UTF8BOM,
    /// Anything else; read as GB18030 when converted.
    Other,
}

impl Default for EncodingType {
    fn default() -> (encoding: EncodingType)
        ensures
            encoding == EncodingType::Other,
    {
        EncodingType::Other
    }
}

/// Whether `bytes` begins with the byte-order mark.
pub open spec fn starts_with_bom(bytes: Seq<u8>) -> bool {
    bytes.len() >= 3 && bytes.subrange(0, 3) == bom()
}

/// Whether a confidence, given by its single-precision bit pattern, is a
/// number greater than 0.7.
///
/// Non-negative single-precision numbers are ordered as their bit patterns
/// are. Patterns above that of positive infinity hold no number, and patterns
/// with the sign bit set hold negative numbers, negative zero, or no number.
pub open spec fn is_confident(confidence: u32) -> bool {
    PROBABILITY_AT_LEAST < confidence <= POSITIVE_INFINITY
}

/// Whether a verdict names UTF-8 or seven-bit text with enough confidence.
/// `label` is the detector's label in upper case.
pub open spec fn is_unicode_verdict(label: Seq<char>, confidence: u32) -> bool {
    (label == UTF8@ || label == ASCII@) && is_confident(confidence)
}

/// The classification of `bytes` under a detector verdict.
pub open spec fn classification(label: Seq<char>, confidence: u32, bytes: Seq<u8>) -> EncodingType {
    if is_unicode_verdict(label, confidence) {
        if starts_with_bom(bytes) {
            EncodingType::UTF8BOM
        } else {
            EncodingType::UTF8
        }
    } else {
        EncodingType::Other
    }
}

/// Tells whether `bytes` begins with the byte-order mark.
pub fn has_bom(bytes: &[u8]) -> (found: bool)
    ensures
        found == starts_with_bom(bytes@),
{
    if bytes.len() < 3 {
        return false;
    }
    let found = bytes[0] == 0xEF && bytes[1] == 0xBB && bytes[2] == 0xBF;
    proof {
        if found {
            assert(bytes@.subrange(0, 3) =~= bom());
        } else {
            assert(bytes@.subrange(0, 3)[0] == bytes@[0]);
            assert(bytes@.subrange(0, 3)[1] == bytes@[1]);
            assert(bytes@.subrange(0, 3)[2] == bytes@[2]);
        }
    }
    found
}

/// Classifies `bytes` given what the detector said of them: `label` is the
/// charset it named, in upper case, and `confidence` the bit pattern of its
/// single-precision confidence.
pub fn classify(label: &str, confidence: u32, bytes: &[u8]) -> (encoding: EncodingType)
    ensures
        encoding == classification(label@, confidence, bytes@),
{
    let named = str_eq(label, UTF8) || str_eq(label, ASCII);
    if named && PROBABILITY_AT_LEAST < confidence && confidence <= POSITIVE_INFINITY {
        if has_bom(bytes) {
            EncodingType::UTF8BOM
        } else {
            EncodingType::UTF8
        }
    } else {
        EncodingType::Other
    }
}

/// What the charset detector says of a buffer: its label as the detector
/// spells it, and the bit pattern of its single-precision confidence.
pub uninterp spec fn detection(bytes: Seq<u8>) -> (Seq<char>, u32);

/// The upper-case form of a text under the Unicode case mapping.
pub uninterp spec fn uppercase(text: Seq<char>) -> Seq<char>;

/// The text that the GB18030 decoder reads from a buffer.
pub uninterp spec fn gb18030_text(bytes: Seq<u8>) -> Seq<char>;

/// Whether the detector counts `byte` as a high byte: one with the top bit
/// set, other than 0xA0.
pub open spec fn is_high_byte(byte: u8) -> bool {
    byte >= 0x80 && byte != 0xA0
}

/// Whether `bytes` is escape-coded seven-bit text: it holds an escape byte and
/// no high byte. Such a buffer belongs to the ISO-2022 family or to HZ if it
/// is text at all, and the detector is not consulted on it.
pub open spec fn is_escape_coded(bytes: Seq<u8>) -> bool {
    &&& exists|i: int| 0 <= i < bytes.len() && bytes[i] == 0x1Bu8
    &&& forall|i: int| 0 <= i < bytes.len() ==> !is_high_byte(#[trigger] bytes[i])
}

/// Whether a buffer of `len` bytes is within the size that the library
/// handles: the detector counts what it reads in 32 bits, and the decoder
/// sizes its output at several bytes for each byte read.
pub open spec fn is_supported_len(len: nat) -> bool {
    len <= i32::MAX && 8 * len + 8 <= isize::MAX
}

/// The classification of a buffer: `Other` for escape-coded text, else what
/// the detector's verdict, its label put in upper case, makes of it.
pub open spec fn encoding_of(bytes: Seq<u8>) -> EncodingType {
    if is_escape_coded(bytes) {
        EncodingType::Other
    } else {
        classification(uppercase(detection(bytes).0), detection(bytes).1, bytes)
    }
}

/// The canonical form of a buffer of a given classification: UTF-8 behind the
/// byte-order mark.
pub open spec fn canonical_form(encoding: EncodingType, bytes: Seq<u8>) -> Seq<u8> {
    match encoding {
        EncodingType::UTF8 => bom() + bytes,
        EncodingType::UTF8BOM => bytes,
        EncodingType::Other => bom() + vstd::utf8::encode_utf8(gb18030_text(bytes)),
    }
}

/// The content of a file after its conversion.
pub open spec fn converted(bytes: Seq<u8>) -> Seq<u8> {
    canonical_form(encoding_of(bytes), bytes)
}

/// Whether the detector's verdict on a buffer names UTF-8 or seven-bit text
/// with enough confidence.
pub open spec fn detector_trusts(bytes: Seq<u8>) -> bool {
    is_unicode_verdict(uppercase(detection(bytes).0), detection(bytes).1)
}

/// What converting a buffer writes back: nothing where it already carries the
/// byte-order mark, else its canonical form.
pub open spec fn rewrite_of(bytes: Seq<u8>) -> Option<Seq<u8>> {
    if encoding_of(bytes) == EncodingType::UTF8BOM {
        None
    } else {
        Some(canonical_form(encoding_of(bytes), bytes))
    }
}

/// Runs `chardet::detect` on a buffer and hands back its label and the bit
/// pattern of its confidence; the language it also reports is dropped.
///
/// The detector is a function of the buffer alone. It ends in an unreachable
/// arm on escape-coded buffers in which it recognises no charset, and one of
/// its counters is a signed 32-bit number, so such buffers and those too long
/// for that counter are kept away from it.
#[verifier::external_body]
fn detect(bytes: &[u8]) -> (verdict: (String, u32))
    requires
        !is_escape_coded(bytes@),
        is_supported_len(bytes@.len()),
    ensures
        verdict.0@ == detection(bytes@).0,
        verdict.1 == detection(bytes@).1,
{
    let (label, confidence, _) = chardet::detect(bytes);
    (label, confidence.to_bits())
}

/// Calls `str::to_uppercase`, which maps each character to its upper-case
/// equivalent under the Unicode case mapping.
#[verifier::external_body]
fn to_uppercase(text: &str) -> (upper: String)
    ensures
        upper@ == uppercase(text@),
{
    text.to_uppercase()
}

/// Calls `encoding_rs::GB18030.decode` and keeps the decoded text.
///
/// The decoder never fails: it puts the replacement character in place of each
/// malformed sequence. It first looks for a UTF-8 or UTF-16 byte-order mark
/// and, where it finds one, reads the rest in that encoding instead. It panics
/// only where the size of its output buffer overflows.
#[verifier::external_body]
fn decode_gb18030(bytes: &[u8]) -> (text: String)
    requires
        is_supported_len(bytes@.len()),
    ensures
        text@ == gb18030_text(bytes@),
{
    let (text, _, _) = encoding_rs::GB18030.decode(bytes);
    text.into_owned()
}

/// Tells whether `bytes` is escape-coded seven-bit text.
pub fn escape_coded(bytes: &[u8]) -> (coded: bool)
    ensures
        coded == is_escape_coded(bytes@),
{
    let mut escaped = false;
    let mut i: usize = 0;
    while i < bytes.len()
        invariant
            i <= bytes.len(),
            escaped == (exists|j: int| 0 <= j < i && bytes@[j] == 0x1Bu8),
            forall|j: int| 0 <= j < i ==> !is_high_byte(#[trigger] bytes@[j]),
        decreases bytes.len() - i,
    {
        let byte = bytes[i];
        if byte >= 0x80 && byte != 0xA0 {
            assert(is_high_byte(bytes@[i as int]));
            return false;
        }
        if byte == 0x1B {
            escaped = true;
        }
        i += 1;
    }
    escaped
}

/// Puts the byte-order mark in front of `content`.
pub fn with_bom(content: &[u8]) -> (marked: Vec<u8>)
    ensures
        marked@ == bom() + content@,
{
    let mut marked: Vec<u8> = Vec::new();
    marked.push(0xEF);
    marked.push(0xBB);
    marked.push(0xBF);
    let mut i: usize = 0;
    while i < content.len()
        invariant
            i <= content.len(),
            marked@ == bom() + content@.subrange(0, i as int),
        decreases content.len() - i,
    {
        marked.push(content[i]);
        assert(content@.subrange(0, i + 1) == content@.subrange(0, i as int).push(content@[i as int]));
        i += 1;
    }
    assert(content@.subrange(0, content.len() as int) == content@);
    marked
}

/// Tells whether `bytes` is within the size that the library handles.
pub fn is_supported(bytes: &[u8]) -> (fits: bool)
    ensures
        fits == is_supported_len(bytes@.len()),
{
    bytes.len() <= 0x7FFF_FFFF && bytes.len() <= (isize::MAX as usize - 8) / 8
}

/// Classifies a buffer: asks the detector, unless the buffer is escape-coded,
/// and judges its verdict.
pub fn detect_encoding(bytes: &[u8]) -> (encoding: EncodingType)
    requires
        is_supported_len(bytes@.len()),
    ensures
        encoding == encoding_of(bytes@),
{
    if escape_coded(bytes) {
        return EncodingType::Other;
    }
    let (label, confidence) = detect(bytes);
    let label = to_uppercase(label.as_str());
    classify(label.as_str(), confidence, bytes)
}

/// One file held in memory: its path and its whole content.
pub struct Coder {
    bytes: Vec<u8>,
    filepath: String,
}

/// A failed write of a converted file: the path of the file, and what the
/// file system gave as the cause.
#[derive(Debug)]
pub struct ConvertError {
    pub file: String,
    pub source: String,
}

impl ConvertError {
    /// The error as one line: the file, a colon and a space, the cause.
    pub fn message(&self) -> (line: String)
        ensures
            line@ == self.file@ + ": "@ + self.source@,
    {
        let mut line = self.file.clone();
        line.append(": ");
        line.append(self.source.as_str());
        line
    }
}

impl Coder {
    /// The file's content.
    pub closed spec fn content(&self) -> Seq<u8> {
        self.bytes@
    }

    /// The file's path.
    pub closed spec fn path(&self) -> Seq<char> {
        self.filepath@
    }

    /// Takes charge of a file's content, read in full, and of its path.
    pub fn new(filepath: &str, bytes: Vec<u8>) -> (coder: Coder)
        ensures
            coder.content() == bytes@,
            coder.path() == filepath@,
    {
        Coder { bytes, filepath: filepath.to_owned() }
    }

    /// The path that the file was read from and is written back to.
    pub fn filepath(&self) -> (filepath: &str)
        ensures
            filepath@ == self.path(),
    {
        self.filepath.as_str()
    }

    /// The content that was read.
    pub fn bytes(&self) -> (bytes: &[u8])
        ensures
            bytes@ == self.content(),
    {
        self.bytes.as_slice()
    }

    /// Tells whether the content is within the size that the library handles.
    pub fn is_supported(&self) -> (fits: bool)
        ensures
            fits == is_supported_len(self.content().len()),
    {
        is_supported(self.bytes.as_slice())
    }

    /// Classifies the content.
    pub fn encoding(&self) -> (encoding: EncodingType)
        requires
            is_supported_len(self.content().len()),
        ensures
            encoding == encoding_of(self.content()),
    {
        detect_encoding(self.bytes.as_slice())
    }

    /// Computes what has to be written back to bring the file to its
    /// canonical form: nothing where it already carries the byte-order mark,
    /// else the whole new content.
    pub fn convert_to_utf8bom(&self) -> (rewrite: Option<Vec<u8>>)
        requires
            is_supported_len(self.content().len()),
        ensures
            match rewrite {
                Some(bytes) => rewrite_of(self.content()) == Some(bytes@),
                None => rewrite_of(self.content()) is None,
            },
    {
        match self.encoding() {
            EncodingType::UTF8 => Some(with_bom(self.bytes.as_slice())),
            EncodingType::UTF8BOM => None,
            EncodingType::Other => {
                let text = decode_gb18030(self.bytes.as_slice());
                Some(with_bom(text.as_str().as_bytes()))
            },
        }
    }

    /// The error to report when writing the converted file back has failed
    /// for the given cause.
    pub fn write_failed(&self, cause: &str) -> (error: ConvertError)
        ensures
            error.file@ == self.path(),
            error.source@ == cause@,
    {
        ConvertError { file: self.filepath.clone(), source: cause.to_owned() }
    }
}

/// A buffer that begins with the byte-order mark is not escape-coded: the
/// mark's bytes are high bytes.
pub proof fn lemma_marked_is_not_escape_coded(bytes: Seq<u8>)
    requires
        starts_with_bom(bytes),
    ensures
        !is_escape_coded(bytes),
{
    assert(bytes.subrange(0, 3)[0] == bytes[0]);
    assert(is_high_byte(bytes[0]));
}

/// A buffer that begins with the byte-order mark and that the detector trusts
/// to be UTF-8 or seven-bit text is classified `UTF8BOM`.
pub proof fn lemma_trusted_with_mark_is_utf8bom(bytes: Seq<u8>)
    requires
        starts_with_bom(bytes),
        detector_trusts(bytes),
    ensures
        encoding_of(bytes) == EncodingType::UTF8BOM,
{
    lemma_marked_is_not_escape_coded(bytes);
}

/// A buffer without the byte-order mark that is not escape-coded and that the
/// detector trusts to be UTF-8 or seven-bit text is classified `UTF8`.
pub proof fn lemma_trusted_without_mark_is_utf8(bytes: Seq<u8>)
    requires
        !starts_with_bom(bytes),
        !is_escape_coded(bytes),
        detector_trusts(bytes),
    ensures
        encoding_of(bytes) == EncodingType::UTF8,
{
}

/// A buffer is classified `Other` exactly where it is escape-coded or the
/// detector does not trust it to be UTF-8 or seven-bit text: its label is
/// another one, or its confidence is 0.7 or less or no number at all.
pub proof fn lemma_other_iff_not_trusted(bytes: Seq<u8>)
    ensures
        encoding_of(bytes) == EncodingType::Other <==> is_escape_coded(bytes) || !detector_trusts(
            bytes,
        ),
        !is_confident(detection(bytes).1) ==> encoding_of(bytes) == EncodingType::Other,
        uppercase(detection(bytes).0) != UTF8@ && uppercase(detection(bytes).0) != ASCII@
            ==> encoding_of(bytes) == EncodingType::Other,
{
}

/// A buffer classified `UTF8BOM` begins with the byte-order mark, and one
/// classified `UTF8` does not.
pub proof fn lemma_mark_follows_encoding(bytes: Seq<u8>)
    ensures
        encoding_of(bytes) == EncodingType::UTF8BOM ==> starts_with_bom(bytes),
        encoding_of(bytes) == EncodingType::UTF8 ==> !starts_with_bom(bytes),
{
}

/// Converting a file that is already `UTF8BOM` writes nothing and leaves its
/// content as it is.
pub proof fn lemma_convert_keeps_utf8bom(bytes: Seq<u8>)
    requires
        encoding_of(bytes) == EncodingType::UTF8BOM,
    ensures
        rewrite_of(bytes) is None,
        converted(bytes) == bytes,
{
}

/// Whatever a file held, after its conversion it begins with the byte-order
/// mark, and what conversion writes, if anything, is that content.
pub proof fn lemma_converted_has_mark(bytes: Seq<u8>)
    ensures
        starts_with_bom(converted(bytes)),
        !is_escape_coded(converted(bytes)),
        rewrite_of(bytes) matches Some(written) ==> written == converted(bytes),
{
    let after = converted(bytes);
    match encoding_of(bytes) {
        EncodingType::UTF8 => {
            assert(after.subrange(0, 3) =~= bom());
        },
        EncodingType::UTF8BOM => {},
        EncodingType::Other => {
            assert(after.subrange(0, 3) =~= bom());
        },
    }
    lemma_marked_is_not_escape_coded(after);
}

/// Converting a `UTF8` file puts the byte-order mark in front of its content,
/// and classifying the result gives `UTF8BOM` wherever the detector trusts the
/// result to be UTF-8 or seven-bit text.
pub proof fn lemma_convert_utf8_round_trip(bytes: Seq<u8>)
    requires
        encoding_of(bytes) == EncodingType::UTF8,
    ensures
        converted(bytes) == bom() + bytes,
        converted(bytes).subrange(3, converted(bytes).len() as int) == bytes,
        encoding_of(converted(bytes)) != EncodingType::UTF8,
        detector_trusts(converted(bytes)) ==> encoding_of(converted(bytes))
            == EncodingType::UTF8BOM,
{
    lemma_converted_has_mark(bytes);
    assert((bom() + bytes).subrange(3, (bom() + bytes).len() as int) =~= bytes);
}

/// Converting an `Other` file gives the byte-order mark followed by valid
/// UTF-8 that decodes to the text that the GB18030 decoder read from the
/// file, and classifying the result gives `UTF8BOM` wherever the detector
/// trusts the result to be UTF-8 or seven-bit text.
pub proof fn lemma_convert_other_round_trip(bytes: Seq<u8>)
    requires
        encoding_of(bytes) == EncodingType::Other,
    ensures
        converted(bytes).subrange(0, 3) == bom(),
        vstd::utf8::valid_utf8(converted(bytes).subrange(3, converted(bytes).len() as int)),
        vstd::utf8::decode_utf8(converted(bytes).subrange(3, converted(bytes).len() as int))
            == gb18030_text(bytes),
        encoding_of(converted(bytes)) != EncodingType::UTF8,
        detector_trusts(converted(bytes)) ==> encoding_of(converted(bytes))
            == EncodingType::UTF8BOM,
{
    lemma_converted_has_mark(bytes);
    let text = vstd::utf8::encode_utf8(gb18030_text(bytes));
    assert((bom() + text).subrange(3, (bom() + text).len() as int) =~= text);
    vstd::utf8::encode_utf8_valid_utf8(gb18030_text(bytes));
    vstd::utf8::encode_utf8_decode_utf8(gb18030_text(bytes));
}

/// Conversion is idempotent: a converted file is classified `UTF8BOM`
/// wherever the detector trusts it, and converting it again then changes
/// nothing.
pub proof fn lemma_convert_is_idempotent(bytes: Seq<u8>)
    requires
        detector_trusts(converted(bytes)),
    ensures
        encoding_of(converted(bytes)) == EncodingType::UTF8BOM,
        rewrite_of(converted(bytes)) is None,
        converted(converted(bytes)) == converted(bytes),
{
    lemma_converted_has_mark(bytes);
}

/// Tells whether two string slices hold the same characters.
fn str_eq(left: &str, right: &str) -> (same: bool)
    ensures
        same == (left@ == right@),
{
    let a = left.to_owned();
    let b = right.to_owned();
    a == b
}

} // verus!
