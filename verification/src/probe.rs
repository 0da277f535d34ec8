//! The raw file prober: what the first bytes of a file show, whether or
//! not the file can be decoded.

use vstd::prelude::*;
use vstd::slice::slice_subrange;
use crate::report::{DebugModel, DicomDebugInfo};
use crate::tag::{hex_digit, hex_digit_char};
use crate::text::{decimal_text, push_decimal};

verus! {

/// How many bytes from the start of a file are looked at.
pub const HEADER_LEN: usize = 256;

/// The length of the preamble that opens a file.
pub const PREAMBLE_LEN: usize = 128;

/// Where the four-byte marker ends that follows the preamble.
pub const MARKER_END: usize = 132;

/// How many bytes of an identifier are read at most.
pub const UID_MAX_LEN: usize = 64;

/// The text that `String::from_utf8_lossy` decodes from `bytes`: the bytes
/// read as UTF-8, with U+FFFD in place of what is not valid.
pub uninterp spec fn lossy_text(bytes: Seq<u8>) -> Seq<char>;

/// Decodes bytes as UTF-8 with `String::from_utf8_lossy`, which puts the
/// replacement character in place of invalid sequences and never fails.
/// The text is a function of the bytes alone; it is named, not spelled out.
#[verifier::external_body]
fn decode_lossy(bytes: &[u8]) -> (text: String)
    ensures
        text@ == lossy_text(bytes@),
{
    String::from_utf8_lossy(bytes).into_owned()
}

/// The two upper-case hexadecimal digits of a byte.
pub open spec fn hex2(b: u8) -> Seq<char> {
    seq![hex_digit(b as int / 16), hex_digit(b as int % 16)]
}

/// The bytes in hexadecimal, two digits each, separated by a comma and a
/// space.
pub open spec fn hex_list(bytes: Seq<u8>) -> Seq<char>
    decreases bytes.len(),
{
    if bytes.len() == 0 {
        Seq::empty()
    } else if bytes.len() == 1 {
        hex2(bytes[0])
    } else {
        hex_list(bytes.drop_last()) + seq![',', ' '] + hex2(bytes.last())
    }
}

/// The rendering of a run of bytes: the hexadecimal list in square
/// brackets.
pub open spec fn hex_dump(bytes: Seq<u8>) -> Seq<char> {
    seq!['['] + hex_list(bytes) + seq![']']
}

/// Whether the two bytes at `p` read `1.`, the usual start of an
/// identifier.
pub open spec fn starts_uid(header: Seq<u8>, p: int) -> bool {
    0 <= p && p + 1 < header.len() && header[p] == 0x31 && header[p + 1] == 0x2E
}

/// The first place at or after `from` and before the end of the header
/// where an identifier starts.
pub open spec fn uid_offset_from(header: Seq<u8>, from: int) -> Option<int>
    decreases HEADER_LEN - from,
{
    if from < 0 || from + 1 >= HEADER_LEN {
        None
    } else if starts_uid(header, from) {
        Some(from)
    } else {
        uid_offset_from(header, from + 1)
    }
}

/// The first place after the marker where an identifier starts.
pub open spec fn uid_offset(header: Seq<u8>) -> Option<int> {
    uid_offset_from(header, MARKER_END as int)
}

/// How much of the bytes read belongs to the header: the first 256 bytes,
/// or all of them where there are fewer.
pub open spec fn header_end(header: Seq<u8>) -> int {
    if header.len() <= HEADER_LEN {
        header.len() as int
    } else {
        HEADER_LEN as int
    }
}

/// Where the identifier that starts at `p` ends: 64 bytes on, or at the
/// end of the header if that comes first.
pub open spec fn uid_end(header: Seq<u8>, p: int) -> int {
    if p + UID_MAX_LEN <= header_end(header) {
        p + UID_MAX_LEN
    } else {
        header_end(header)
    }
}

/// Whether the bytes read reach to the end of the marker, so that
/// preamble and marker can be told.
pub open spec fn has_marker(header: Seq<u8>) -> bool {
    header.len() >= MARKER_END
}

/// The identifier found in the header, if any: the text of the bytes from
/// the first place after the marker where one starts.
pub open spec fn probed_uid(header: Seq<u8>) -> Option<Seq<char>> {
    match uid_offset(header) {
        Some(p) => Some(lossy_text(header.subrange(p, uid_end(header, p)))),
        None => None,
    }
}

/// The report on a file of which only the size, if that, and the first
/// bytes are known.
pub open spec fn probed_report(file_size: Option<u64>, header: Seq<u8>) -> DebugModel {
    DebugModel {
        file_size: match file_size {
            Some(size) => size as nat,
            None => 0,
        },
        file_preamble: if has_marker(header) {
            hex_dump(header.subrange(0, PREAMBLE_LEN as int))
        } else {
            Seq::empty()
        },
        dicom_magic: if has_marker(header) {
            lossy_text(header.subrange(PREAMBLE_LEN as int, MARKER_END as int))
        } else {
            Seq::empty()
        },
        transfer_syntax: probed_uid(header),
        ..DebugModel::blank()
    }
}

/// The line of the analysis that states the size of the file.
pub open spec fn size_line(file_size: Option<u64>) -> Seq<char> {
    match file_size {
        Some(size) => "File size: "@ + decimal_text(size as nat) + " bytes\n"@,
        None => Seq::empty(),
    }
}

/// The line of the analysis that states where an identifier was found.
pub open spec fn uid_line(header: Seq<u8>) -> Seq<char> {
    match uid_offset(header) {
        Some(p) => "Possible UID found at offset "@ + decimal_text(p as nat) + ": "@ + lossy_text(
            header.subrange(p, uid_end(header, p)),
        ) + "\n"@,
        None => Seq::empty(),
    }
}

/// The lines of the analysis that describe the header.
pub open spec fn header_lines(header: Seq<u8>) -> Seq<char> {
    if has_marker(header) {
        "Header analysis:\n"@ + "First 128 bytes (preamble): "@ + hex_dump(
            header.subrange(0, PREAMBLE_LEN as int),
        ) + "\n"@ + "DICM marker at 128: "@ + lossy_text(
            header.subrange(PREAMBLE_LEN as int, MARKER_END as int),
        ) + "\n"@ + "Looking for transfer syntax UID...\n"@ + uid_line(header)
    } else {
        Seq::empty()
    }
}

/// The analysis of a file in words, as it is quoted when the file cannot
/// be decoded.
pub open spec fn probed_analysis(file_size: Option<u64>, header: Seq<u8>) -> Seq<char> {
    size_line(file_size) + header_lines(header)
}

/// Appends the two hexadecimal digits of `b` to `out`.
fn push_hex2(out: &mut String, b: u8)
    ensures
        final(out)@ == old(out)@ + hex2(b),
{
    let v: u16 = b as u16;
    out.push(hex_digit_char(v / 16));
    out.push(hex_digit_char(v % 16));
    assert(final(out)@ =~= old(out)@ + hex2(b));
}

/// Renders bytes as a list of two-digit hexadecimal numbers in square
/// brackets, separated by a comma and a space.
pub fn format_hex_dump(bytes: &[u8]) -> (text: String)
    ensures
        text@ == hex_dump(bytes@),
{
    let mut text = String::new();
    text.push('[');
    let mut i: usize = 0;
    assert(bytes@.take(0) =~= Seq::empty());
    assert(text@ =~= seq!['['] + hex_list(bytes@.take(0)));
    while i < bytes.len()
        invariant
            i <= bytes.len(),
            text@ == seq!['['] + hex_list(bytes@.take(i as int)),
        decreases bytes.len() - i,
    {
        let ghost before = text@;
        if i > 0 {
            text.push(',');
            text.push(' ');
        }
        push_hex2(&mut text, bytes[i]);
        proof {
            let longer = bytes@.take(i + 1);
            assert(longer.drop_last() =~= bytes@.take(i as int));
            assert(longer.last() == bytes@[i as int]);
            if i > 0 {
                assert(text@ =~= seq!['['] + (hex_list(longer.drop_last()) + seq![',', ' '] + hex2(
                    longer.last(),
                )));
            } else {
                assert(longer[0] == bytes@[0]);
                assert(text@ =~= seq!['['] + hex2(longer[0]));
            }
        }
        i = i + 1;
    }
    assert(bytes@.take(i as int) =~= bytes@);
    text.push(']');
    assert(text@ =~= hex_dump(bytes@));
    text
}

/// Finds the first place after the marker, and within the first 256
/// bytes, where the header reads `1.`.
pub fn find_uid_offset(header: &[u8]) -> (found: Option<usize>)
    ensures
        match found {
            Some(p) => uid_offset(header@) == Some(p as int) && MARKER_END <= p && p + 1
                < HEADER_LEN && p + 1 < header@.len(),
            None => uid_offset(header@) is None,
        },
{
    let mut p: usize = MARKER_END;
    while p + 1 < HEADER_LEN && p + 1 < header.len()
        invariant
            MARKER_END <= p,
            p + 1 <= HEADER_LEN,
            uid_offset(header@) == uid_offset_from(header@, p as int),
        decreases HEADER_LEN - p,
    {
        if header[p] == 0x31 && header[p + 1] == 0x2E {
            return Some(p);
        }
        p = p + 1;
    }
    proof {
        lemma_uid_offset_is_first(header@, p as int);
    }
    None
}

/// Looks at the size of a file and at the bytes read from its start, and
/// reports what they show: the size; where the bytes reach to the end of
/// the marker, the preamble in hexadecimal and the marker as text; and the
/// first identifier found after the marker within the first 256 bytes, as
/// far as there are bytes. Nothing here fails: a size that is not known
/// counts as 0, and bytes that are not there leave their fields empty.
/// With the report comes the same in words.
pub fn analyze_file_structure(file_size: Option<u64>, header: &[u8]) -> (probed: (
    DicomDebugInfo,
    String,
))
    ensures
        probed.0@ == probed_report(file_size, header@),
        probed.1@ == probed_analysis(file_size, header@),
        probed.0@.well_formed(),
{
    let mut debug_info = DicomDebugInfo::new();
    let mut analysis = String::new();
    if let Some(size) = file_size {
        debug_info.file_size = size;
        analysis.append("File size: ");
        push_decimal(&mut analysis, size as u128);
        analysis.append(" bytes\n");
    }
    assert(analysis@ =~= size_line(file_size));
    if header.len() >= MARKER_END {
        let preamble = format_hex_dump(slice_subrange(header, 0, PREAMBLE_LEN));
        let magic = decode_lossy(slice_subrange(header, PREAMBLE_LEN, MARKER_END));
        analysis.append("Header analysis:\n");
        analysis.append("First 128 bytes (preamble): ");
        analysis.append(preamble.as_str());
        analysis.append("\n");
        analysis.append("DICM marker at 128: ");
        analysis.append(magic.as_str());
        analysis.append("\n");
        analysis.append("Looking for transfer syntax UID...\n");
        debug_info.file_preamble = preamble;
        debug_info.dicom_magic = magic;
        let ghost lines = analysis@;
        if let Some(p) = find_uid_offset(header) {
            let limit: usize = if header.len() <= HEADER_LEN {
                header.len()
            } else {
                HEADER_LEN
            };
            let end: usize = if p + UID_MAX_LEN <= limit {
                p + UID_MAX_LEN
            } else {
                limit
            };
            let uid = decode_lossy(slice_subrange(header, p, end));
            analysis.append("Possible UID found at offset ");
            push_decimal(&mut analysis, p as u128);
            analysis.append(": ");
            analysis.append(uid.as_str());
            analysis.append("\n");
            debug_info.transfer_syntax = Some(uid);
        }
        assert(analysis@ =~= lines + uid_line(header@));
        assert(analysis@ =~= size_line(file_size) + header_lines(header@));
    } else {
        proof {
            lemma_uid_offset_is_first(header@, MARKER_END as int);
        }
    }
    assert(debug_info@.transfer_syntax == probed_uid(header@));
    (debug_info, analysis)
}

/// An identifier is looked for between the marker and the end of the
/// header only, and the place reported is the first where one starts.
pub proof fn lemma_uid_offset_is_first(header: Seq<u8>, from: int)
    requires
        0 <= from,
    ensures
        match uid_offset_from(header, from) {
            Some(p) => {
                &&& from <= p
                &&& p + 1 < HEADER_LEN
                &&& starts_uid(header, p)
                &&& forall|q: int| from <= q < p ==> !starts_uid(header, q)
            },
            None => forall|q: int| from <= q && q + 1 < HEADER_LEN ==> !starts_uid(header, q),
        },
    decreases HEADER_LEN - from,
{
    if from + 1 < HEADER_LEN && !starts_uid(header, from) {
        lemma_uid_offset_is_first(header, from + 1);
    }
}

/// Bytes that do not reach to the end of the marker, none at all
/// included, give a report with empty preamble and marker and no
/// identifier, and an analysis that holds the line on the size and nothing
/// else.
pub proof fn lemma_short_header_is_blank(file_size: Option<u64>, header: Seq<u8>)
    requires
        header.len() < MARKER_END,
    ensures
        probed_report(file_size, header).file_preamble == Seq::<char>::empty(),
        probed_report(file_size, header).dicom_magic == Seq::<char>::empty(),
        probed_report(file_size, header).transfer_syntax is None,
        probed_report(file_size, header).structure_unset(),
        probed_analysis(file_size, header) == size_line(file_size),
        file_size == Some(0u64) ==> probed_report(file_size, header) == DebugModel::blank(),
{
    lemma_uid_offset_is_first(header, MARKER_END as int);
    assert(probed_analysis(file_size, header) =~= size_line(file_size));
}

/// Preamble and marker are reported as soon as the bytes reach to the end
/// of the marker, however few follow: the preamble is the first 128 bytes
/// in hexadecimal, the marker the text of the four bytes after them.
pub proof fn lemma_marker_is_reported(file_size: Option<u64>, header: Seq<u8>)
    requires
        header.len() >= MARKER_END,
    ensures
        probed_report(file_size, header).file_preamble == hex_dump(
            header.subrange(0, PREAMBLE_LEN as int),
        ),
        probed_report(file_size, header).dicom_magic == lossy_text(
            header.subrange(PREAMBLE_LEN as int, MARKER_END as int),
        ),
{
}

/// An identifier is reported exactly where the bytes read `1.` somewhere
/// after the marker and within the first 256 bytes; what is reported then
/// starts at the first such place and ends 64 bytes on, or where the
/// header or the bytes end.
pub proof fn lemma_uid_is_reported(file_size: Option<u64>, header: Seq<u8>)
    ensures
        probed_report(file_size, header).transfer_syntax is Some <==> exists|q: int|
            MARKER_END <= q && q + 1 < HEADER_LEN && #[trigger] starts_uid(header, q),
        uid_offset(header) matches Some(p) ==> {
            &&& MARKER_END <= p < uid_end(header, p) <= header.len()
            &&& uid_end(header, p) <= HEADER_LEN
            &&& uid_end(header, p) - p <= UID_MAX_LEN
        },
{
    lemma_uid_offset_is_first(header, MARKER_END as int);
}

} // verus!
