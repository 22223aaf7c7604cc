//! Deterministic binary codec for the stored records.
//!
//! Every record is encoded as a length-prefixed byte string: 64-bit integers
//! as 8 little-endian bytes, strings as an 8-byte length followed by their
//! UTF-8 bytes, and optional fields as a one-byte tag (0 absent, 1 present)
//! followed by the encoding of the value. Decoding is exact: it accepts
//! precisely the byte strings that some record encodes to, and the round
//! trip `decode(encode(r)) == r` is proved below.

use crate::types::AttendanceRecord;
use crate::types::AttendanceRecordV;
use crate::types::Lecture;
use crate::types::LectureV;
use crate::types::Message;
use crate::types::MessageV;
use crate::types::MultiMediaContent;
use crate::types::Student;
use crate::types::StudentV;
use crate::types::MultiMediaContentV;
use vstd::bytes::*;
use vstd::prelude::*;
use vstd::slice::slice_subrange;
use vstd::slice::slice_to_vec;
use vstd::string::*;
use vstd::utf8::*;

verus! {

/// Byte budget for one encoded record.
pub const MAX_RECORD_BYTES: usize = 1024;

/// A string sequence whose UTF-8 encoding fits the 64-bit length prefix.
/// Every executable string satisfies this; only unbounded ghost sequences
/// can fail it.
pub open spec fn str_ok(s: Seq<char>) -> bool {
    encode_utf8(s).len() <= u64::MAX
}

pub open spec fn opt_str_ok(o: Option<Seq<char>>) -> bool {
    match o {
        Some(s) => str_ok(s),
        None => true,
    }
}

pub open spec fn mmc_ok(m: MultiMediaContentV) -> bool {
    opt_str_ok(m.image_url) && opt_str_ok(m.video_url) && opt_str_ok(m.audio_url)
}

pub open spec fn opt_mmc_ok(o: Option<MultiMediaContentV>) -> bool {
    match o {
        Some(m) => mmc_ok(m),
        None => true,
    }
}

/// Encoding of a 64-bit integer: 8 little-endian bytes.
pub open spec fn enc_u64(x: u64) -> Seq<u8> {
    spec_u64_to_le_bytes(x)
}

/// Encoding of a string: 8-byte length of the UTF-8 bytes, then those bytes.
pub open spec fn enc_str(s: Seq<char>) -> Seq<u8> {
    enc_u64(encode_utf8(s).len() as u64) + encode_utf8(s)
}

/// Encoding of an optional string: tag byte, then the string if present.
pub open spec fn enc_opt_str(o: Option<Seq<char>>) -> Seq<u8> {
    match o {
        None => seq![0u8],
        Some(s) => seq![1u8] + enc_str(s),
    }
}

/// Encoding of a multimedia attachment: its three optional URLs in order.
pub open spec fn enc_mmc(m: MultiMediaContentV) -> Seq<u8> {
    enc_opt_str(m.image_url) + enc_opt_str(m.video_url) + enc_opt_str(m.audio_url)
}

/// Encoding of an optional attachment: tag byte, then the attachment.
pub open spec fn enc_opt_mmc(o: Option<MultiMediaContentV>) -> Seq<u8> {
    match o {
        None => seq![0u8],
        Some(m) => seq![1u8] + enc_mmc(m),
    }
}

/// Reads a 64-bit integer at `pos`; yields the value and the next position.
pub open spec fn parse_u64(b: Seq<u8>, pos: int) -> Option<(u64, int)> {
    if 0 <= pos && pos + 8 <= b.len() {
        Some((spec_u64_from_le_bytes(b.subrange(pos, pos + 8)), pos + 8))
    } else {
        None
    }
}

/// Reads a length-prefixed UTF-8 string at `pos`.
pub open spec fn parse_str(b: Seq<u8>, pos: int) -> Option<(Seq<char>, int)> {
    match parse_u64(b, pos) {
        None => None,
        Some((n, p)) => {
            if p + n <= b.len() {
                let bytes = b.subrange(p, p + n);
                if valid_utf8(bytes) {
                    Some((decode_utf8(bytes), p + n))
                } else {
                    None
                }
            } else {
                None
            }
        },
    }
}

/// Reads a tagged optional string at `pos`.
pub open spec fn parse_opt_str(b: Seq<u8>, pos: int) -> Option<(Option<Seq<char>>, int)> {
    if 0 <= pos && pos < b.len() {
        if b[pos] == 0u8 {
            Some((None, pos + 1))
        } else if b[pos] == 1u8 {
            match parse_str(b, pos + 1) {
                None => None,
                Some((s, q)) => Some((Some(s), q)),
            }
        } else {
            None
        }
    } else {
        None
    }
}

/// Reads a multimedia attachment (three optional URLs) at `pos`.
pub open spec fn parse_mmc(b: Seq<u8>, pos: int) -> Option<(MultiMediaContentV, int)> {
    match parse_opt_str(b, pos) {
        None => None,
        Some((image_url, p1)) => match parse_opt_str(b, p1) {
            None => None,
            Some((video_url, p2)) => match parse_opt_str(b, p2) {
                None => None,
                Some((audio_url, p3)) => Some(
                    (MultiMediaContentV { image_url, video_url, audio_url }, p3),
                ),
            },
        },
    }
}

/// Reads a tagged optional attachment at `pos`.
pub open spec fn parse_opt_mmc(b: Seq<u8>, pos: int) -> Option<(Option<MultiMediaContentV>, int)> {
    if 0 <= pos && pos < b.len() {
        if b[pos] == 0u8 {
            Some((None, pos + 1))
        } else if b[pos] == 1u8 {
            match parse_mmc(b, pos + 1) {
                None => None,
                Some((m, q)) => Some((Some(m), q)),
            }
        } else {
            None
        }
    } else {
        None
    }
}

/// A subrange of a subrange of `b` is the matching subrange of the part.
proof fn lemma_subrange_within(b: Seq<u8>, pos: int, e: Seq<u8>, i: int, j: int)
    requires
        0 <= pos,
        pos + e.len() <= b.len(),
        b.subrange(pos, pos + e.len()) == e,
        0 <= i <= j <= e.len(),
    ensures
        b.subrange(pos + i, pos + j) == e.subrange(i, j),
{
    assert(b.subrange(pos + i, pos + j) =~= e.subrange(i, j));
}

/// Parsing at a position that holds an encoded integer yields that integer.
pub proof fn lemma_parse_u64_at(b: Seq<u8>, pos: int, x: u64)
    requires
        0 <= pos,
        pos + 8 <= b.len(),
        b.subrange(pos, pos + 8) == enc_u64(x),
    ensures
        parse_u64(b, pos) == Some((x, pos + 8)),
{
    lemma_auto_spec_u64_to_from_le_bytes();
}

/// Parsing at a position that holds an encoded string yields that string.
pub proof fn lemma_parse_str_at(b: Seq<u8>, pos: int, s: Seq<char>)
    requires
        0 <= pos,
        str_ok(s),
        pos + enc_str(s).len() <= b.len(),
        b.subrange(pos, pos + enc_str(s).len()) == enc_str(s),
    ensures
        parse_str(b, pos) == Some((s, pos + enc_str(s).len())),
{
    lemma_auto_spec_u64_to_from_le_bytes();
    let u = encode_utf8(s);
    let n = u.len() as u64;
    let e = enc_str(s);
    assert(e == enc_u64(n) + u);
    assert(e.subrange(0, 8) =~= enc_u64(n));
    assert(e.subrange(8, e.len() as int) =~= u);
    lemma_subrange_within(b, pos, e, 0, 8);
    lemma_parse_u64_at(b, pos, n);
    lemma_subrange_within(b, pos, e, 8, e.len() as int);
    broadcast use encode_utf8_valid_utf8, encode_utf8_decode_utf8;

    assert(b.subrange(pos + 8, pos + 8 + n) == u);
}

/// Parsing at a position that holds an encoded optional string yields it.
pub proof fn lemma_parse_opt_str_at(b: Seq<u8>, pos: int, o: Option<Seq<char>>)
    requires
        0 <= pos,
        opt_str_ok(o),
        pos + enc_opt_str(o).len() <= b.len(),
        b.subrange(pos, pos + enc_opt_str(o).len()) == enc_opt_str(o),
    ensures
        parse_opt_str(b, pos) == Some((o, pos + enc_opt_str(o).len())),
{
    let e = enc_opt_str(o);
    assert(b[pos] == e[0]);
    match o {
        None => {
            assert(e[0] == 0u8);
        },
        Some(s) => {
            assert(e[0] == 1u8);
            assert(e.subrange(1, e.len() as int) =~= enc_str(s));
            lemma_subrange_within(b, pos, e, 1, e.len() as int);
            lemma_parse_str_at(b, pos + 1, s);
        },
    }
}

/// Parsing at a position that holds an encoded attachment yields it.
pub proof fn lemma_parse_mmc_at(b: Seq<u8>, pos: int, m: MultiMediaContentV)
    requires
        0 <= pos,
        mmc_ok(m),
        pos + enc_mmc(m).len() <= b.len(),
        b.subrange(pos, pos + enc_mmc(m).len()) == enc_mmc(m),
    ensures
        parse_mmc(b, pos) == Some((m, pos + enc_mmc(m).len())),
{
    let e0 = enc_opt_str(m.image_url);
    let e1 = enc_opt_str(m.video_url);
    let e2 = enc_opt_str(m.audio_url);
    let e = enc_mmc(m);
    assert(e == e0 + e1 + e2);
    assert(e.subrange(0, e0.len() as int) =~= e0);
    assert(e.subrange(e0.len() as int, (e0.len() + e1.len()) as int) =~= e1);
    assert(e.subrange((e0.len() + e1.len()) as int, e.len() as int) =~= e2);
    lemma_subrange_within(b, pos, e, 0, e0.len() as int);
    lemma_parse_opt_str_at(b, pos, m.image_url);
    lemma_subrange_within(b, pos, e, e0.len() as int, (e0.len() + e1.len()) as int);
    lemma_parse_opt_str_at(b, pos + e0.len(), m.video_url);
    lemma_subrange_within(b, pos, e, (e0.len() + e1.len()) as int, e.len() as int);
    lemma_parse_opt_str_at(b, pos + e0.len() + e1.len(), m.audio_url);
}

/// Parsing at a position that holds an encoded optional attachment yields it.
pub proof fn lemma_parse_opt_mmc_at(b: Seq<u8>, pos: int, o: Option<MultiMediaContentV>)
    requires
        0 <= pos,
        opt_mmc_ok(o),
        pos + enc_opt_mmc(o).len() <= b.len(),
        b.subrange(pos, pos + enc_opt_mmc(o).len()) == enc_opt_mmc(o),
    ensures
        parse_opt_mmc(b, pos) == Some((o, pos + enc_opt_mmc(o).len())),
{
    let e = enc_opt_mmc(o);
    assert(b[pos] == e[0]);
    match o {
        None => {
            assert(e[0] == 0u8);
        },
        Some(m) => {
            assert(e[0] == 1u8);
            assert(e.subrange(1, e.len() as int) =~= enc_mmc(m));
            lemma_subrange_within(b, pos, e, 1, e.len() as int);
            lemma_parse_mmc_at(b, pos + 1, m);
        },
    }
}

/// Relies on `String::from_utf8`: succeeds exactly on valid UTF-8 input,
/// and the returned string reads back as those bytes.
#[verifier::external_body]
fn string_from_utf8(v: Vec<u8>) -> (r: Option<String>)
    ensures
        r is Some <==> valid_utf8(v@),
        r matches Some(s) ==> encode_utf8(s@) == v@,
{
    String::from_utf8(v).ok()
}

/// Appends the encoding of a 64-bit integer.
pub(crate) fn push_u64(out: &mut Vec<u8>, x: u64)
    ensures
        final(out)@ == old(out)@ + enc_u64(x),
{
    let mut b = u64_to_le_bytes(x);
    out.append(&mut b);
}

/// Appends the encoding of a string.
pub(crate) fn push_str(out: &mut Vec<u8>, s: &str)
    ensures
        final(out)@ == old(out)@ + enc_str(s@),
{
    let bytes = s.as_bytes_vec();
    push_u64(out, bytes.len() as u64);
    let mut b = bytes;
    out.append(&mut b);
    assert(out@ =~= old(out)@ + enc_str(s@));
}

/// Appends the encoding of an optional string.
pub(crate) fn push_opt_str(out: &mut Vec<u8>, o: &Option<String>)
    ensures
        final(out)@ == old(out)@ + enc_opt_str(crate::types::view_opt_string(*o)),
{
    match o {
        None => {
            out.push(0u8);
            assert(out@ =~= old(out)@ + seq![0u8]);
        },
        Some(s) => {
            out.push(1u8);
            push_str(out, s.as_str());
            assert(out@ =~= old(out)@ + enc_opt_str(crate::types::view_opt_string(*o)));
        },
    }
}

/// Appends the encoding of a multimedia attachment.
pub(crate) fn push_mmc(out: &mut Vec<u8>, m: &MultiMediaContent)
    ensures
        final(out)@ == old(out)@ + enc_mmc(m@),
{
    push_opt_str(out, &m.image_url);
    push_opt_str(out, &m.video_url);
    push_opt_str(out, &m.audio_url);
    assert(out@ =~= old(out)@ + enc_mmc(m@));
}

/// Appends the encoding of an optional multimedia attachment.
pub(crate) fn push_opt_mmc(out: &mut Vec<u8>, o: &Option<MultiMediaContent>)
    ensures
        final(out)@ == old(out)@ + enc_opt_mmc(crate::types::view_opt_mmc(*o)),
{
    match o {
        None => {
            out.push(0u8);
            assert(out@ =~= old(out)@ + seq![0u8]);
        },
        Some(m) => {
            out.push(1u8);
            push_mmc(out, m);
            assert(out@ =~= old(out)@ + enc_opt_mmc(crate::types::view_opt_mmc(*o)));
        },
    }
}

/// Reads a 64-bit integer at `pos`, as `parse_u64` describes.
pub(crate) fn read_u64(b: &Vec<u8>, pos: usize) -> (r: Option<(u64, usize)>)
    ensures
        match r {
            Some(v) => parse_u64(b@, pos as int) == Some((v.0, v.1 as int)),
            None => parse_u64(b@, pos as int) is None,
        },
{
    if b.len() >= 8 && pos <= b.len() - 8 {
        let s = slice_subrange(b.as_slice(), pos, pos + 8);
        let x = u64_from_le_bytes(s);
        Some((x, pos + 8))
    } else {
        None
    }
}

/// Reads a length-prefixed string at `pos`, as `parse_str` describes.
pub(crate) fn read_str(b: &Vec<u8>, pos: usize) -> (r: Option<(String, usize)>)
    ensures
        match r {
            Some(v) => parse_str(b@, pos as int) == Some((v.0@, v.1 as int)),
            None => parse_str(b@, pos as int) is None,
        },
{
    match read_u64(b, pos) {
        None => None,
        Some((n, p)) => {
            if n <= (b.len() - p) as u64 {
                let m = n as usize;
                let bytes = slice_to_vec(slice_subrange(b.as_slice(), p, p + m));
                match string_from_utf8(bytes) {
                    None => None,
                    Some(s) => {
                        proof {
                            broadcast use encode_utf8_decode_utf8;

                        }
                        Some((s, p + m))
                    },
                }
            } else {
                None
            }
        },
    }
}

/// Reads a tagged optional string at `pos`, as `parse_opt_str` describes.
pub(crate) fn read_opt_str(b: &Vec<u8>, pos: usize) -> (r: Option<(Option<String>, usize)>)
    ensures
        match r {
            Some(v) => parse_opt_str(b@, pos as int) == Some(
                (crate::types::view_opt_string(v.0), v.1 as int),
            ),
            None => parse_opt_str(b@, pos as int) is None,
        },
{
    if pos < b.len() {
        let tag = b[pos];
        if tag == 0u8 {
            Some((None, pos + 1))
        } else if tag == 1u8 {
            match read_str(b, pos + 1) {
                None => None,
                Some((s, q)) => Some((Some(s), q)),
            }
        } else {
            None
        }
    } else {
        None
    }
}

/// Reads a multimedia attachment at `pos`, as `parse_mmc` describes.
pub(crate) fn read_mmc(b: &Vec<u8>, pos: usize) -> (r: Option<(MultiMediaContent, usize)>)
    ensures
        match r {
            Some(v) => parse_mmc(b@, pos as int) == Some((v.0@, v.1 as int)),
            None => parse_mmc(b@, pos as int) is None,
        },
{
    match read_opt_str(b, pos) {
        None => None,
        Some((image_url, p1)) => match read_opt_str(b, p1) {
            None => None,
            Some((video_url, p2)) => match read_opt_str(b, p2) {
                None => None,
                Some((audio_url, p3)) => Some(
                    (MultiMediaContent { image_url, video_url, audio_url }, p3),
                ),
            },
        },
    }
}

/// Reads a tagged optional attachment at `pos`, as `parse_opt_mmc` describes.
pub(crate) fn read_opt_mmc(b: &Vec<u8>, pos: usize) -> (r: Option<
    (Option<MultiMediaContent>, usize),
>)
    ensures
        match r {
            Some(v) => parse_opt_mmc(b@, pos as int) == Some(
                (crate::types::view_opt_mmc(v.0), v.1 as int),
            ),
            None => parse_opt_mmc(b@, pos as int) is None,
        },
{
    if pos < b.len() {
        let tag = b[pos];
        if tag == 0u8 {
            Some((None, pos + 1))
        } else if tag == 1u8 {
            match read_mmc(b, pos + 1) {
                None => None,
                Some((m, q)) => Some((Some(m), q)),
            }
        } else {
            None
        }
    } else {
        None
    }
}


/// Encoding of a student record.
pub open spec fn enc_student(v: StudentV) -> Seq<u8> {
    enc_u64(v.id) + enc_str(v.name) + enc_str(v.contact_details) + enc_str(v.attendance_history)
}

/// Encoding of a lecture record.
pub open spec fn enc_lecture(v: LectureV) -> Seq<u8> {
    enc_u64(v.id) + enc_u64(v.student_id) + enc_u64(v.lecturer_id) + enc_u64(v.date_time)
        + enc_str(v.topic) + enc_opt_mmc(v.multimedia_content)
}

/// Encoding of an attendance record.
pub open spec fn enc_attendance(v: AttendanceRecordV) -> Seq<u8> {
    enc_u64(v.id) + enc_u64(v.student_id) + enc_str(v.attendance_status)
}

/// Encoding of a message record.
pub open spec fn enc_message(v: MessageV) -> Seq<u8> {
    enc_u64(v.id) + enc_u64(v.sender_id) + enc_u64(v.receiver_id) + enc_str(v.content)
        + enc_opt_mmc(v.multimedia_content)
}

/// A student record whose strings the 64-bit length prefixes can describe.
pub open spec fn student_ok(v: StudentV) -> bool {
    str_ok(v.name) && str_ok(v.contact_details) && str_ok(v.attendance_history)
}

pub open spec fn lecture_ok(v: LectureV) -> bool {
    str_ok(v.topic) && opt_mmc_ok(v.multimedia_content)
}

pub open spec fn attendance_ok(v: AttendanceRecordV) -> bool {
    str_ok(v.attendance_status)
}

pub open spec fn message_ok(v: MessageV) -> bool {
    str_ok(v.content) && opt_mmc_ok(v.multimedia_content)
}

/// A student record whose encoding fits the per-record byte budget.
pub open spec fn student_fits(v: StudentV) -> bool {
    enc_student(v).len() <= MAX_RECORD_BYTES
}

pub open spec fn lecture_fits(v: LectureV) -> bool {
    enc_lecture(v).len() <= MAX_RECORD_BYTES
}

pub open spec fn attendance_fits(v: AttendanceRecordV) -> bool {
    enc_attendance(v).len() <= MAX_RECORD_BYTES
}

pub open spec fn message_fits(v: MessageV) -> bool {
    enc_message(v).len() <= MAX_RECORD_BYTES
}

/// Decoding of a student record: the exact inverse of `enc_student` on the
/// byte strings it produces, and `None` on every other byte string.
pub open spec fn dec_student(b: Seq<u8>) -> Option<StudentV> {
    match parse_u64(b, 0) {
        None => None,
        Some((id, p1)) => match parse_str(b, p1) {
            None => None,
            Some((name, p2)) => match parse_str(b, p2) {
                None => None,
                Some((contact_details, p3)) => match parse_str(b, p3) {
                    None => None,
                    Some((attendance_history, p4)) => if p4 == b.len() {
                        Some(StudentV { id, name, contact_details, attendance_history })
                    } else {
                        None
                    },
                },
            },
        },
    }
}

/// Decoding of a lecture record.
pub open spec fn dec_lecture(b: Seq<u8>) -> Option<LectureV> {
    match parse_u64(b, 0) {
        None => None,
        Some((id, p1)) => match parse_u64(b, p1) {
            None => None,
            Some((student_id, p2)) => match parse_u64(b, p2) {
                None => None,
                Some((lecturer_id, p3)) => match parse_u64(b, p3) {
                    None => None,
                    Some((date_time, p4)) => match parse_str(b, p4) {
                        None => None,
                        Some((topic, p5)) => match parse_opt_mmc(b, p5) {
                            None => None,
                            Some((multimedia_content, p6)) => if p6 == b.len() {
                                Some(
                                    LectureV {
                                        id,
                                        student_id,
                                        lecturer_id,
                                        date_time,
                                        topic,
                                        multimedia_content,
                                    },
                                )
                            } else {
                                None
                            },
                        },
                    },
                },
            },
        },
    }
}

/// Decoding of an attendance record.
pub open spec fn dec_attendance(b: Seq<u8>) -> Option<AttendanceRecordV> {
    match parse_u64(b, 0) {
        None => None,
        Some((id, p1)) => match parse_u64(b, p1) {
            None => None,
            Some((student_id, p2)) => match parse_str(b, p2) {
                None => None,
                Some((attendance_status, p3)) => if p3 == b.len() {
                    Some(AttendanceRecordV { id, student_id, attendance_status })
                } else {
                    None
                },
            },
        },
    }
}

/// Decoding of a message record.
pub open spec fn dec_message(b: Seq<u8>) -> Option<MessageV> {
    match parse_u64(b, 0) {
        None => None,
        Some((id, p1)) => match parse_u64(b, p1) {
            None => None,
            Some((sender_id, p2)) => match parse_u64(b, p2) {
                None => None,
                Some((receiver_id, p3)) => match parse_str(b, p3) {
                    None => None,
                    Some((content, p4)) => match parse_opt_mmc(b, p4) {
                        None => None,
                        Some((multimedia_content, p5)) => if p5 == b.len() {
                            Some(
                                MessageV {
                                    id,
                                    sender_id,
                                    receiver_id,
                                    content,
                                    multimedia_content,
                                },
                            )
                        } else {
                            None
                        },
                    },
                },
            },
        },
    }
}

/// Round trip for student records: decoding an encoding gives the record back.
pub proof fn lemma_student_round_trip(v: StudentV)
    requires
        student_ok(v),
    ensures
        dec_student(enc_student(v)) == Some(v),
{
    lemma_auto_spec_u64_to_from_le_bytes();
    let e0 = enc_u64(v.id);
    let e1 = enc_str(v.name);
    let e2 = enc_str(v.contact_details);
    let e3 = enc_str(v.attendance_history);
    let b = enc_student(v);
    let p1: int = 8;
    let p2 = p1 + e1.len();
    let p3 = p2 + e2.len();
    let p4 = p3 + e3.len();
    assert(b.subrange(0, p1) =~= e0);
    assert(b.subrange(p1, p2) =~= e1);
    assert(b.subrange(p2, p3) =~= e2);
    assert(b.subrange(p3, p4) =~= e3);
    lemma_parse_u64_at(b, 0, v.id);
    lemma_parse_str_at(b, p1, v.name);
    lemma_parse_str_at(b, p2, v.contact_details);
    lemma_parse_str_at(b, p3, v.attendance_history);
}

/// Round trip for lecture records.
pub proof fn lemma_lecture_round_trip(v: LectureV)
    requires
        lecture_ok(v),
    ensures
        dec_lecture(enc_lecture(v)) == Some(v),
{
    let e4 = enc_str(v.topic);
    let e5 = enc_opt_mmc(v.multimedia_content);
    let b = enc_lecture(v);
    let p4: int = 32;
    let p5 = p4 + e4.len();
    let p6 = p5 + e5.len();
    lemma_auto_spec_u64_to_from_le_bytes();
    assert(b.subrange(0, 8) =~= enc_u64(v.id));
    assert(b.subrange(8, 16) =~= enc_u64(v.student_id));
    assert(b.subrange(16, 24) =~= enc_u64(v.lecturer_id));
    assert(b.subrange(24, 32) =~= enc_u64(v.date_time));
    assert(b.subrange(p4, p5) =~= e4);
    assert(b.subrange(p5, p6) =~= e5);
    lemma_parse_u64_at(b, 0, v.id);
    lemma_parse_u64_at(b, 8, v.student_id);
    lemma_parse_u64_at(b, 16, v.lecturer_id);
    lemma_parse_u64_at(b, 24, v.date_time);
    lemma_parse_str_at(b, p4, v.topic);
    lemma_parse_opt_mmc_at(b, p5, v.multimedia_content);
}

/// Round trip for attendance records.
pub proof fn lemma_attendance_round_trip(v: AttendanceRecordV)
    requires
        attendance_ok(v),
    ensures
        dec_attendance(enc_attendance(v)) == Some(v),
{
    lemma_auto_spec_u64_to_from_le_bytes();
    let e2 = enc_str(v.attendance_status);
    let b = enc_attendance(v);
    let p2: int = 16;
    let p3 = p2 + e2.len();
    assert(b.subrange(0, 8) =~= enc_u64(v.id));
    assert(b.subrange(8, 16) =~= enc_u64(v.student_id));
    assert(b.subrange(p2, p3) =~= e2);
    lemma_parse_u64_at(b, 0, v.id);
    lemma_parse_u64_at(b, 8, v.student_id);
    lemma_parse_str_at(b, p2, v.attendance_status);
}

/// Round trip for message records.
pub proof fn lemma_message_round_trip(v: MessageV)
    requires
        message_ok(v),
    ensures
        dec_message(enc_message(v)) == Some(v),
{
    lemma_auto_spec_u64_to_from_le_bytes();
    let e3 = enc_str(v.content);
    let e4 = enc_opt_mmc(v.multimedia_content);
    let b = enc_message(v);
    let p3: int = 24;
    let p4 = p3 + e3.len();
    let p5 = p4 + e4.len();
    assert(b.subrange(0, 8) =~= enc_u64(v.id));
    assert(b.subrange(8, 16) =~= enc_u64(v.sender_id));
    assert(b.subrange(16, 24) =~= enc_u64(v.receiver_id));
    assert(b.subrange(p3, p4) =~= e3);
    assert(b.subrange(p4, p5) =~= e4);
    lemma_parse_u64_at(b, 0, v.id);
    lemma_parse_u64_at(b, 8, v.sender_id);
    lemma_parse_u64_at(b, 16, v.receiver_id);
    lemma_parse_str_at(b, p3, v.content);
    lemma_parse_opt_mmc_at(b, p4, v.multimedia_content);
}

/// Encodes a student record.
pub fn encode_student(r: &Student) -> (out: Vec<u8>)
    ensures
        out@ == enc_student(r@),
{
    let mut out: Vec<u8> = Vec::new();
    push_u64(&mut out, r.id);
    push_str(&mut out, r.name.as_str());
    push_str(&mut out, r.contact_details.as_str());
    push_str(&mut out, r.attendance_history.as_str());
    assert(out@ =~= enc_student(r@));
    out
}

/// Encodes a lecture record.
pub fn encode_lecture(r: &Lecture) -> (out: Vec<u8>)
    ensures
        out@ == enc_lecture(r@),
{
    let mut out: Vec<u8> = Vec::new();
    push_u64(&mut out, r.id);
    push_u64(&mut out, r.student_id);
    push_u64(&mut out, r.lecturer_id);
    push_u64(&mut out, r.date_time);
    push_str(&mut out, r.topic.as_str());
    push_opt_mmc(&mut out, &r.multimedia_content);
    assert(out@ =~= enc_lecture(r@));
    out
}

/// Encodes an attendance record.
pub fn encode_attendance(r: &AttendanceRecord) -> (out: Vec<u8>)
    ensures
        out@ == enc_attendance(r@),
{
    let mut out: Vec<u8> = Vec::new();
    push_u64(&mut out, r.id);
    push_u64(&mut out, r.student_id);
    push_str(&mut out, r.attendance_status.as_str());
    assert(out@ =~= enc_attendance(r@));
    out
}

/// Encodes a message record.
pub fn encode_message(r: &Message) -> (out: Vec<u8>)
    ensures
        out@ == enc_message(r@),
{
    let mut out: Vec<u8> = Vec::new();
    push_u64(&mut out, r.id);
    push_u64(&mut out, r.sender_id);
    push_u64(&mut out, r.receiver_id);
    push_str(&mut out, r.content.as_str());
    push_opt_mmc(&mut out, &r.multimedia_content);
    assert(out@ =~= enc_message(r@));
    out
}

/// Decodes a student record, as `dec_student` describes.
pub fn decode_student(b: &Vec<u8>) -> (r: Option<Student>)
    ensures
        match r {
            Some(s) => dec_student(b@) == Some(s@),
            None => dec_student(b@) is None,
        },
{
    match read_u64(b, 0) {
        None => None,
        Some((id, p1)) => match read_str(b, p1) {
            None => None,
            Some((name, p2)) => match read_str(b, p2) {
                None => None,
                Some((contact_details, p3)) => match read_str(b, p3) {
                    None => None,
                    Some((attendance_history, p4)) => {
                        if p4 == b.len() {
                            Some(Student { id, name, contact_details, attendance_history })
                        } else {
                            None
                        }
                    },
                },
            },
        },
    }
}

/// Decodes a lecture record, as `dec_lecture` describes.
pub fn decode_lecture(b: &Vec<u8>) -> (r: Option<Lecture>)
    ensures
        match r {
            Some(s) => dec_lecture(b@) == Some(s@),
            None => dec_lecture(b@) is None,
        },
{
    match read_u64(b, 0) {
        None => None,
        Some((id, p1)) => match read_u64(b, p1) {
            None => None,
            Some((student_id, p2)) => match read_u64(b, p2) {
                None => None,
                Some((lecturer_id, p3)) => match read_u64(b, p3) {
                    None => None,
                    Some((date_time, p4)) => match read_str(b, p4) {
                        None => None,
                        Some((topic, p5)) => match read_opt_mmc(b, p5) {
                            None => None,
                            Some((multimedia_content, p6)) => {
                                if p6 == b.len() {
                                    Some(
                                        Lecture {
                                            id,
                                            student_id,
                                            lecturer_id,
                                            date_time,
                                            topic,
                                            multimedia_content,
                                        },
                                    )
                                } else {
                                    None
                                }
                            },
                        },
                    },
                },
            },
        },
    }
}

/// Decodes an attendance record, as `dec_attendance` describes.
pub fn decode_attendance(b: &Vec<u8>) -> (r: Option<AttendanceRecord>)
    ensures
        match r {
            Some(s) => dec_attendance(b@) == Some(s@),
            None => dec_attendance(b@) is None,
        },
{
    match read_u64(b, 0) {
        None => None,
        Some((id, p1)) => match read_u64(b, p1) {
            None => None,
            Some((student_id, p2)) => match read_str(b, p2) {
                None => None,
                Some((attendance_status, p3)) => {
                    if p3 == b.len() {
                        Some(AttendanceRecord { id, student_id, attendance_status })
                    } else {
                        None
                    }
                },
            },
        },
    }
}

/// Decodes a message record, as `dec_message` describes.
pub fn decode_message(b: &Vec<u8>) -> (r: Option<Message>)
    ensures
        match r {
            Some(s) => dec_message(b@) == Some(s@),
            None => dec_message(b@) is None,
        },
{
    match read_u64(b, 0) {
        None => None,
        Some((id, p1)) => match read_u64(b, p1) {
            None => None,
            Some((sender_id, p2)) => match read_u64(b, p2) {
                None => None,
                Some((receiver_id, p3)) => match read_str(b, p3) {
                    None => None,
                    Some((content, p4)) => match read_opt_mmc(b, p4) {
                        None => None,
                        Some((multimedia_content, p5)) => {
                            if p5 == b.len() {
                                Some(
                                    Message {
                                        id,
                                        sender_id,
                                        receiver_id,
                                        content,
                                        multimedia_content,
                                    },
                                )
                            } else {
                                None
                            }
                        },
                    },
                },
            },
        },
    }
}


/// A record within the byte budget has strings the length prefixes can
/// describe.
pub proof fn lemma_student_fits_ok(v: StudentV)
    requires
        student_fits(v),
    ensures
        student_ok(v),
{
    lemma_auto_spec_u64_to_from_le_bytes();
}

pub proof fn lemma_lecture_fits_ok(v: LectureV)
    requires
        lecture_fits(v),
    ensures
        lecture_ok(v),
{
    lemma_auto_spec_u64_to_from_le_bytes();
}

pub proof fn lemma_attendance_fits_ok(v: AttendanceRecordV)
    requires
        attendance_fits(v),
    ensures
        attendance_ok(v),
{
    lemma_auto_spec_u64_to_from_le_bytes();
}

pub proof fn lemma_message_fits_ok(v: MessageV)
    requires
        message_fits(v),
    ensures
        message_ok(v),
{
    lemma_auto_spec_u64_to_from_le_bytes();
}

} // verus!
