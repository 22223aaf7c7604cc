use student_attendance_backend::codec::decode_attendance;
use student_attendance_backend::codec::decode_lecture;
use student_attendance_backend::codec::decode_message;
use student_attendance_backend::codec::decode_student;
use student_attendance_backend::codec::encode_attendance;
use student_attendance_backend::codec::encode_lecture;
use student_attendance_backend::codec::encode_message;
use student_attendance_backend::codec::encode_student;
use student_attendance_backend::AttendanceRecord;
use student_attendance_backend::Lecture;
use student_attendance_backend::Message;
use student_attendance_backend::MultiMediaContent;
use student_attendance_backend::Student;

fn sample_mmc() -> MultiMediaContent {
    MultiMediaContent {
        image_url: Some("https://example.com/a.png".to_string()),
        video_url: None,
        audio_url: Some("https://example.com/a.ogg".to_string()),
    }
}

#[test]
fn student_round_trip() {
    let s = Student {
        id: 42,
        name: "Ana".to_string(),
        contact_details: "ana@x.com".to_string(),
        attendance_history: "présente \u{1F600}".to_string(),
    };
    let bytes = encode_student(&s);
    assert!(bytes.len() <= 1024);
    assert_eq!(decode_student(&bytes), Some(s));
}

#[test]
fn lecture_round_trip_with_attachment() {
    let l = Lecture {
        id: 7,
        student_id: 2,
        lecturer_id: 9,
        date_time: 1000,
        topic: "Algebra".to_string(),
        multimedia_content: Some(sample_mmc()),
    };
    let bytes = encode_lecture(&l);
    assert!(bytes.len() <= 1024);
    assert_eq!(decode_lecture(&bytes), Some(l));
}

#[test]
fn lecture_round_trip_without_attachment() {
    let l = Lecture {
        id: 1,
        student_id: 0,
        lecturer_id: 0,
        date_time: 0,
        topic: "t".to_string(),
        multimedia_content: None,
    };
    let bytes = encode_lecture(&l);
    assert_eq!(decode_lecture(&bytes), Some(l));
}

#[test]
fn attendance_round_trip() {
    let a = AttendanceRecord {
        id: 3,
        student_id: 1,
        attendance_status: "present".to_string(),
    };
    let bytes = encode_attendance(&a);
    assert_eq!(decode_attendance(&bytes), Some(a));
}

#[test]
fn message_round_trip() {
    let m = Message {
        id: 5,
        sender_id: 0,
        receiver_id: 2,
        content: "reminder".to_string(),
        multimedia_content: Some(sample_mmc()),
    };
    let bytes = encode_message(&m);
    assert_eq!(decode_message(&bytes), Some(m));
}

#[test]
fn student_exact_encoding() {
    let s = Student {
        id: 1,
        name: "A".to_string(),
        contact_details: String::new(),
        attendance_history: String::new(),
    };
    let mut expected: Vec<u8> = Vec::new();
    expected.extend_from_slice(&[1, 0, 0, 0, 0, 0, 0, 0]);
    expected.extend_from_slice(&[1, 0, 0, 0, 0, 0, 0, 0]);
    expected.push(b'A');
    expected.extend_from_slice(&[0, 0, 0, 0, 0, 0, 0, 0]);
    expected.extend_from_slice(&[0, 0, 0, 0, 0, 0, 0, 0]);
    assert_eq!(encode_student(&s), expected);
}

#[test]
fn decode_rejects_truncated_bytes() {
    let s = Student {
        id: 8,
        name: "Bo".to_string(),
        contact_details: "bo@x.com".to_string(),
        attendance_history: String::new(),
    };
    let mut bytes = encode_student(&s);
    bytes.pop();
    assert_eq!(decode_student(&bytes), None);
    assert_eq!(decode_student(&Vec::new()), None);
}

#[test]
fn decode_rejects_trailing_bytes() {
    let a = AttendanceRecord {
        id: 3,
        student_id: 1,
        attendance_status: "late".to_string(),
    };
    let mut bytes = encode_attendance(&a);
    bytes.push(0);
    assert_eq!(decode_attendance(&bytes), None);
}

#[test]
fn decode_rejects_bad_option_tag() {
    let m = Message {
        id: 5,
        sender_id: 0,
        receiver_id: 2,
        content: "hi".to_string(),
        multimedia_content: None,
    };
    let mut bytes = encode_message(&m);
    let last = bytes.len() - 1;
    bytes[last] = 2;
    assert_eq!(decode_message(&bytes), None);
}

#[test]
fn decode_rejects_invalid_utf8() {
    let s = Student {
        id: 1,
        name: "ZZ".to_string(),
        contact_details: String::new(),
        attendance_history: String::new(),
    };
    let mut bytes = encode_student(&s);
    // the two name bytes sit right after the id and length prefixes
    bytes[16] = 0xff;
    bytes[17] = 0xfe;
    assert_eq!(decode_student(&bytes), None);
}
