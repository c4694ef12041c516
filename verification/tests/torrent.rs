use qtm2::qtm_config::QtmVersion;
use qtm2::torrent::{
    calculate_piece_length, get_application_name, get_torrent_filename, plan_torrent, FieldValue,
    TorrentEvent, ANNOUNCE_URL, MAX_PIECE_LENGTH,
};

fn piece_length_by_logarithm(total_length: u64) -> u64 {
    let target = total_length / 1024 + 1;
    2u64.pow(target.ilog2()).min(2u64.pow(20))
}

#[test]
fn piece_length_of_small_content() {
    assert_eq!(calculate_piece_length(0), 1);
    assert_eq!(calculate_piece_length(1023), 1);
    assert_eq!(calculate_piece_length(1024), 2);
    assert_eq!(calculate_piece_length(3071), 2);
    assert_eq!(calculate_piece_length(3072), 4);
    assert_eq!(calculate_piece_length(7 * 1024), 8);
}

#[test]
fn piece_length_of_large_content() {
    assert_eq!(calculate_piece_length(500_000_000), 262_144);
    assert_eq!(calculate_piece_length(1024 * 1024 * 1024 - 1025), 524_288);
    assert_eq!(calculate_piece_length(1024 * 1024 * 1024 - 1024), 1_048_576);
    assert_eq!(calculate_piece_length(1024 * 1024 * 1024), 1_048_576);
    assert_eq!(calculate_piece_length(u64::MAX), 1_048_576);
    assert_eq!(MAX_PIECE_LENGTH, 1_048_576);
}

#[test]
fn piece_length_is_the_capped_power_of_two() {
    let mut total: u64 = 0;
    while total < (1 << 34) {
        for length in [total, total + 1, total.saturating_sub(1), total + 1023, total + 1024] {
            let piece = calculate_piece_length(length);
            assert_eq!(piece, piece_length_by_logarithm(length), "{}", length);
            assert!(piece.is_power_of_two());
            assert!(piece <= 1 << 20);
            assert!(piece <= length / 1024 + 1);
        }
        total = total * 2 + 512;
    }
}

#[test]
fn the_application_signs_with_its_name_and_version() {
    assert_eq!(get_application_name(QtmVersion(0, 3, 0)), "Quick Torrent Maker 2, v0.3.0");
    assert_eq!(get_application_name(QtmVersion(12, 0, 255)), "Quick Torrent Maker 2, v12.0.255");
}

#[test]
fn the_torrent_file_is_named_after_the_creation_time() {
    assert_eq!(get_torrent_filename(1698451200), "qtm2-1698451200.torrent");
    assert_eq!(get_torrent_filename(0), "qtm2-0.torrent");
    assert_eq!(get_torrent_filename(-5), "qtm2--5.torrent");
}

#[test]
fn the_plan_holds_the_fixed_fields() {
    let plan = plan_torrent("holiday.mkv", 500_000_000, 1698451200, QtmVersion(0, 3, 0));
    assert_eq!(plan.piece_length, 262_144);
    assert_eq!(plan.announce, "http://gaytor.rent:2710/announce");
    assert_eq!(plan.announce, ANNOUNCE_URL);
    assert_eq!(plan.name, "holiday.mkv");
    assert!(plan.is_private);
    assert_eq!(plan.filename, "qtm2-1698451200.torrent");
    assert_eq!(plan.extra_fields.len(), 4);
    assert_eq!(plan.extra_fields[0].key, "creation date");
    assert!(matches!(plan.extra_fields[0].value, FieldValue::Integer(1698451200)));
    assert_eq!(plan.extra_fields[1].key, "created by");
    assert!(
        matches!(&plan.extra_fields[1].value, FieldValue::Text(t) if t == "Quick Torrent Maker 2, v0.3.0")
    );
    assert_eq!(plan.extra_fields[2].key, "comment");
    assert!(
        matches!(&plan.extra_fields[2].value, FieldValue::Text(t) if t == "This torrent was created by Quick Torrent Maker 2, v0.3.0")
    );
    assert_eq!(plan.extra_fields[3].key, "encoding");
    assert!(matches!(&plan.extra_fields[3].value, FieldValue::Text(t) if t == "UTF-8"));
}

#[test]
fn each_event_has_its_message() {
    let cases = [
        (TorrentEvent::Started, "Creating torrent...\n\nThis may take a while...", false),
        (TorrentEvent::ContentMissing, "Content path does not exist; upload aborted", true),
        (
            TorrentEvent::Written,
            "Torrent has been written to disk successfully\n\nUploading...",
            true,
        ),
        (
            TorrentEvent::WriteFailed,
            "Failed to write torrent to disk\n\nUpload aborted\n\nCheck log for more information.",
            true,
        ),
        (
            TorrentEvent::BuildFailed,
            "Failed to create torrent\n\nUpload aborted\n\nCheck log for more information.",
            true,
        ),
    ];
    for (event, text, is_ok_showing) in cases {
        let message = event.message();
        assert_eq!(message.0, text);
        assert_eq!(message.1, is_ok_showing);
    }
}
