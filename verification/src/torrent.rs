//! What goes into the torrent file of an upload: the piece length, the fixed
//! fields, the name of the file, and the messages that report how making it
//! went.

use vstd::prelude::*;
use vstd::string::StringExecFns;
use crate::dialog::DialogMessage;
use crate::qtm_config::QtmVersion;
use crate::text::{push_signed_decimal, signed_decimal};

verus! {

/// The largest piece length: one mebibyte.
pub const MAX_PIECE_LENGTH: u64 = 1048576;

/// Whether `p` is a power of two.
pub open spec fn is_power_of_two(p: nat) -> bool
    decreases p,
{
    p == 1 || (p >= 2 && p % 2 == 0 && is_power_of_two(p / 2))
}

/// Two to the power of `k`.
pub open spec fn two_to_the(k: nat) -> nat
    decreases k,
{
    if k == 0 {
        1
    } else {
        2 * two_to_the((k - 1) as nat)
    }
}

/// Two to any power is a power of two.
pub proof fn lemma_two_to_the_is_power(k: nat)
    ensures
        is_power_of_two(two_to_the(k)),
    decreases k,
{
    if k > 0 {
        lemma_two_to_the_is_power((k - 1) as nat);
        assert(two_to_the(k) / 2 == two_to_the((k - 1) as nat));
    }
}

/// Two to a higher power is not smaller.
pub proof fn lemma_two_to_the_grows(j: nat, k: nat)
    requires
        j <= k,
    ensures
        1 <= two_to_the(j) <= two_to_the(k),
    decreases k,
{
    if k > j {
        lemma_two_to_the_grows(j, (k - 1) as nat);
    } else if j > 0 {
        lemma_two_to_the_grows((j - 1) as nat, (j - 1) as nat);
    }
}

/// The largest power of two that is not above `n`; one for zero.
pub open spec fn floor_power_of_two(n: nat) -> nat
    decreases n,
{
    if n < 2 {
        1
    } else {
        2 * floor_power_of_two(n / 2)
    }
}

/// The piece length for content of `total_length` bytes: the largest power of
/// two that is not above a 1024th of the length plus one, so that there are
/// between 1024 and 2048 pieces or so, and one mebibyte at most.
pub open spec fn piece_length(total_length: nat) -> nat {
    let target = floor_power_of_two(total_length / 1024 + 1);
    if target < MAX_PIECE_LENGTH {
        target
    } else {
        MAX_PIECE_LENGTH as nat
    }
}

/// A power of two that is not above `n`, while twice it is, is the largest
/// power of two not above `n`.
pub proof fn lemma_floor_power_of_two_is(n: nat, p: nat)
    requires
        is_power_of_two(p),
        p <= n < 2 * p,
    ensures
        floor_power_of_two(n) == p,
    decreases p,
{
    if p > 1 {
        lemma_floor_power_of_two_is(n / 2, p / 2);
    }
}

/// The largest power of two not above `n` is a power of two, is not above
/// `n`, and twice it is; and it is not below any power of two that is not
/// above `n`.
pub proof fn lemma_floor_power_of_two(n: nat)
    requires
        n >= 1,
    ensures
        is_power_of_two(floor_power_of_two(n)),
        floor_power_of_two(n) <= n < 2 * floor_power_of_two(n),
        forall|p: nat| is_power_of_two(p) && p <= n ==> p <= floor_power_of_two(n),
    decreases n,
{
    if n >= 2 {
        lemma_floor_power_of_two(n / 2);
        assert forall|p: nat| is_power_of_two(p) && p <= n implies p <= floor_power_of_two(n) by {
            if p > 1 {
                assert(is_power_of_two(p / 2) && p / 2 <= n / 2);
            }
        }
    } else {
        assert forall|p: nat| is_power_of_two(p) && p <= n implies p <= floor_power_of_two(n) by {}
    }
}

/// The piece length is a power of two between one byte and one mebibyte.
pub proof fn lemma_piece_length_bounds(total_length: nat)
    ensures
        is_power_of_two(piece_length(total_length)),
        1 <= piece_length(total_length) <= MAX_PIECE_LENGTH,
        piece_length(total_length) <= total_length / 1024 + 1,
{
    lemma_floor_power_of_two(total_length / 1024 + 1);
    lemma_two_to_the_is_power(20);
    reveal_with_fuel(two_to_the, 21);
    assert(two_to_the(20) == 1048576);
}

/// The piece length for content of `total_length` bytes.
pub fn calculate_piece_length(total_length: u64) -> (length: u64)
    ensures
        length == piece_length(total_length as nat),
{
    let target = total_length / 1024 + 1;
    let mut length: u64 = 1;
    let mut doublings: u32 = 0;
    proof {
        reveal_with_fuel(two_to_the, 21);
        assert(two_to_the(20) == MAX_PIECE_LENGTH);
    }
    while doublings < 20 && length * 2 <= target
        invariant
            doublings <= 20,
            length == two_to_the(doublings as nat),
            1 <= length <= target,
            length <= MAX_PIECE_LENGTH,
            two_to_the(20) == MAX_PIECE_LENGTH,
            target == total_length / 1024 + 1,
        decreases 20 - doublings,
    {
        proof {
            lemma_two_to_the_grows(doublings as nat + 1, 20);
        }
        length = length * 2;
        doublings = doublings + 1;
    }
    proof {
        lemma_two_to_the_is_power(doublings as nat);
        lemma_floor_power_of_two(target as nat);
        if length * 2 > target {
            lemma_floor_power_of_two_is(target as nat, length as nat);
        }
    }
    length
}

/// Where uploads are announced.
pub const ANNOUNCE_URL: &'static str = "http://gaytor.rent:2710/announce";

/// The value of an extra field of a torrent file.
#[derive(Debug)]
pub enum FieldValue {
    Integer(i64),
    Text(String),
}

/// What the value of an extra field is in contracts.
pub enum FieldModel {
    Integer(int),
    Text(Seq<char>),
}

impl View for FieldValue {
    type V = FieldModel;

    open spec fn view(&self) -> FieldModel {
        match self {
            FieldValue::Integer(n) => FieldModel::Integer(*n as int),
            FieldValue::Text(s) => FieldModel::Text(s@),
        }
    }
}

/// An extra field of a torrent file.
#[derive(Debug)]
pub struct ExtraField {
    pub key: String,
    pub value: FieldValue,
}

impl View for ExtraField {
    type V = (Seq<char>, FieldModel);

    open spec fn view(&self) -> (Seq<char>, FieldModel) {
        (self.key@, self.value@)
    }
}

impl DeepView for ExtraField {
    type V = (Seq<char>, FieldModel);

    open spec fn deep_view(&self) -> (Seq<char>, FieldModel) {
        self@
    }
}

/// All that is fixed about a torrent before its content is read.
#[derive(Debug)]
pub struct TorrentPlan {
    pub piece_length: i64,
    pub announce: String,
    pub name: String,
    pub is_private: bool,
    pub extra_fields: Vec<ExtraField>,
    pub filename: String,
}

/// What a torrent plan is in contracts.
pub struct TorrentPlanModel {
    pub piece_length: int,
    pub announce: Seq<char>,
    pub name: Seq<char>,
    pub is_private: bool,
    pub extra_fields: Seq<(Seq<char>, FieldModel)>,
    pub filename: Seq<char>,
}

impl View for TorrentPlan {
    type V = TorrentPlanModel;

    open spec fn view(&self) -> TorrentPlanModel {
        TorrentPlanModel {
            piece_length: self.piece_length as int,
            announce: self.announce@,
            name: self.name@,
            is_private: self.is_private,
            extra_fields: self.extra_fields.deep_view(),
            filename: self.filename@,
        }
    }
}

/// The name under which the program signs its torrents.
pub open spec fn application_name(version: QtmVersion) -> Seq<char> {
    "Quick Torrent Maker 2, v"@ + version.text()
}

/// The name of the torrent file made at `creation_time`.
pub open spec fn torrent_filename(creation_time: int) -> Seq<char> {
    "qtm2-"@ + signed_decimal(creation_time) + ".torrent"@
}

/// The plan of the torrent for content called `name`, of `total_length`
/// bytes, made at `creation_time` by the program in `version`: a private
/// torrent for the tracker, with the creation date, the program's name, a
/// comment and the encoding as extra fields.
pub open spec fn planned(
    name: Seq<char>,
    total_length: nat,
    creation_time: int,
    version: QtmVersion,
) -> TorrentPlanModel {
    TorrentPlanModel {
        piece_length: piece_length(total_length) as int,
        announce: ANNOUNCE_URL@,
        name,
        is_private: true,
        extra_fields: seq![
            ("creation date"@, FieldModel::Integer(creation_time)),
            ("created by"@, FieldModel::Text(application_name(version))),
            (
                "comment"@,
                FieldModel::Text("This torrent was created by "@ + application_name(version)),
            ),
            ("encoding"@, FieldModel::Text("UTF-8"@)),
        ],
        filename: torrent_filename(creation_time),
    }
}

/// The name under which the program signs its torrents.
pub fn get_application_name(version: QtmVersion) -> (name: String)
    ensures
        name@ == application_name(version),
{
    let mut name = String::from_str("Quick Torrent Maker 2, v");
    let text = version.to_string();
    name.append(text.as_str());
    name
}

/// The name of the torrent file made at `creation_time`.
pub fn get_torrent_filename(creation_time: i64) -> (filename: String)
    ensures
        filename@ == torrent_filename(creation_time as int),
{
    let mut filename = String::from_str("qtm2-");
    push_signed_decimal(&mut filename, creation_time);
    filename.append(".torrent");
    filename
}

/// The plan of the torrent for content called `name`, of `total_length`
/// bytes, made at `creation_time`, in seconds since 1970, by the program in
/// `version`.
pub fn plan_torrent(name: &str, total_length: u64, creation_time: i64, version: QtmVersion) -> (plan:
    TorrentPlan)
    ensures
        plan@ == planned(name@, total_length as nat, creation_time as int, version),
{
    let application = get_application_name(version);
    let mut comment = String::from_str("This torrent was created by ");
    comment.append(application.as_str());
    let mut extra_fields: Vec<ExtraField> = Vec::new();
    extra_fields.push(
        ExtraField {
            key: String::from_str("creation date"),
            value: FieldValue::Integer(creation_time),
        },
    );
    extra_fields.push(
        ExtraField { key: String::from_str("created by"), value: FieldValue::Text(application) },
    );
    extra_fields.push(
        ExtraField { key: String::from_str("comment"), value: FieldValue::Text(comment) },
    );
    extra_fields.push(
        ExtraField {
            key: String::from_str("encoding"),
            value: FieldValue::Text(String::from_str("UTF-8")),
        },
    );
    let length = calculate_piece_length(total_length);
    proof {
        lemma_piece_length_bounds(total_length as nat);
    }
    let plan = TorrentPlan {
        piece_length: length as i64,
        announce: String::from_str(ANNOUNCE_URL),
        name: String::from_str(name),
        is_private: true,
        extra_fields,
        filename: get_torrent_filename(creation_time),
    };
    assert(plan@.extra_fields =~= planned(
        name@,
        total_length as nat,
        creation_time as int,
        version,
    ).extra_fields);
    plan
}

/// What can be reported while a torrent is made.
#[derive(Debug, Copy, Clone, PartialEq, Eq, Structural)]
pub enum TorrentEvent {
    /// The work has begun.
    Started,
    /// There is nothing at the path of the content.
    ContentMissing,
    /// The torrent was made and written to disk.
    Written,
    /// The torrent was made, but could not be written to disk.
    WriteFailed,
    /// The torrent could not be made.
    BuildFailed,
}

impl TorrentEvent {
    /// The text that reports the event.
    pub open spec fn text(self) -> Seq<char> {
        match self {
            TorrentEvent::Started => "Creating torrent...\n\nThis may take a while..."@,
            TorrentEvent::ContentMissing => "Content path does not exist; upload aborted"@,
            TorrentEvent::Written => "Torrent has been written to disk successfully\n\nUploading..."@,
            TorrentEvent::WriteFailed => "Failed to write torrent to disk\n\nUpload aborted\n\nCheck log for more information."@,
            TorrentEvent::BuildFailed => "Failed to create torrent\n\nUpload aborted\n\nCheck log for more information."@,
        }
    }

    /// The message that reports the event. Only the message that the work has
    /// begun comes without the OK button: it stays until the next one.
    pub fn message(self) -> (message: DialogMessage)
        ensures
            message@ == (self.text(), self != TorrentEvent::Started),
    {
        match self {
            TorrentEvent::Started => DialogMessage::new(
                "Creating torrent...\n\nThis may take a while...",
                false,
            ),
            TorrentEvent::ContentMissing => DialogMessage::new(
                "Content path does not exist; upload aborted",
                true,
            ),
            TorrentEvent::Written => DialogMessage::new(
                "Torrent has been written to disk successfully\n\nUploading...",
                true,
            ),
            TorrentEvent::WriteFailed => DialogMessage::new(
                "Failed to write torrent to disk\n\nUpload aborted\n\nCheck log for more information.",
                true,
            ),
            TorrentEvent::BuildFailed => DialogMessage::new(
                "Failed to create torrent\n\nUpload aborted\n\nCheck log for more information.",
                true,
            ),
        }
    }
}

} // verus!
