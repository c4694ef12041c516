//! Tags: their colours, their data, and the chip that shows one.

use vstd::prelude::*;
use vstd::std_specs::cmp::{PartialEqSpecImpl, PartialOrdSpecImpl};
use std::cmp::Ordering;
use crate::text::{sorts_before, text_precedes};

verus! {

/// A colour as red, green and blue.
#[derive(Debug, Copy, Clone, PartialEq, Eq, Structural)]
pub struct Rgb {
    pub r: u8,
    pub g: u8,
    pub b: u8,
}

impl Rgb {
    /// White.
    pub open spec fn white() -> Rgb {
        Rgb { r: 255, g: 255, b: 255 }
    }

    /// Black.
    pub open spec fn black() -> Rgb {
        Rgb { r: 0, g: 0, b: 0 }
    }
}

/// The colours a tag can have.
#[derive(Debug, Clone, Copy, PartialEq, Eq, Structural, Hash)]
pub enum TagColor {
    Red,
    Pink,
    Purple,
    DeepPurple,
    Indigo,
    Blue,
    LightBlue,
    Cyan,
    Teal,
    Green,
    LightGreen,
    Lime,
    Yellow,
    Amber,
    Orange,
    DeepOrange,
    Brown,
    Grey,
    BlueGrey,
}

impl TagColor {
    /// The number under which a colour is stored.
    pub open spec fn code(self) -> u8 {
        match self {
            TagColor::Red => 0,
            TagColor::Pink => 1,
            TagColor::Purple => 2,
            TagColor::DeepPurple => 3,
            TagColor::Indigo => 4,
            TagColor::Blue => 5,
            TagColor::LightBlue => 6,
            TagColor::Cyan => 7,
            TagColor::Teal => 8,
            TagColor::Green => 9,
            TagColor::LightGreen => 10,
            TagColor::Lime => 11,
            TagColor::Yellow => 12,
            TagColor::Amber => 13,
            TagColor::Orange => 14,
            TagColor::DeepOrange => 15,
            TagColor::Brown => 16,
            TagColor::Grey => 17,
            TagColor::BlueGrey => 18,
        }
    }

    /// The fill colour of a tag.
    pub open spec fn primary(self) -> Rgb {
        match self {
            TagColor::Red => (Rgb { r: 244, g: 67, b: 54 }),
            TagColor::Pink => (Rgb { r: 233, g: 30, b: 99 }),
            TagColor::Purple => (Rgb { r: 156, g: 39, b: 176 }),
            TagColor::DeepPurple => (Rgb { r: 103, g: 58, b: 183 }),
            TagColor::Indigo => (Rgb { r: 63, g: 81, b: 181 }),
            TagColor::Blue => (Rgb { r: 33, g: 150, b: 243 }),
            TagColor::LightBlue => (Rgb { r: 3, g: 169, b: 244 }),
            TagColor::Cyan => (Rgb { r: 0, g: 188, b: 212 }),
            TagColor::Teal => (Rgb { r: 0, g: 150, b: 136 }),
            TagColor::Green => (Rgb { r: 76, g: 175, b: 80 }),
            TagColor::LightGreen => (Rgb { r: 139, g: 195, b: 74 }),
            TagColor::Lime => (Rgb { r: 205, g: 220, b: 57 }),
            TagColor::Yellow => (Rgb { r: 255, g: 235, b: 59 }),
            TagColor::Amber => (Rgb { r: 255, g: 193, b: 7 }),
            TagColor::Orange => (Rgb { r: 255, g: 152, b: 0 }),
            TagColor::DeepOrange => (Rgb { r: 255, g: 87, b: 34 }),
            TagColor::Brown => (Rgb { r: 121, g: 85, b: 72 }),
            TagColor::Grey => (Rgb { r: 117, g: 117, b: 117 }),
            TagColor::BlueGrey => (Rgb { r: 96, g: 125, b: 139 }),
        }
    }

    /// The text colour of a tag: white on the four dark fills, black on the
    /// others.
    pub open spec fn secondary(self) -> Rgb {
        match self {
            TagColor::Purple | TagColor::DeepPurple | TagColor::Indigo | TagColor::Brown => Rgb::white(),
            _ => Rgb::black(),
        }
    }

    /// The fill colour of a tag.
    pub fn to_primary_color(self) -> (color: Rgb)
        ensures
            color == self.primary(),
    {
        match self {
            TagColor::Red => Rgb { r: 244, g: 67, b: 54 },
            TagColor::Pink => Rgb { r: 233, g: 30, b: 99 },
            TagColor::Purple => Rgb { r: 156, g: 39, b: 176 },
            TagColor::DeepPurple => Rgb { r: 103, g: 58, b: 183 },
            TagColor::Indigo => Rgb { r: 63, g: 81, b: 181 },
            TagColor::Blue => Rgb { r: 33, g: 150, b: 243 },
            TagColor::LightBlue => Rgb { r: 3, g: 169, b: 244 },
            TagColor::Cyan => Rgb { r: 0, g: 188, b: 212 },
            TagColor::Teal => Rgb { r: 0, g: 150, b: 136 },
            TagColor::Green => Rgb { r: 76, g: 175, b: 80 },
            TagColor::LightGreen => Rgb { r: 139, g: 195, b: 74 },
            TagColor::Lime => Rgb { r: 205, g: 220, b: 57 },
            TagColor::Yellow => Rgb { r: 255, g: 235, b: 59 },
            TagColor::Amber => Rgb { r: 255, g: 193, b: 7 },
            TagColor::Orange => Rgb { r: 255, g: 152, b: 0 },
            TagColor::DeepOrange => Rgb { r: 255, g: 87, b: 34 },
            TagColor::Brown => Rgb { r: 121, g: 85, b: 72 },
            TagColor::Grey => Rgb { r: 117, g: 117, b: 117 },
            TagColor::BlueGrey => Rgb { r: 96, g: 125, b: 139 },
        }
    }

    /// The text colour of a tag.
    pub fn to_secondary_color(self) -> (color: Rgb)
        ensures
            color == self.secondary(),
    {
        match self {
            TagColor::Purple | TagColor::DeepPurple | TagColor::Indigo | TagColor::Brown => Rgb {
                r: 255,
                g: 255,
                b: 255,
            },
            _ => Rgb { r: 0, g: 0, b: 0 },
        }
    }

    /// The number under which a colour is stored.
    pub fn to_u8(self) -> (code: u8)
        ensures
            code == self.code(),
    {
        match self {
            TagColor::Red => 0,
            TagColor::Pink => 1,
            TagColor::Purple => 2,
            TagColor::DeepPurple => 3,
            TagColor::Indigo => 4,
            TagColor::Blue => 5,
            TagColor::LightBlue => 6,
            TagColor::Cyan => 7,
            TagColor::Teal => 8,
            TagColor::Green => 9,
            TagColor::LightGreen => 10,
            TagColor::Lime => 11,
            TagColor::Yellow => 12,
            TagColor::Amber => 13,
            TagColor::Orange => 14,
            TagColor::DeepOrange => 15,
            TagColor::Brown => 16,
            TagColor::Grey => 17,
            TagColor::BlueGrey => 18,
        }
    }

    /// The colour stored under `code`, if there is one.
    pub fn from_u8(code: u8) -> (color: Option<TagColor>)
        ensures
            match color {
                Some(c) => c.code() == code,
                None => code > 18,
            },
    {
        match code {
            0 => Some(TagColor::Red),
            1 => Some(TagColor::Pink),
            2 => Some(TagColor::Purple),
            3 => Some(TagColor::DeepPurple),
            4 => Some(TagColor::Indigo),
            5 => Some(TagColor::Blue),
            6 => Some(TagColor::LightBlue),
            7 => Some(TagColor::Cyan),
            8 => Some(TagColor::Teal),
            9 => Some(TagColor::Green),
            10 => Some(TagColor::LightGreen),
            11 => Some(TagColor::Lime),
            12 => Some(TagColor::Yellow),
            13 => Some(TagColor::Amber),
            14 => Some(TagColor::Orange),
            15 => Some(TagColor::DeepOrange),
            16 => Some(TagColor::Brown),
            17 => Some(TagColor::Grey),
            18 => Some(TagColor::BlueGrey),
            _ => None,
        }
    }
}

/// Every colour has a code of its own, at most 18, so a stored code names one
/// colour.
pub proof fn lemma_color_code_is_injective(a: TagColor, b: TagColor)
    ensures
        a.code() <= 18,
        a.code() == b.code() ==> a == b,
{
}

/// A tag: its text and its colour.
#[derive(Debug, Eq, Hash)]
pub struct TagData {
    pub text: String,
    pub color: TagColor,
}

/// What a tag is in contracts: the characters of its text, and its colour.
pub type TagModel = (Seq<char>, TagColor);

impl View for TagData {
    type V = TagModel;

    open spec fn view(&self) -> TagModel {
        (self.text@, self.color)
    }
}

impl DeepView for TagData {
    type V = TagModel;

    open spec fn deep_view(&self) -> TagModel {
        self@
    }
}

impl Clone for TagData {
    fn clone(&self) -> (copy: TagData)
        ensures
            copy@ == self@,
    {
        TagData { text: self.text.clone(), color: self.color }
    }
}

/// How text `a` stands to text `b` in the order of texts.
pub open spec fn text_order(a: Seq<char>, b: Seq<char>) -> Ordering {
    if text_precedes(a, b) {
        Ordering::Less
    } else if a == b {
        Ordering::Equal
    } else {
        Ordering::Greater
    }
}

impl PartialEq for TagData {
    fn eq(&self, other: &Self) -> (same: bool) {
        self.text == other.text && self.color == other.color
    }
}

impl PartialEqSpecImpl for TagData {
    open spec fn obeys_eq_spec() -> bool {
        true
    }

    open spec fn eq_spec(&self, other: &TagData) -> bool {
        self@ == other@
    }
}

impl PartialOrd for TagData {
    /// Tags are ordered by their texts alone.
    fn partial_cmp(&self, other: &Self) -> (order: Option<Ordering>) {
        proof {
            crate::text::lemma_text_order_total(self.text@, other.text@);
        }
        if sorts_before(self.text.as_str(), other.text.as_str()) {
            Some(Ordering::Less)
        } else if sorts_before(other.text.as_str(), self.text.as_str()) {
            Some(Ordering::Greater)
        } else {
            Some(Ordering::Equal)
        }
    }
}

impl PartialOrdSpecImpl for TagData {
    open spec fn obeys_partial_cmp_spec() -> bool {
        true
    }

    open spec fn partial_cmp_spec(&self, other: &TagData) -> Option<Ordering> {
        Some(text_order(self.text@, other.text@))
    }
}

/// The tags that the program starts out with.
pub open spec fn default_tag_models() -> Seq<TagModel> {
    seq![
        ("Onlyfans"@, TagColor::Blue),
        ("Fansly"@, TagColor::Blue),
        ("JustForFans"@, TagColor::Pink),
        ("Friends 2 Follow"@, TagColor::DeepPurple),
        ("Pornhub"@, TagColor::Orange),
        ("Chaturbate"@, TagColor::Amber),
        ("Twitter"@, TagColor::Blue),
        ("Reddit"@, TagColor::DeepOrange),
        ("Amateur"@, TagColor::Lime),
        ("Snapchat"@, TagColor::Yellow),
        ("Tiktok"@, TagColor::Cyan),
        ("Instagram"@, TagColor::Pink),
    ]
}

impl TagData {
    /// A tag with the given text and colour.
    pub fn new(text: &str, color: TagColor) -> (tag: TagData)
        ensures
            tag@ == (text@, color),
    {
        TagData { text: text.to_owned(), color }
    }

    /// The tags that the program starts out with.
    pub fn default_tags() -> (tags: Vec<TagData>)
        ensures
            tags.deep_view() == default_tag_models(),
    {
        let mut tags: Vec<TagData> = Vec::new();
        tags.push(TagData::new("Onlyfans", TagColor::Blue));
        tags.push(TagData::new("Fansly", TagColor::Blue));
        tags.push(TagData::new("JustForFans", TagColor::Pink));
        tags.push(TagData::new("Friends 2 Follow", TagColor::DeepPurple));
        tags.push(TagData::new("Pornhub", TagColor::Orange));
        tags.push(TagData::new("Chaturbate", TagColor::Amber));
        tags.push(TagData::new("Twitter", TagColor::Blue));
        tags.push(TagData::new("Reddit", TagColor::DeepOrange));
        tags.push(TagData::new("Amateur", TagColor::Lime));
        tags.push(TagData::new("Snapchat", TagColor::Yellow));
        tags.push(TagData::new("Tiktok", TagColor::Cyan));
        tags.push(TagData::new("Instagram", TagColor::Pink));
        assert(tags.deep_view() =~= default_tag_models());
        tags
    }

    /// The tags to work with after an attempt to read the saved ones: the
    /// tags that were read, or none where reading or decoding failed.
    pub fn fetched_or_empty(fetched: Option<Vec<TagData>>) -> (tags: Vec<TagData>)
        ensures
            match fetched {
                Some(read) => tags == read,
                None => tags@.len() == 0,
            },
    {
        match fetched {
            Some(read) => read,
            None => Vec::new(),
        }
    }
}

/// The chip that shows one tag: the tag, and the flag that says whether it is
/// selected.
#[derive(Debug)]
pub struct Tag<'a> {
    pub data: &'a TagData,
    pub is_selected: &'a mut bool,
}

impl<'a> Tag<'a> {
    /// The chip for `data` with the flag `is_selected`.
    pub fn new(data: &'a TagData, is_selected: &'a mut bool) -> (tag: Tag<'a>)
        ensures
            tag.data == data,
            *tag.is_selected == *old(is_selected),
            *final(is_selected) == *final(tag.is_selected),
    {
        Tag { data, is_selected }
    }
}

/// One entry of a tag board in contracts: the tag, and whether it is
/// selected.
pub type BoardEntry = (TagModel, bool);

/// Whether `s` can be the entries of a tag board: the texts grow strictly
/// from each entry to the next, so that no text occurs twice.
pub open spec fn is_board(s: Seq<BoardEntry>) -> bool {
    forall|i: int, j: int|
        0 <= i < j < s.len() ==> text_precedes((#[trigger] s[i]).0.0, (#[trigger] s[j]).0.0)
}

/// How many entries at the front of `s` sort before `text`.
pub open spec fn rank(s: Seq<BoardEntry>, text: Seq<char>) -> int
    decreases s.len(),
{
    if s.len() > 0 && text_precedes(s[0].0.0, text) {
        1 + rank(s.drop_first(), text)
    } else {
        0
    }
}

/// The entries after `tag` was put on the board, unselected: it stands after
/// the entries that sort before it, and takes the place of an entry with the
/// same text.
pub open spec fn placed(s: Seq<BoardEntry>, tag: TagModel) -> Seq<BoardEntry> {
    let p = rank(s, tag.0);
    if p < s.len() && s[p].0.0 == tag.0 {
        s.take(p).push((tag, false)) + s.skip(p + 1)
    } else {
        s.take(p).push((tag, false)) + s.skip(p)
    }
}

/// The board made from `tags`, put on it one after the other.
pub open spec fn board_of(tags: Seq<TagModel>) -> Seq<BoardEntry>
    decreases tags.len(),
{
    if tags.len() == 0 {
        Seq::empty()
    } else {
        placed(board_of(tags.drop_last()), tags.last())
    }
}

/// The rank of a text is the one place that has only smaller texts before it
/// and no smaller text at it.
pub proof fn lemma_rank_is(s: Seq<BoardEntry>, text: Seq<char>, p: int)
    requires
        0 <= p <= s.len(),
        forall|i: int| 0 <= i < p ==> text_precedes((#[trigger] s[i]).0.0, text),
        p < s.len() ==> !text_precedes(s[p].0.0, text),
    ensures
        rank(s, text) == p,
    decreases s.len(),
{
    if p > 0 {
        assert(text_precedes(s[0].0.0, text));
        let rest = s.drop_first();
        assert forall|i: int| 0 <= i < p - 1 implies text_precedes((#[trigger] rest[i]).0.0, text) by {
            assert(rest[i] == s[i + 1]);
        }
        lemma_rank_is(rest, text, p - 1);
    }
}

/// The rank of a text lies within the board, with only smaller texts before
/// it; on a board no smaller text stands at it or after it.
pub proof fn lemma_rank_bounds(s: Seq<BoardEntry>, text: Seq<char>)
    ensures
        0 <= rank(s, text) <= s.len(),
        forall|i: int| 0 <= i < rank(s, text) ==> text_precedes((#[trigger] s[i]).0.0, text),
        is_board(s) ==> forall|i: int|
            rank(s, text) <= i < s.len() ==> !text_precedes((#[trigger] s[i]).0.0, text),
    decreases s.len(),
{
    if s.len() > 0 && text_precedes(s[0].0.0, text) {
        let rest = s.drop_first();
        lemma_rank_bounds(rest, text);
        assert forall|i: int| 0 <= i < rank(s, text) implies text_precedes(
            (#[trigger] s[i]).0.0,
            text,
        ) by {
            if i > 0 {
                assert(rest[i - 1] == s[i]);
            }
        }
        if is_board(s) {
            assert forall|i: int, j: int| 0 <= i < j < rest.len() implies text_precedes(
                (#[trigger] rest[i]).0.0,
                (#[trigger] rest[j]).0.0,
            ) by {
                assert(rest[i] == s[i + 1] && rest[j] == s[j + 1]);
            }
            assert forall|i: int| rank(s, text) <= i < s.len() implies !text_precedes(
                (#[trigger] s[i]).0.0,
                text,
            ) by {
                assert(rest[i - 1] == s[i]);
            }
        }
    } else if is_board(s) {
        assert forall|i: int| 0 <= i < s.len() implies !text_precedes((#[trigger] s[i]).0.0, text) by {
            if i > 0 && text_precedes(s[i].0.0, text) {
                assert(text_precedes(s[0].0.0, s[i].0.0));
                crate::text::lemma_text_order_transitive(s[0].0.0, s[i].0.0, text);
            }
        }
    }
}

/// Putting a tag on a board gives a board.
pub proof fn lemma_placed_is_board(s: Seq<BoardEntry>, tag: TagModel)
    requires
        is_board(s),
    ensures
        is_board(placed(s, tag)),
{
    let p = rank(s, tag.0);
    let q = placed(s, tag);
    lemma_rank_bounds(s, tag.0);
    let shift: int = if p < s.len() && s[p].0.0 == tag.0 {
        0
    } else {
        -1
    };
    assert forall|k: int| p < k < q.len() implies #[trigger] q[k] == s[k + shift] by {}
    assert forall|k: int| p < k < q.len() implies text_precedes(tag.0, (#[trigger] q[k]).0.0) by {
        let e = s[k + shift];
        assert(!text_precedes(e.0.0, tag.0));
        crate::text::lemma_text_order_total(e.0.0, tag.0);
        if e.0.0 == tag.0 {
            assert(k + shift > p);
            assert(text_precedes(s[p].0.0, e.0.0));
            assert(!text_precedes(s[p].0.0, tag.0));
        }
    }
    assert forall|i: int, j: int| 0 <= i < j < q.len() implies text_precedes(
        (#[trigger] q[i]).0.0,
        (#[trigger] q[j]).0.0,
    ) by {
        if j < p {
            assert(q[i] == s[i] && q[j] == s[j]);
        } else if j == p {
            assert(q[i] == s[i]);
        } else if i == p {
        } else if i < p {
            assert(q[i] == s[i]);
            crate::text::lemma_text_order_transitive(s[i].0.0, tag.0, q[j].0.0);
        } else {
            assert(q[i] == s[i + shift] && q[j] == s[j + shift]);
        }
    }
}

/// The board made from any tags is a board, and none of its entries is
/// selected.
pub proof fn lemma_board_of_is_board(tags: Seq<TagModel>)
    ensures
        is_board(board_of(tags)),
        forall|k: int| 0 <= k < board_of(tags).len() ==> !(#[trigger] board_of(tags)[k]).1,
    decreases tags.len(),
{
    if tags.len() > 0 {
        let before = board_of(tags.drop_last());
        lemma_board_of_is_board(tags.drop_last());
        lemma_placed_is_board(before, tags.last());
        lemma_rank_bounds(before, tags.last().0);
    }
}

/// What stands on a board after a tag was put on it: the tag, unselected,
/// and every entry from before whose text is not the tag's.
pub proof fn lemma_placed_holds(s: Seq<BoardEntry>, tag: TagModel, entry: BoardEntry)
    requires
        is_board(s),
    ensures
        placed(s, tag).contains(entry) <==> (entry == (tag, false) || (s.contains(entry)
            && entry.0.0 != tag.0)),
{
    let p = rank(s, tag.0);
    let q = placed(s, tag);
    lemma_rank_bounds(s, tag.0);
    lemma_placed_is_board(s, tag);
    crate::text::lemma_text_order_irreflexive(tag.0);
    let replaces = p < s.len() && s[p].0.0 == tag.0;
    let shift: int = if replaces {
        0
    } else {
        -1
    };
    assert(q[p] == (tag, false));
    if q.contains(entry) {
        let k = choose|k: int| 0 <= k < q.len() && q[k] == entry;
        if k < p {
            assert(q[k] == s[k]);
            assert(text_precedes(s[k].0.0, tag.0));
        } else if k > p {
            assert(q[k] == s[k + shift]);
            assert(text_precedes(q[p].0.0, q[k].0.0));
        }
    }
    if s.contains(entry) && entry.0.0 != tag.0 {
        let i = choose|i: int| 0 <= i < s.len() && s[i] == entry;
        if i < p {
            assert(q[i] == entry);
        } else {
            assert(q[i - shift] == entry);
        }
    }
}

/// Whether the tag at `i` is the last of `tags` with its text.
pub open spec fn is_last_with_its_text(tags: Seq<TagModel>, i: int) -> bool {
    forall|j: int| i < j < tags.len() ==> (#[trigger] tags[j]).0 != tags[i].0
}

/// The board made from tags holds, unselected, exactly those tags that are
/// the last with their text: every text of the tags stands on the board
/// once, with the colour that was given last.
pub proof fn lemma_board_of_holds(tags: Seq<TagModel>, tag: TagModel)
    ensures
        board_of(tags).contains((tag, false)) <==> exists|i: int|
            0 <= i < tags.len() && #[trigger] tags[i] == tag && is_last_with_its_text(tags, i),
    decreases tags.len(),
{
    if tags.len() > 0 {
        let rest = tags.drop_last();
        let last = tags.last();
        let n = tags.len() - 1;
        lemma_board_of_is_board(rest);
        lemma_board_of_holds(rest, tag);
        lemma_placed_holds(board_of(rest), last, (tag, false));
        if board_of(tags).contains((tag, false)) {
            if tag == last {
                assert(tags[n] == tag && is_last_with_its_text(tags, n));
            } else {
                let i = choose|i: int|
                    0 <= i < rest.len() && #[trigger] rest[i] == tag && is_last_with_its_text(
                        rest,
                        i,
                    );
                assert forall|j: int| i < j < tags.len() implies (#[trigger] tags[j]).0
                    != tags[i].0 by {
                    if j < n {
                        assert(rest[j] == tags[j]);
                    }
                }
                assert(tags[i] == tag && is_last_with_its_text(tags, i));
            }
        }
        if exists|i: int|
            0 <= i < tags.len() && #[trigger] tags[i] == tag && is_last_with_its_text(tags, i) {
            let i = choose|i: int|
                0 <= i < tags.len() && #[trigger] tags[i] == tag && is_last_with_its_text(tags, i);
            if i < n {
                assert(tags[n].0 != tags[i].0);
                assert forall|j: int| i < j < rest.len() implies (#[trigger] rest[j]).0
                    != rest[i].0 by {
                    assert(rest[j] == tags[j]);
                }
                assert(rest[i] == tag && is_last_with_its_text(rest, i));
            }
        }
    } else {
        assert(!board_of(tags).contains((tag, false)));
    }
}

/// The places of the selected entries of a board, in rising order.
pub open spec fn selected_places(s: Seq<BoardEntry>) -> Seq<int> {
    Seq::new(s.len(), |i: int| i).filter(|i: int| 0 <= i < s.len() && s[i].1)
}

/// The tags of the form, kept in the order of their texts, each with the flag
/// that says whether it is selected. No text occurs twice.
pub struct TagBoard {
    entries: Vec<(TagData, bool)>,
}

impl View for TagBoard {
    type V = Seq<BoardEntry>;

    closed spec fn view(&self) -> Seq<BoardEntry> {
        self.entries.deep_view()
    }
}

impl TagBoard {
    #[verifier::type_invariant]
    spec fn well_formed(self) -> bool {
        is_board(self.entries.deep_view())
    }

    /// The board without tags.
    pub fn new() -> (board: TagBoard)
        ensures
            board@ == Seq::<BoardEntry>::empty(),
    {
        let entries: Vec<(TagData, bool)> = Vec::new();
        assert(entries.deep_view() =~= Seq::<BoardEntry>::empty());
        TagBoard { entries }
    }

    /// The board made from `tags`, none of them selected. Of several tags
    /// with one text the last one stays.
    pub fn from_tags(tags: Vec<TagData>) -> (board: TagBoard)
        ensures
            board@ == board_of(tags.deep_view()),
            is_board(board@),
    {
        let mut board = TagBoard::new();
        let ghost models = tags.deep_view();
        assert(models.take(0) =~= Seq::<TagModel>::empty());
        for tag in it: tags
            invariant
                it.seq() == tags@,
                models == tags.deep_view(),
                board@ == board_of(models.take(it.index() as int)),
        {
            proof {
                let done = models.take(it.index() as int);
                let next = models.take(it.index() + 1);
                assert(next.drop_last() =~= done);
                assert(next.last() == tag@);
            }
            board.place(tag);
        }
        proof {
            assert(models.take(tags@.len() as int) =~= models);
            lemma_board_of_is_board(models);
        }
        board
    }

    /// Puts `tag` on the board, unselected, in the place that its text gives
    /// it. A tag with the same text that was there before is replaced.
    pub fn place(&mut self, tag: TagData)
        ensures
            final(self)@ == placed(old(self)@, tag@),
            is_board(final(self)@),
    {
        proof {
            use_type_invariant(&*self);
        }
        let ghost before = self@;
        let mut entries: Vec<(TagData, bool)> = Vec::new();
        assert(entries.deep_view() =~= Seq::<BoardEntry>::empty());
        core::mem::swap(&mut self.entries, &mut entries);
        let mut p: usize = 0;
        while p < entries.len() && sorts_before(entries[p].0.text.as_str(), tag.text.as_str())
            invariant
                p <= entries.len(),
                entries.deep_view() == before,
                forall|i: int| 0 <= i < p ==> text_precedes((#[trigger] before[i]).0.0, tag@.0),
            decreases entries.len() - p,
        {
            p += 1;
        }
        proof {
            lemma_rank_is(before, tag@.0, p as int);
            lemma_placed_is_board(before, tag@);
        }
        let ghost model = tag@;
        if p < entries.len() && entries[p].0.text == tag.text {
            entries[p] = (tag, false);
        } else {
            entries.insert(p, (tag, false));
        }
        assert(entries.deep_view() =~= placed(before, model));
        self.entries = entries;
    }

    /// How many tags the board holds.
    pub fn len(&self) -> (n: usize)
        ensures
            n == self@.len(),
    {
        self.entries.len()
    }

    /// The tag at `index`.
    pub fn tag(&self, index: usize) -> (tag: &TagData)
        requires
            index < self@.len(),
        ensures
            tag@ == self@[index as int].0,
    {
        &self.entries[index].0
    }

    /// Whether the tag at `index` is selected; `false` where the board has
    /// no such place.
    pub fn is_selected(&self, index: usize) -> (selected: bool)
        ensures
            selected == (index < self@.len() && self@[index as int].1),
    {
        index < self.entries.len() && self.entries[index].1
    }

    /// Selects the tag at `index` if it was not selected, and the other way
    /// round. Nothing changes where the board has no such place.
    pub fn toggle(&mut self, index: usize)
        ensures
            final(self)@ == if index < old(self)@.len() {
                old(self)@.update(
                    index as int,
                    (old(self)@[index as int].0, !old(self)@[index as int].1),
                )
            } else {
                old(self)@
            },
            is_board(final(self)@),
    {
        proof {
            use_type_invariant(&*self);
        }
        if index < self.entries.len() {
            let flag = !self.entries[index].1;
            self.set_flag(index, flag);
        }
    }

    /// Takes the selection from the tag at `index`. Nothing changes where the
    /// board has no such place.
    pub fn deselect(&mut self, index: usize)
        ensures
            final(self)@ == if index < old(self)@.len() {
                old(self)@.update(index as int, (old(self)@[index as int].0, false))
            } else {
                old(self)@
            },
            is_board(final(self)@),
    {
        proof {
            use_type_invariant(&*self);
        }
        if index < self.entries.len() {
            self.set_flag(index, false);
        }
    }

    fn set_flag(&mut self, index: usize, flag: bool)
        requires
            index < old(self)@.len(),
        ensures
            final(self)@ == old(self)@.update(index as int, (old(self)@[index as int].0, flag)),
            is_board(final(self)@),
    {
        proof {
            use_type_invariant(&*self);
        }
        let ghost before = self@;
        let mut entries: Vec<(TagData, bool)> = Vec::new();
        assert(entries.deep_view() =~= Seq::<BoardEntry>::empty());
        core::mem::swap(&mut self.entries, &mut entries);
        entries[index].1 = flag;
        proof {
            let after = before.update(index as int, (before[index as int].0, flag));
            assert(entries.deep_view() =~= after);
            assert forall|i: int, j: int| 0 <= i < j < after.len() implies text_precedes(
                (#[trigger] after[i]).0.0,
                (#[trigger] after[j]).0.0,
            ) by {
                assert(after[i].0 == before[i].0 && after[j].0 == before[j].0);
            }
        }
        self.entries = entries;
    }

    /// The places of the selected tags, in rising order.
    pub fn selected(&self) -> (places: Vec<usize>)
        ensures
            places@.map_values(|p: usize| p as int) == selected_places(self@),
    {
        let ghost pred = |i: int| 0 <= i < self@.len() && self@[i].1;
        let ghost all = Seq::new(self@.len(), |i: int| i);
        let mut places: Vec<usize> = Vec::new();
        let mut i: usize = 0;
        proof {
            reveal(Seq::filter);
            assert(all.take(0) =~= Seq::<int>::empty());
            assert(places@.map_values(|p: usize| p as int) =~= Seq::<int>::empty());
        }
        while i < self.entries.len()
            invariant
                i <= self.entries.len(),
                self.entries.len() == self@.len(),
                all == Seq::new(self@.len(), |i: int| i),
                pred == |i: int| 0 <= i < self@.len() && self@[i].1,
                places@.map_values(|p: usize| p as int) == all.take(i as int).filter(pred),
            decreases self.entries.len() - i,
        {
            proof {
                assert(all.take(i + 1) =~= all.take(i as int).push(i as int));
                all.take(i as int).lemma_filter_push(i as int, pred);
            }
            let ghost old_places = places@;
            if self.entries[i].1 {
                places.push(i);
                assert(places@.map_values(|p: usize| p as int) =~= old_places.map_values(
                    |p: usize| p as int,
                ).push(i as int));
            }
            i += 1;
        }
        assert(all.take(self@.len() as int) =~= all);
        places
    }
}

} // verus!
