//! What a user can do with a stored artifact: the card that presents it
//! and the reading of what the user picked.

use vstd::prelude::*;
use vstd::string::*;
use crate::object::{displayed_size, to_displayed_size, Object, ObjectView};
use crate::text::{
    chars_of, decimal_text, decimal_text_spec, lemma_parse_i32_of_signed_text, matches_at,
    parse_i32_range, parse_i32_spec, same_text, signed_decimal_text, signed_text_spec,
    strip_prefix_spec,
};

verus! {

/// Size limit, in bytes, that "compress" aims to get under.
pub const STANDARD_UPLOAD_LIMIT: u64 = 9_500_000;

/// Size limit, in bytes, that "compress50" aims to get under.
pub const EXTENDED_UPLOAD_LIMIT: u64 = 49_000_000;

/// The length of a day.
pub const SECONDS_PER_DAY: u64 = 86_400;

/// What a component identifier refers to.
#[derive(Clone, Copy, Debug, PartialEq, Eq, Structural)]
pub enum ComponentTarget {
    /// Not a component of an artifact card.
    Foreign,
    /// Marked as a card's component, but the number cannot be read.
    Invalid,
    /// The card of the artifact with this number.
    Object(i32),
}

/// What the user picked from the menu of a card.
#[derive(Clone, Copy, Debug, PartialEq, Eq, Structural)]
pub enum ObjectAction {
    /// Remove the artifact.
    Delete,
    /// Re-encode the artifact to at most `max_size` bytes.
    Compress { max_size: u64 },
    /// Attach the artifact to a message.
    Upload,
    /// Send the artifact to the user's XBackbone instance.
    XBackbone,
    /// Nothing this library knows.
    Unrecognized,
}

/// The identifier of the menu on the card of artifact `id`.
pub open spec fn component_id_spec(id: i32) -> Seq<char> {
    "Object:"@ + signed_text_spec(id as int)
}

/// What an identifier refers to.
pub open spec fn component_target_spec(custom_id: Seq<char>) -> ComponentTarget {
    match strip_prefix_spec(custom_id, "Object:"@) {
        None => ComponentTarget::Foreign,
        Some(number) => match parse_i32_spec(number) {
            None => ComponentTarget::Invalid,
            Some(id) => ComponentTarget::Object(id),
        },
    }
}

/// The action behind a menu value.
pub open spec fn chosen_action_spec(value: Seq<char>) -> ObjectAction {
    if value == "delete"@ {
        ObjectAction::Delete
    } else if value == "compress"@ {
        ObjectAction::Compress { max_size: STANDARD_UPLOAD_LIMIT }
    } else if value == "compress50"@ {
        ObjectAction::Compress { max_size: EXTENDED_UPLOAD_LIMIT }
    } else if value == "upload"@ {
        ObjectAction::Upload
    } else if value == "xbackbone"@ {
        ObjectAction::XBackbone
    } else {
        ObjectAction::Unrecognized
    }
}

/// Whole days from the given moment until `expiry_unix`, or `None` where
/// that moment is past the expiry or the expiry lies before the epoch.
pub open spec fn days_until_spec(expiry_unix: i64, now_seconds: u64, now_nanos: u32) -> Option<
    u64,
> {
    if expiry_unix < now_seconds || (expiry_unix == now_seconds && now_nanos > 0) {
        None
    } else if now_nanos > 0 {
        Some(((expiry_unix - now_seconds - 1) / SECONDS_PER_DAY as int) as u64)
    } else {
        Some(((expiry_unix - now_seconds) / SECONDS_PER_DAY as int) as u64)
    }
}

/// The menu of a card: label and value of each entry, in order.
pub open spec fn menu_spec() -> Seq<(Seq<char>, Seq<char>)> {
    seq![
        ("Upload to discord"@, "upload"@),
        ("Delete"@, "delete"@),
        ("Compress to discord size (10mb)"@, "compress"@),
        ("Compress to discord size (50mb nitro)"@, "compress50"@),
        ("Upload to XBackbone"@, "xbackbone"@),
        ("--"@, "--"@),
    ]
}

/// How an artifact is presented.
pub struct ObjectCard {
    pub title: String,
    /// The size, written for people.
    pub description: String,
    /// When the artifact expires, written for people.
    pub expires: String,
    /// The identifier of the action menu.
    pub menu_id: String,
    /// Label and value of each menu entry.
    pub menu: Vec<(String, String)>,
}

/// `ObjectCard` as a mathematical value.
pub struct ObjectCardView {
    pub title: Seq<char>,
    pub description: Seq<char>,
    pub expires: Seq<char>,
    pub menu_id: Seq<char>,
    pub menu: Seq<(Seq<char>, Seq<char>)>,
}

impl View for ObjectCard {
    type V = ObjectCardView;

    open spec fn view(&self) -> ObjectCardView {
        ObjectCardView {
            title: self.title@,
            description: self.description@,
            expires: self.expires@,
            menu_id: self.menu_id@,
            menu: Seq::new(self.menu@.len(), |i: int| (self.menu@[i].0@, self.menu@[i].1@)),
        }
    }
}

/// The card of `object`, given its size written out and the days it has left.
pub open spec fn card_spec(object: ObjectView, size_text: Seq<char>, days: u64) -> ObjectCardView {
    ObjectCardView {
        title: object.name,
        description: size_text,
        expires: "In "@ + decimal_text_spec(days as nat) + " days"@,
        menu_id: component_id_spec(object.id),
        menu: menu_spec(),
    }
}

/// The text `humansize::format_size` writes for `bytes` with its `DECIMAL`
/// options.
pub uninterp spec fn human_size(bytes: u64) -> Seq<char>;

/// Calls `humansize::format_size` with the `DECIMAL` options. The text is a
/// function of the byte count alone.
#[verifier::external_body]
fn format_size(bytes: u64) -> (r: String)
    ensures
        r@ == human_size(bytes),
{
    humansize::format_size(bytes, humansize::DECIMAL)
}

/// The card of `object` at the given moment, or `None` where `days_until`
/// has no answer.
pub open spec fn embed_object_spec(object: ObjectView, now_seconds: u64, now_nanos: u32) -> Option<
    ObjectCardView,
> {
    match days_until_spec(object.expiry_unix, now_seconds, now_nanos) {
        None => None,
        Some(days) => Some(card_spec(object, human_size(displayed_size(object.size)), days)),
    }
}

/// The identifier of the menu on the card of artifact `id`.
pub fn component_id(id: i32) -> (r: String)
    ensures
        r@ == component_id_spec(id),
{
    let number = signed_decimal_text(id as i64);
    "Object:".to_owned().concat(number.as_str())
}

/// Reads what a component identifier refers to.
pub fn component_target(custom_id: &str) -> (r: ComponentTarget)
    ensures
        r == component_target_spec(custom_id@),
{
    let chars = chars_of(custom_id);
    let prefix = chars_of("Object:");
    assert(chars@.subrange(0, chars@.len() as int) == chars@);
    if !matches_at(&chars, 0, chars.len(), &prefix) {
        return ComponentTarget::Foreign;
    }
    assert(chars@.subrange(prefix@.len() as int, chars@.len() as int) == chars@.skip(
        prefix@.len() as int,
    ));
    match parse_i32_range(&chars, prefix.len(), chars.len()) {
        None => ComponentTarget::Invalid,
        Some(id) => ComponentTarget::Object(id),
    }
}

/// Reads the action behind a menu value.
pub fn chosen_action(value: &str) -> (r: ObjectAction)
    ensures
        r == chosen_action_spec(value@),
{
    if same_text(value, "delete") {
        ObjectAction::Delete
    } else if same_text(value, "compress") {
        ObjectAction::Compress { max_size: STANDARD_UPLOAD_LIMIT }
    } else if same_text(value, "compress50") {
        ObjectAction::Compress { max_size: EXTENDED_UPLOAD_LIMIT }
    } else if same_text(value, "upload") {
        ObjectAction::Upload
    } else if same_text(value, "xbackbone") {
        ObjectAction::XBackbone
    } else {
        ObjectAction::Unrecognized
    }
}

/// Whether `user` may act on `object`: only its owner may.
pub fn may_act(object: &Object, user: i64) -> (r: bool)
    ensures
        r == (object.user == user),
{
    object.user == user
}

/// Whole days from the moment `now_seconds` and `now_nanos` after the
/// epoch until `expiry_unix`.
pub fn days_until(expiry_unix: i64, now_seconds: u64, now_nanos: u32) -> (r: Option<u64>)
    ensures
        r == days_until_spec(expiry_unix, now_seconds, now_nanos),
{
    if expiry_unix < 0 {
        return None;
    }
    let expiry: u64 = expiry_unix as u64;
    if expiry < now_seconds || (expiry == now_seconds && now_nanos > 0) {
        return None;
    }
    if now_nanos > 0 {
        Some((expiry - now_seconds - 1) / SECONDS_PER_DAY)
    } else {
        Some((expiry - now_seconds) / SECONDS_PER_DAY)
    }
}

fn push_entry(menu: &mut Vec<(String, String)>, label: &str, value: &str)
    ensures
        final(menu)@.len() == old(menu)@.len() + 1,
        forall|i: int| 0 <= i < old(menu)@.len() ==> final(menu)@[i] == old(menu)@[i],
        final(menu)@[old(menu)@.len() as int].0@ == label@,
        final(menu)@[old(menu)@.len() as int].1@ == value@,
{
    menu.push((label.to_owned(), value.to_owned()));
}

/// Builds the card of `object` from its size written out and the days it
/// has left.
pub fn card(object: &Object, size_text: String, days: u64) -> (r: ObjectCard)
    ensures
        r@ == card_spec(object@, size_text@, days),
{
    let mut menu: Vec<(String, String)> = Vec::new();
    push_entry(&mut menu, "Upload to discord", "upload");
    push_entry(&mut menu, "Delete", "delete");
    push_entry(&mut menu, "Compress to discord size (10mb)", "compress");
    push_entry(&mut menu, "Compress to discord size (50mb nitro)", "compress50");
    push_entry(&mut menu, "Upload to XBackbone", "xbackbone");
    push_entry(&mut menu, "--", "--");
    let number = decimal_text(days);
    let expires = "In ".to_owned().concat(number.as_str()).concat(" days");
    let r = ObjectCard {
        title: object.name.clone(),
        description: size_text,
        expires,
        menu_id: component_id(object.id),
        menu,
    };
    assert(r@.menu =~= menu_spec());
    r
}

/// Builds the card of `object` as it is to be shown at the given moment:
/// `now_seconds` and `now_nanos` since the epoch.
pub fn embed_object(object: &Object, now_seconds: u64, now_nanos: u32) -> (r: Option<ObjectCard>)
    ensures
        match r {
            Some(card) => embed_object_spec(object@, now_seconds, now_nanos) == Some(card@),
            None => embed_object_spec(object@, now_seconds, now_nanos) is None,
        },
{
    match days_until(object.expiry_unix, now_seconds, now_nanos) {
        None => None,
        Some(days) => {
            let bytes = to_displayed_size(object.size);
            Some(card(object, format_size(bytes), days))
        },
    }
}

/// The menu of a card leads back to the artifact the card was made for.
pub proof fn lemma_component_id_reads_back(id: i32)
    ensures
        component_target_spec(component_id_spec(id)) == ComponentTarget::Object(id),
{
    let prefix = "Object:"@;
    let number = signed_text_spec(id as int);
    let whole = component_id_spec(id);
    assert(whole.subrange(0, prefix.len() as int) == prefix);
    assert(whole.skip(prefix.len() as int) == number);
    lemma_parse_i32_of_signed_text(id);
}

/// Every entry of the menu but the last, the separator, names an action.
pub proof fn lemma_menu_names_actions()
    ensures
        menu_spec().len() == 6,
        chosen_action_spec(menu_spec()[0].1) == ObjectAction::Upload,
        chosen_action_spec(menu_spec()[1].1) == ObjectAction::Delete,
        chosen_action_spec(menu_spec()[2].1) == (ObjectAction::Compress {
            max_size: STANDARD_UPLOAD_LIMIT,
        }),
        chosen_action_spec(menu_spec()[3].1) == (ObjectAction::Compress {
            max_size: EXTENDED_UPLOAD_LIMIT,
        }),
        chosen_action_spec(menu_spec()[4].1) == ObjectAction::XBackbone,
        chosen_action_spec(menu_spec()[5].1) == ObjectAction::Unrecognized,
{
    reveal_strlit("delete");
    reveal_strlit("compress");
    reveal_strlit("compress50");
    reveal_strlit("upload");
    reveal_strlit("xbackbone");
    reveal_strlit("--");
    assert("delete"@.len() == 6);
    assert("compress"@.len() == 8);
    assert("compress50"@.len() == 10);
    assert("upload"@.len() == 6);
    assert("xbackbone"@.len() == 9);
    assert("--"@.len() == 2);
    assert("upload"@[0] != "delete"@[0]);
}

} // verus!
