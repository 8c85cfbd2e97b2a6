//! The records the pipeline passes around: stored artifacts and their owners.

use vstd::prelude::*;
use vstd::string::*;
use crate::text::{same_text, signed_decimal_text, signed_text_spec};

verus! {

/// A stored artifact: a file on durable storage with its bookkeeping.
#[derive(Debug)]
pub struct Object {
    pub id: i32,
    pub path: String,
    pub name: String,
    pub size: i64,
    pub expiry_unix: i64,
    pub user: i64,
}

/// An artifact that has not been stored yet.
#[derive(Debug)]
pub struct NewObject {
    pub path: String,
    pub name: String,
    pub size: i64,
    pub expiry_unix: i64,
    pub user: i64,
}

/// The owner of artifacts.
#[derive(Debug)]
pub struct User {
    pub snowflake: i64,
    pub name_cached: Option<String>,
}

/// The upload configuration a user has stored, as JSON text.
#[derive(Debug)]
pub struct SharexConfig {
    pub user_id: i64,
    pub json: String,
}

/// `Object` as a mathematical value.
pub struct ObjectView {
    pub id: i32,
    pub path: Seq<char>,
    pub name: Seq<char>,
    pub size: i64,
    pub expiry_unix: i64,
    pub user: i64,
}

/// `NewObject` as a mathematical value.
pub struct NewObjectView {
    pub path: Seq<char>,
    pub name: Seq<char>,
    pub size: i64,
    pub expiry_unix: i64,
    pub user: i64,
}

/// `User` as a mathematical value.
pub struct UserView {
    pub snowflake: i64,
    pub name_cached: Option<Seq<char>>,
}

impl View for User {
    type V = UserView;

    open spec fn view(&self) -> UserView {
        UserView {
            snowflake: self.snowflake,
            name_cached: match self.name_cached {
                Some(name) => Some(name@),
                None => None,
            },
        }
    }
}

impl View for Object {
    type V = ObjectView;

    open spec fn view(&self) -> ObjectView {
        ObjectView {
            id: self.id,
            path: self.path@,
            name: self.name@,
            size: self.size,
            expiry_unix: self.expiry_unix,
            user: self.user,
        }
    }
}

impl View for NewObject {
    type V = NewObjectView;

    open spec fn view(&self) -> NewObjectView {
        NewObjectView {
            path: self.path@,
            name: self.name@,
            size: self.size,
            expiry_unix: self.expiry_unix,
            user: self.user,
        }
    }
}

impl Clone for Object {
    fn clone(&self) -> (r: Self)
        ensures
            r == *self,
    {
        Object {
            id: self.id,
            path: self.path.clone(),
            name: self.name.clone(),
            size: self.size,
            expiry_unix: self.expiry_unix,
            user: self.user,
        }
    }
}

impl Clone for User {
    fn clone(&self) -> (r: Self)
        ensures
            r == *self,
    {
        let name_cached = match &self.name_cached {
            Some(name) => Some(name.clone()),
            None => None,
        };
        User { snowflake: self.snowflake, name_cached }
    }
}

/// How long a downloaded artifact is kept, in seconds: seven days.
pub const RETENTION_SECONDS: u64 = 604_800;

/// What has to be written so that the store agrees with what
/// `get_or_create` returns.
#[derive(Clone, Copy, Debug, PartialEq, Eq, Structural)]
pub enum UserChange {
    /// Nothing.
    Unchanged,
    /// The stored name is to be replaced by the current one.
    UpdateName,
    /// The returned user is to be inserted.
    Insert,
}

/// A byte count as the size field of a record: the same 64 bits, read as
/// a signed number.
pub open spec fn stored_size(size: u64) -> i64 {
    if size > i64::MAX {
        (size - 0x1_0000_0000_0000_0000) as i64
    } else {
        size as i64
    }
}

/// The size field of a record as a byte count: the same 64 bits, read as
/// an unsigned number.
pub open spec fn displayed_size(size: i64) -> u64 {
    if size < 0 {
        (size + 0x1_0000_0000_0000_0000) as u64
    } else {
        size as u64
    }
}

/// The suffix of a temporary file of the given extension.
pub open spec fn temp_suffix_spec(extension: Seq<char>) -> Seq<char> {
    "."@ + extension
}

/// The user a request acts as, and what to write: a stored user is
/// returned as stored, with its name to be brought up to date where it
/// differs; without one, a new user is returned, to be inserted.
pub open spec fn get_or_create_spec(
    user_snowflake: i64,
    username: Seq<char>,
    found: Option<UserView>,
) -> (UserView, UserChange) {
    match found {
        Some(user) => (
            user,
            if user.name_cached == Some(username) {
                UserChange::Unchanged
            } else {
                UserChange::UpdateName
            },
        ),
        None => (
            UserView { snowflake: user_snowflake, name_cached: Some(username) },
            UserChange::Insert,
        ),
    }
}

/// When an artifact downloaded at `now_seconds` expires, where that moment
/// fits the expiry field.
pub open spec fn retention_expiry_spec(now_seconds: u64) -> Option<i64> {
    if now_seconds + RETENTION_SECONDS <= i64::MAX {
        Some((now_seconds + RETENTION_SECONDS) as i64)
    } else {
        None
    }
}

/// One line per artifact, under a heading.
pub open spec fn listing_spec(objects: Seq<Object>) -> Seq<char>
    decreases objects.len(),
{
    if objects.len() == 0 {
        "You own the following objects: "@
    } else {
        listing_spec(objects.drop_last()) + "(["@ + signed_text_spec(objects.last().id as int)
            + "]-"@ + objects.last().name@ + ")\n"@
    }
}

/// Turns a byte count into the size field of a record.
pub fn to_stored_size(size: u64) -> (r: i64)
    ensures
        r == stored_size(size),
{
    if size > i64::MAX as u64 {
        (size as i128 - 0x1_0000_0000_0000_0000) as i64
    } else {
        size as i64
    }
}

/// Turns the size field of a record into a byte count.
pub fn to_displayed_size(size: i64) -> (r: u64)
    ensures
        r == displayed_size(size),
{
    if size < 0 {
        (size as i128 + 0x1_0000_0000_0000_0000) as u64
    } else {
        size as u64
    }
}

/// Sizes survive being stored.
pub proof fn lemma_size_round_trip(size: u64)
    ensures
        displayed_size(stored_size(size)) == size,
{
}

/// The suffix of a temporary file of the given extension.
pub fn temp_suffix(extension: &str) -> (r: String)
    ensures
        r@ == temp_suffix_spec(extension@),
{
    ".".to_owned().concat(extension)
}

/// When an artifact downloaded at `now_seconds` expires.
pub fn retention_expiry(now_seconds: u64) -> (r: Option<i64>)
    ensures
        r == retention_expiry_spec(now_seconds),
{
    if now_seconds <= i64::MAX as u64 - RETENTION_SECONDS {
        Some((now_seconds + RETENTION_SECONDS) as i64)
    } else {
        None
    }
}

impl NewObject {
    /// A record for the file at `path` with nothing else filled in.
    pub fn at_path(path: String) -> (r: NewObject)
        ensures
            r@ == (NewObjectView {
                path: path@,
                name: Seq::empty(),
                size: 0,
                expiry_unix: 0,
                user: 0,
            }),
    {
        NewObject { path, name: String::new(), size: 0, expiry_unix: 0, user: 0 }
    }

    /// The record of a file of `size` bytes that `user` downloaded at
    /// `now_seconds`, where its expiry fits the field.
    pub fn downloaded(path: String, name: String, size: u64, now_seconds: u64, user: i64) -> (r:
        Option<NewObject>)
        ensures
            match r {
                Some(object) => retention_expiry_spec(now_seconds) is Some && object@ == (
                NewObjectView {
                    path: path@,
                    name: name@,
                    size: stored_size(size),
                    expiry_unix: retention_expiry_spec(now_seconds)->0,
                    user,
                }),
                None => retention_expiry_spec(now_seconds) is None,
            },
    {
        match retention_expiry(now_seconds) {
            None => None,
            Some(expiry_unix) => Some(
                NewObject { path, name, size: to_stored_size(size), expiry_unix, user },
            ),
        }
    }
}

impl User {
    /// Decides who a request acts as, given what the store holds for
    /// `user_snowflake`.
    pub fn get_or_create(user_snowflake: i64, username: &str, found: Option<User>) -> (r: (
        User,
        UserChange,
    ))
        ensures
            (r.0@, r.1) == get_or_create_spec(
                user_snowflake,
                username@,
                match found {
                    Some(user) => Some(user@),
                    None => None,
                },
            ),
    {
        match found {
            Some(user) => {
                let same = match &user.name_cached {
                    Some(name) => same_text(name.as_str(), username),
                    None => false,
                };
                let change = if same {
                    UserChange::Unchanged
                } else {
                    UserChange::UpdateName
                };
                (user, change)
            },
            None => (
                User { snowflake: user_snowflake, name_cached: Some(username.to_owned()) },
                UserChange::Insert,
            ),
        }
    }
}

/// Lists artifacts, one per line, under a heading.
pub fn listing(objects: &Vec<Object>) -> (r: String)
    ensures
        r@ == listing_spec(objects@),
{
    let mut r: String = "You own the following objects: ".to_owned();
    let mut i: usize = 0;
    assert(objects@.take(0) == Seq::<Object>::empty());
    while i < objects.len()
        invariant
            i <= objects.len(),
            r@ == listing_spec(objects@.take(i as int)),
        decreases objects.len() - i,
    {
        let ghost longer = objects@.take(i as int + 1);
        assert(longer.drop_last() == objects@.take(i as int));
        assert(longer.last() == objects@[i as int]);
        let number = signed_decimal_text(objects[i].id as i64);
        r.append("([");
        r.append(number.as_str());
        r.append("]-");
        r.append(objects[i].name.as_str());
        r.append(")\n");
        i += 1;
    }
    assert(objects@.take(objects@.len() as int) == objects@);
    r
}

} // verus!
