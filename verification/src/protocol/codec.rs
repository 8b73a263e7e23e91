//! The records as JSON objects under the short keys of the wire.
//!
//! A record is written as an object that holds every field, an absent
//! optional one as `null`. It is read from any object that holds its
//! required fields; members under other keys are passed over, and an
//! optional field may be missing or `null`.

use crate::client::builder::{Request, RequestView};
use crate::named::{lemma_position_at, member};
use crate::protocol::json::{
    find, items_view, lemma_list_view, lemma_object_view, members_view, Json, JsonView, Member,
    Members,
};
use crate::protocol::{
    error_view, Error, ErrorView, IncomingRequest, IncomingRequestView, IncomingResponse,
    IncomingResponseView, OutgoingResponse, OutgoingResponseView,
};
use vstd::prelude::*;
use vstd::string::StringExecFns;

verus! {

/// The key of the version.
pub const VER: &'static str = "ver";

/// The key of the reference.
pub const REF: &'static str = "ref";

/// The key of the command.
pub const CMD: &'static str = "cmd";

/// The key of the expiration.
pub const EXP: &'static str = "exp";

/// The key of the data.
pub const DAT: &'static str = "dat";

/// The key of the tags.
pub const TAG: &'static str = "tag";

/// The key of the destinations of a request, or the destination of a response.
pub const DST: &'static str = "dst";

/// The key of the reply queue.
pub const RET: &'static str = "ret";

/// The key of the schema.
pub const SHM: &'static str = "shm";

/// The key of the timestamp.
pub const NOW: &'static str = "now";

/// The key of the source.
pub const SRC: &'static str = "src";

/// The key of the failure.
pub const ERR: &'static str = "err";

/// The key of the code of a failure.
pub const CODE: &'static str = "code";

/// The key of the message of a failure.
pub const MESSAGE: &'static str = "message";

/// Why a JSON value is not a record.
#[derive(Clone, Copy, Debug)]
pub enum DecodeError {
    /// The value is not an object.
    NotAnObject,
    /// The object has no member under the key of this required field.
    Missing(&'static str),
    /// The member under the key of this field is not of the field's type.
    Invalid(&'static str),
}

/// What a [`DecodeError`] holds.
pub enum DecodeErrorView {
    NotAnObject,
    Missing(Seq<char>),
    Invalid(Seq<char>),
}

impl View for DecodeError {
    type V = DecodeErrorView;

    open spec fn view(&self) -> DecodeErrorView {
        match self {
            DecodeError::NotAnObject => DecodeErrorView::NotAnObject,
            DecodeError::Missing(field) => DecodeErrorView::Missing(field@),
            DecodeError::Invalid(field) => DecodeErrorView::Invalid(field@),
        }
    }
}

impl DecodeErrorView {
    /// The field that is missing or of another type, if the value is an
    /// object.
    pub open spec fn field(self) -> Option<Seq<char>> {
        match self {
            DecodeErrorView::NotAnObject => None,
            DecodeErrorView::Missing(field) => Some(field),
            DecodeErrorView::Invalid(field) => Some(field),
        }
    }

    /// The error in words.
    pub open spec fn text(self) -> Seq<char> {
        match self {
            DecodeErrorView::NotAnObject => "expected an object"@,
            DecodeErrorView::Missing(field) => "missing field "@ + field,
            DecodeErrorView::Invalid(field) => "invalid field "@ + field,
        }
    }
}

impl DecodeError {
    /// The field that is missing or of another type, if the value is an
    /// object.
    pub fn field(&self) -> (field: Option<&'static str>)
        ensures
            field.deep_view() == self@.field(),
    {
        match self {
            DecodeError::NotAnObject => None,
            DecodeError::Missing(field) => Some(*field),
            DecodeError::Invalid(field) => Some(*field),
        }
    }

    /// The error in words.
    pub fn to_string(&self) -> (text: String)
        ensures
            text@ == self@.text(),
    {
        match self {
            DecodeError::NotAnObject => "expected an object".to_owned(),
            DecodeError::Missing(field) => "missing field ".to_owned().concat(field),
            DecodeError::Invalid(field) => "invalid field ".to_owned().concat(field),
        }
    }
}

/// Reading a field: its value, or why there is none.
pub type Read<T> = Result<T, DecodeErrorView>;

/// The required text under `key`.
pub open spec fn text_of(members: Members, key: Seq<char>) -> Read<Seq<char>> {
    match member(members, key) {
        None => Err(DecodeErrorView::Missing(key)),
        Some(JsonView::Text(text)) => Ok(text),
        Some(_) => Err(DecodeErrorView::Invalid(key)),
    }
}

/// The optional text under `key`: none if the member is missing or `null`.
pub open spec fn optional_text_of(members: Members, key: Seq<char>) -> Read<Option<Seq<char>>> {
    match member(members, key) {
        None => Ok(None),
        Some(JsonView::Null) => Ok(None),
        Some(JsonView::Text(text)) => Ok(Some(text)),
        Some(_) => Err(DecodeErrorView::Invalid(key)),
    }
}

/// The required number under `key`, which is at most `max`.
pub open spec fn number_of(members: Members, key: Seq<char>, max: u64) -> Read<u64> {
    match member(members, key) {
        None => Err(DecodeErrorView::Missing(key)),
        Some(JsonView::Number(n)) => if n <= max {
            Ok(n)
        } else {
            Err(DecodeErrorView::Invalid(key))
        },
        Some(_) => Err(DecodeErrorView::Invalid(key)),
    }
}

/// Whether `item` is the id of a twin.
pub open spec fn is_twin(item: JsonView) -> bool {
    item matches JsonView::Number(n) && n <= u32::MAX
}

/// Whether every item is the id of a twin.
pub open spec fn all_twins(items: Seq<JsonView>) -> bool {
    forall|i: int| 0 <= i < items.len() ==> is_twin(#[trigger] items[i])
}

/// The ids that the items are.
pub open spec fn twins(items: Seq<JsonView>) -> Seq<u32> {
    Seq::new(items.len(), |i: int| items[i]->Number_0 as u32)
}

/// The required list of twin ids under `key`.
pub open spec fn twins_of(members: Members, key: Seq<char>) -> Read<Seq<u32>> {
    match member(members, key) {
        None => Err(DecodeErrorView::Missing(key)),
        Some(JsonView::List(items)) => if all_twins(items) {
            Ok(twins(items))
        } else {
            Err(DecodeErrorView::Invalid(key))
        },
        Some(_) => Err(DecodeErrorView::Invalid(key)),
    }
}

/// The optional failure under `key`: an object with a code and a message;
/// none if the member is missing or `null`.
pub open spec fn error_of(members: Members, key: Seq<char>) -> Read<Option<ErrorView>> {
    match member(members, key) {
        None => Ok(None),
        Some(JsonView::Null) => Ok(None),
        Some(JsonView::Object(inner)) => match (
            number_of(inner, CODE@, u32::MAX as u64),
            text_of(inner, MESSAGE@),
        ) {
            (Ok(code), Ok(message)) => Ok(Some(ErrorView { code: code as u32, message })),
            _ => Err(DecodeErrorView::Invalid(key)),
        },
        Some(_) => Err(DecodeErrorView::Invalid(key)),
    }
}

/// A text as JSON.
pub open spec fn text_json(text: Seq<char>) -> JsonView {
    JsonView::Text(text)
}

/// An optional text as JSON: `null` if there is none.
pub open spec fn optional_text_json(text: Option<Seq<char>>) -> JsonView {
    match text {
        Some(text) => JsonView::Text(text),
        None => JsonView::Null,
    }
}

/// Twin ids as JSON.
pub open spec fn twins_json(ids: Seq<u32>) -> JsonView {
    JsonView::List(Seq::new(ids.len(), |i: int| JsonView::Number(ids[i] as u64)))
}

/// An optional failure as JSON: `null` if there is none.
pub open spec fn error_json(error: Option<ErrorView>) -> JsonView {
    match error {
        Some(error) => JsonView::Object(
            seq![
                (CODE@, JsonView::Number(error.code as u64)),
                (MESSAGE@, JsonView::Text(error.message)),
            ],
        ),
        None => JsonView::Null,
    }
}

/// No two keys of the wire are the same.
pub proof fn lemma_keys_differ()
    ensures
        VER@ != REF@ && VER@ != CMD@ && VER@ != EXP@ && VER@ != DAT@ && VER@ != TAG@ && VER@
            != DST@ && VER@ != RET@ && VER@ != SHM@ && VER@ != NOW@ && VER@ != SRC@ && VER@
            != ERR@,
        REF@ != CMD@ && REF@ != EXP@ && REF@ != DAT@ && REF@ != TAG@ && REF@ != DST@ && REF@
            != RET@ && REF@ != SHM@ && REF@ != NOW@ && REF@ != SRC@ && REF@ != ERR@,
        CMD@ != EXP@ && CMD@ != DAT@ && CMD@ != TAG@ && CMD@ != DST@ && CMD@ != RET@ && CMD@
            != SHM@ && CMD@ != NOW@ && CMD@ != SRC@ && CMD@ != ERR@,
        EXP@ != DAT@ && EXP@ != TAG@ && EXP@ != DST@ && EXP@ != RET@ && EXP@ != SHM@ && EXP@
            != NOW@ && EXP@ != SRC@ && EXP@ != ERR@,
        DAT@ != TAG@ && DAT@ != DST@ && DAT@ != RET@ && DAT@ != SHM@ && DAT@ != NOW@ && DAT@
            != SRC@ && DAT@ != ERR@,
        TAG@ != DST@ && TAG@ != RET@ && TAG@ != SHM@ && TAG@ != NOW@ && TAG@ != SRC@ && TAG@
            != ERR@,
        DST@ != RET@ && DST@ != SHM@ && DST@ != NOW@ && DST@ != SRC@ && DST@ != ERR@,
        RET@ != SHM@ && RET@ != NOW@ && RET@ != SRC@ && RET@ != ERR@,
        SHM@ != NOW@ && SHM@ != SRC@ && SHM@ != ERR@,
        NOW@ != SRC@ && NOW@ != ERR@,
        SRC@ != ERR@,
        CODE@ != MESSAGE@,
{
    reveal_strlit("ver");
    reveal_strlit("ref");
    reveal_strlit("cmd");
    reveal_strlit("exp");
    reveal_strlit("dat");
    reveal_strlit("tag");
    reveal_strlit("dst");
    reveal_strlit("ret");
    reveal_strlit("shm");
    reveal_strlit("now");
    reveal_strlit("src");
    reveal_strlit("err");
    reveal_strlit("code");
    reveal_strlit("message");
    let differ = |a: Seq<char>, b: Seq<char>|
        a.len() != b.len() || a[0] != b[0] || a[1] != b[1] || a[2] != b[2];
    assert(differ(VER@, REF@) && differ(VER@, CMD@) && differ(VER@, EXP@) && differ(VER@, DAT@));
    assert(differ(VER@, TAG@) && differ(VER@, DST@) && differ(VER@, RET@) && differ(VER@, SHM@));
    assert(differ(VER@, NOW@) && differ(VER@, SRC@) && differ(VER@, ERR@));
    assert(differ(REF@, CMD@) && differ(REF@, EXP@) && differ(REF@, DAT@) && differ(REF@, TAG@));
    assert(differ(REF@, DST@) && differ(REF@, RET@) && differ(REF@, SHM@) && differ(REF@, NOW@));
    assert(differ(REF@, SRC@) && differ(REF@, ERR@));
    assert(differ(CMD@, EXP@) && differ(CMD@, DAT@) && differ(CMD@, TAG@) && differ(CMD@, DST@));
    assert(differ(CMD@, RET@) && differ(CMD@, SHM@) && differ(CMD@, NOW@) && differ(CMD@, SRC@));
    assert(differ(CMD@, ERR@));
    assert(differ(EXP@, DAT@) && differ(EXP@, TAG@) && differ(EXP@, DST@) && differ(EXP@, RET@));
    assert(differ(EXP@, SHM@) && differ(EXP@, NOW@) && differ(EXP@, SRC@) && differ(EXP@, ERR@));
    assert(differ(DAT@, TAG@) && differ(DAT@, DST@) && differ(DAT@, RET@) && differ(DAT@, SHM@));
    assert(differ(DAT@, NOW@) && differ(DAT@, SRC@) && differ(DAT@, ERR@));
    assert(differ(TAG@, DST@) && differ(TAG@, RET@) && differ(TAG@, SHM@) && differ(TAG@, NOW@));
    assert(differ(TAG@, SRC@) && differ(TAG@, ERR@));
    assert(differ(DST@, RET@) && differ(DST@, SHM@) && differ(DST@, NOW@) && differ(DST@, SRC@));
    assert(differ(DST@, ERR@));
    assert(differ(RET@, SHM@) && differ(RET@, NOW@) && differ(RET@, SRC@) && differ(RET@, ERR@));
    assert(differ(SHM@, NOW@) && differ(SHM@, SRC@) && differ(SHM@, ERR@));
    assert(differ(NOW@, SRC@) && differ(NOW@, ERR@) && differ(SRC@, ERR@));
    assert(differ(CODE@, MESSAGE@));
}


/// A text as JSON.
fn write_text(text: &String) -> (json: Json)
    ensures
        json@ == text_json(text@),
{
    Json::Text(text.clone())
}

/// An optional text as JSON.
fn write_optional_text(text: &Option<String>) -> (json: Json)
    ensures
        json@ == optional_text_json(text.deep_view()),
{
    match text {
        Some(text) => Json::Text(text.clone()),
        None => Json::Null,
    }
}

/// Twin ids as JSON.
fn write_twins(ids: &Vec<u32>) -> (json: Json)
    ensures
        json@ == twins_json(ids@),
{
    let mut items: Vec<Json> = Vec::new();
    let mut i: usize = 0;
    while i < ids.len()
        invariant
            i <= ids.len(),
            items.len() == i,
            forall|k: int| 0 <= k < i ==> (#[trigger] items[k])@ == JsonView::Number(ids[k] as u64),
        decreases ids.len() - i,
    {
        items.push(Json::Number(ids[i] as u64));
        i += 1;
    }
    proof {
        lemma_list_view(items);
        assert(items_view(items@) =~= Seq::new(
            ids@.len(),
            |i: int| JsonView::Number(ids@[i] as u64),
        ));
    }
    Json::List(items)
}

/// A member of an object.
fn entry(key: &'static str, value: Json) -> (entry: Member)
    ensures
        entry.key@ == key@,
        entry.value == value,
{
    Member { key: key.to_owned(), value }
}

/// An optional failure as JSON.
fn write_error(error: &Option<Error>) -> (json: Json)
    ensures
        json@ == error_json(error_view(*error)),
{
    match error {
        Some(error) => {
            let mut members: Vec<Member> = Vec::new();
            members.push(entry(CODE, Json::Number(error.code as u64)));
            members.push(entry(MESSAGE, write_text(&error.message)));
            proof {
                lemma_object_view(members);
                assert(members_view(members@) =~= seq![
                    (CODE@, JsonView::Number(error.code as u64)),
                    (MESSAGE@, JsonView::Text(error.message@)),
                ]);
            }
            Json::Object(members)
        },
        None => Json::Null,
    }
}

/// Reads the required text under `key`.
fn read_text(members: &Vec<Member>, key: &'static str) -> (read: Result<String, DecodeError>)
    ensures
        match text_of(members_view(members@), key@) {
            Ok(text) => read matches Ok(t) && t@ == text,
            Err(error) => read matches Err(e) && e@ == error,
        },
{
    match find(members, key) {
        None => Err(DecodeError::Missing(key)),
        Some(Json::Text(text)) => Ok(text.clone()),
        Some(_) => Err(DecodeError::Invalid(key)),
    }
}

/// Reads the optional text under `key`.
fn read_optional_text(members: &Vec<Member>, key: &'static str) -> (read: Result<
    Option<String>,
    DecodeError,
>)
    ensures
        match optional_text_of(members_view(members@), key@) {
            Ok(text) => read matches Ok(t) && t.deep_view() == text,
            Err(error) => read matches Err(e) && e@ == error,
        },
{
    match find(members, key) {
        None => Ok(None),
        Some(Json::Null) => Ok(None),
        Some(Json::Text(text)) => Ok(Some(text.clone())),
        Some(_) => Err(DecodeError::Invalid(key)),
    }
}

/// Reads the required number under `key`, which is at most `max`.
fn read_number(members: &Vec<Member>, key: &'static str, max: u64) -> (read: Result<
    u64,
    DecodeError,
>)
    ensures
        match number_of(members_view(members@), key@, max) {
            Ok(n) => read matches Ok(r) && r == n,
            Err(error) => read matches Err(e) && e@ == error,
        },
{
    match find(members, key) {
        None => Err(DecodeError::Missing(key)),
        Some(Json::Number(n)) => {
            if *n <= max {
                Ok(*n)
            } else {
                Err(DecodeError::Invalid(key))
            }
        },
        Some(_) => Err(DecodeError::Invalid(key)),
    }
}

/// Reads the required list of twin ids under `key`.
fn read_twins(members: &Vec<Member>, key: &'static str) -> (read: Result<Vec<u32>, DecodeError>)
    ensures
        match twins_of(members_view(members@), key@) {
            Ok(ids) => read matches Ok(r) && r@ == ids,
            Err(error) => read matches Err(e) && e@ == error,
        },
{
    match find(members, key) {
        None => Err(DecodeError::Missing(key)),
        Some(Json::List(items)) => {
            proof {
                lemma_list_view(*items);
            }
            let ghost all = items_view(items@);
            let mut ids: Vec<u32> = Vec::new();
            let mut i: usize = 0;
            while i < items.len()
                invariant
                    i <= items.len(),
                    all == items_view(items@),
                    member(members_view(members@), key@) == Some(JsonView::List(all)),
                    ids.len() == i,
                    forall|k: int| 0 <= k < i ==> is_twin(#[trigger] all[k]),
                    forall|k: int| 0 <= k < i ==> ids[k] == all[k]->Number_0 as u32,
                decreases items.len() - i,
            {
                match &items[i] {
                    Json::Number(n) => {
                        if *n <= u32::MAX as u64 {
                            ids.push(*n as u32);
                        } else {
                            assert(!is_twin(all[i as int]));
                            return Err(DecodeError::Invalid(key));
                        }
                    },
                    _ => {
                        assert(!is_twin(all[i as int]));
                        return Err(DecodeError::Invalid(key));
                    },
                }
                i += 1;
            }
            assert(ids@ =~= twins(all));
            Ok(ids)
        },
        Some(_) => Err(DecodeError::Invalid(key)),
    }
}

/// Reads the optional failure under `key`.
fn read_error(members: &Vec<Member>, key: &'static str) -> (read: Result<
    Option<Error>,
    DecodeError,
>)
    ensures
        match error_of(members_view(members@), key@) {
            Ok(error) => read matches Ok(r) && error_view(r) == error,
            Err(error) => read matches Err(e) && e@ == error,
        },
{
    match find(members, key) {
        None => Ok(None),
        Some(Json::Null) => Ok(None),
        Some(Json::Object(inner)) => {
            proof {
                lemma_object_view(*inner);
            }
            match (read_number(inner, CODE, u32::MAX as u64), read_text(inner, MESSAGE)) {
                (Ok(code), Ok(message)) => Ok(Some(Error { code: code as u32, message })),
                _ => Err(DecodeError::Invalid(key)),
            }
        },
        Some(_) => Err(DecodeError::Invalid(key)),
    }
}

/// What is read of a record, as `T` holds it.
pub open spec fn read_view<T: View>(read: Result<T, DecodeError>) -> Result<T::V, DecodeErrorView> {
    match read {
        Ok(record) => Ok(record@),
        Err(error) => Err(error@),
    }
}

impl RequestView {
    /// The request as a client sends it, as a JSON object: every field under
    /// its key.
    pub open spec fn json(self) -> JsonView {
        JsonView::Object(
            seq![
                (VER@, JsonView::Number(self.version as u64)),
                (REF@, optional_text_json(self.reference)),
                (CMD@, text_json(self.command)),
                (EXP@, JsonView::Number(self.expiration)),
                (DAT@, text_json(self.data)),
                (TAG@, optional_text_json(self.tags)),
                (DST@, twins_json(self.destinations)),
                (RET@, text_json(self.reply_to)),
                (SHM@, optional_text_json(self.schema)),
                (NOW@, JsonView::Number(self.timestamp)),
            ],
        )
    }

    /// What is read of `json` as a request as a client sends it: the record,
    /// or the first reason, in the order of the fields, why it is none.
    pub open spec fn read(json: JsonView) -> Read<RequestView> {
        match json {
            JsonView::Object(members) => {
                let version = number_of(members, VER@, usize::MAX as u64);
                let reference = optional_text_of(members, REF@);
                let command = text_of(members, CMD@);
                let expiration = number_of(members, EXP@, u64::MAX);
                let data = text_of(members, DAT@);
                let tags = optional_text_of(members, TAG@);
                let destinations = twins_of(members, DST@);
                let reply_to = text_of(members, RET@);
                let schema = optional_text_of(members, SHM@);
                let timestamp = number_of(members, NOW@, u64::MAX);
                if version is Err {
                    Err(version->Err_0)
                } else if reference is Err {
                    Err(reference->Err_0)
                } else if command is Err {
                    Err(command->Err_0)
                } else if expiration is Err {
                    Err(expiration->Err_0)
                } else if data is Err {
                    Err(data->Err_0)
                } else if tags is Err {
                    Err(tags->Err_0)
                } else if destinations is Err {
                    Err(destinations->Err_0)
                } else if reply_to is Err {
                    Err(reply_to->Err_0)
                } else if schema is Err {
                    Err(schema->Err_0)
                } else if timestamp is Err {
                    Err(timestamp->Err_0)
                } else {
                    Ok(
                        RequestView {
                            version: version->Ok_0 as usize,
                            reference: reference->Ok_0,
                            command: command->Ok_0,
                            expiration: expiration->Ok_0,
                            data: data->Ok_0,
                            tags: tags->Ok_0,
                            destinations: destinations->Ok_0,
                            reply_to: reply_to->Ok_0,
                            schema: schema->Ok_0,
                            timestamp: timestamp->Ok_0,
                        },
                    )
                }
            },
            _ => Err(DecodeErrorView::NotAnObject),
        }
    }

    /// A record that is written and read again is as it was.
    pub proof fn lemma_round_trip(self)
        ensures
            Self::read(self.json()) is Ok,
            Self::read(self.json())->Ok_0 == self,
    {
        lemma_keys_differ();
        let members = self.json()->Object_0;
        lemma_position_at(members, VER@, 0);
        lemma_position_at(members, REF@, 1);
        lemma_position_at(members, CMD@, 2);
        lemma_position_at(members, EXP@, 3);
        lemma_position_at(members, DAT@, 4);
        lemma_position_at(members, TAG@, 5);
        lemma_position_at(members, DST@, 6);
        lemma_position_at(members, RET@, 7);
        lemma_position_at(members, SHM@, 8);
        lemma_position_at(members, NOW@, 9);
        let items = twins_json(self.destinations)->List_0;
        assert(all_twins(items));
        assert(twins(items) =~= self.destinations);
    }
}

impl Request {
    /// Writes the record as a JSON object: every field under its key, an
    /// absent one as `null`.
    pub fn to_json(&self) -> (json: Json)
        ensures
            json@ == self@.json(),
    {
        let mut members: Vec<Member> = Vec::new();
        members.push(entry(VER, Json::Number(self.version as u64)));
        members.push(entry(REF, write_optional_text(&self.reference)));
        members.push(entry(CMD, write_text(&self.command)));
        members.push(entry(EXP, Json::Number(self.expiration)));
        members.push(entry(DAT, write_text(&self.data)));
        members.push(entry(TAG, write_optional_text(&self.tags)));
        members.push(entry(DST, write_twins(&self.destinations)));
        members.push(entry(RET, write_text(&self.reply_to)));
        members.push(entry(SHM, write_optional_text(&self.schema)));
        members.push(entry(NOW, Json::Number(self.timestamp)));
        proof {
            lemma_object_view(members);
            assert(members_view(members@) =~= self@.json()->Object_0);
        }
        Json::Object(members)
    }

    /// Reads the record from a JSON object. An optional field may be
    /// missing or `null`; members under other keys are passed over. The
    /// error names the first field, in the order of the fields, that is
    /// missing or of another type.
    pub fn from_json(json: &Json) -> (read: Result<Self, DecodeError>)
        ensures
            read_view(read) == RequestView::read(json@),
    {
        let members = match json {
            Json::Object(members) => members,
            _ => {
                return Err(DecodeError::NotAnObject);
            },
        };
        proof {
            lemma_object_view(*members);
        }
        let version = read_number(members, VER, usize::MAX as u64)?;
        let reference = read_optional_text(members, REF)?;
        let command = read_text(members, CMD)?;
        let expiration = read_number(members, EXP, u64::MAX)?;
        let data = read_text(members, DAT)?;
        let tags = read_optional_text(members, TAG)?;
        let destinations = read_twins(members, DST)?;
        let reply_to = read_text(members, RET)?;
        let schema = read_optional_text(members, SHM)?;
        let timestamp = read_number(members, NOW, u64::MAX)?;
        Ok(
            Request {
                version: version as usize,
                reference,
                command,
                expiration,
                data,
                tags,
                destinations,
                reply_to,
                schema,
                timestamp,
            },
        )
    }
}

impl IncomingRequestView {
    /// The request as a server receives it, as a JSON object: every field under
    /// its key.
    pub open spec fn json(self) -> JsonView {
        JsonView::Object(
            seq![
                (VER@, JsonView::Number(self.version as u64)),
                (REF@, optional_text_json(self.reference)),
                (SRC@, text_json(self.source)),
                (CMD@, text_json(self.command)),
                (EXP@, JsonView::Number(self.expiration)),
                (DAT@, text_json(self.data)),
                (TAG@, optional_text_json(self.tags)),
                (RET@, text_json(self.reply_to)),
                (SHM@, optional_text_json(self.schema)),
                (NOW@, JsonView::Number(self.timestamp)),
            ],
        )
    }

    /// What is read of `json` as a request as a server receives it: the record,
    /// or the first reason, in the order of the fields, why it is none.
    pub open spec fn read(json: JsonView) -> Read<IncomingRequestView> {
        match json {
            JsonView::Object(members) => {
                let version = number_of(members, VER@, usize::MAX as u64);
                let reference = optional_text_of(members, REF@);
                let source = text_of(members, SRC@);
                let command = text_of(members, CMD@);
                let expiration = number_of(members, EXP@, u64::MAX);
                let data = text_of(members, DAT@);
                let tags = optional_text_of(members, TAG@);
                let reply_to = text_of(members, RET@);
                let schema = optional_text_of(members, SHM@);
                let timestamp = number_of(members, NOW@, u64::MAX);
                if version is Err {
                    Err(version->Err_0)
                } else if reference is Err {
                    Err(reference->Err_0)
                } else if source is Err {
                    Err(source->Err_0)
                } else if command is Err {
                    Err(command->Err_0)
                } else if expiration is Err {
                    Err(expiration->Err_0)
                } else if data is Err {
                    Err(data->Err_0)
                } else if tags is Err {
                    Err(tags->Err_0)
                } else if reply_to is Err {
                    Err(reply_to->Err_0)
                } else if schema is Err {
                    Err(schema->Err_0)
                } else if timestamp is Err {
                    Err(timestamp->Err_0)
                } else {
                    Ok(
                        IncomingRequestView {
                            version: version->Ok_0 as usize,
                            reference: reference->Ok_0,
                            source: source->Ok_0,
                            command: command->Ok_0,
                            expiration: expiration->Ok_0,
                            data: data->Ok_0,
                            tags: tags->Ok_0,
                            reply_to: reply_to->Ok_0,
                            schema: schema->Ok_0,
                            timestamp: timestamp->Ok_0,
                        },
                    )
                }
            },
            _ => Err(DecodeErrorView::NotAnObject),
        }
    }

    /// A record that is written and read again is as it was.
    pub proof fn lemma_round_trip(self)
        ensures
            Self::read(self.json()) is Ok,
            Self::read(self.json())->Ok_0 == self,
    {
        lemma_keys_differ();
        let members = self.json()->Object_0;
        lemma_position_at(members, VER@, 0);
        lemma_position_at(members, REF@, 1);
        lemma_position_at(members, SRC@, 2);
        lemma_position_at(members, CMD@, 3);
        lemma_position_at(members, EXP@, 4);
        lemma_position_at(members, DAT@, 5);
        lemma_position_at(members, TAG@, 6);
        lemma_position_at(members, RET@, 7);
        lemma_position_at(members, SHM@, 8);
        lemma_position_at(members, NOW@, 9);
    }
}

impl IncomingRequest {
    /// Writes the record as a JSON object: every field under its key, an
    /// absent one as `null`.
    pub fn to_json(&self) -> (json: Json)
        ensures
            json@ == self@.json(),
    {
        let mut members: Vec<Member> = Vec::new();
        members.push(entry(VER, Json::Number(self.version as u64)));
        members.push(entry(REF, write_optional_text(&self.reference)));
        members.push(entry(SRC, write_text(&self.source)));
        members.push(entry(CMD, write_text(&self.command)));
        members.push(entry(EXP, Json::Number(self.expiration)));
        members.push(entry(DAT, write_text(&self.data)));
        members.push(entry(TAG, write_optional_text(&self.tags)));
        members.push(entry(RET, write_text(&self.reply_to)));
        members.push(entry(SHM, write_optional_text(&self.schema)));
        members.push(entry(NOW, Json::Number(self.timestamp)));
        proof {
            lemma_object_view(members);
            assert(members_view(members@) =~= self@.json()->Object_0);
        }
        Json::Object(members)
    }

    /// Reads the record from a JSON object. An optional field may be
    /// missing or `null`; members under other keys are passed over. The
    /// error names the first field, in the order of the fields, that is
    /// missing or of another type.
    pub fn from_json(json: &Json) -> (read: Result<Self, DecodeError>)
        ensures
            read_view(read) == IncomingRequestView::read(json@),
    {
        let members = match json {
            Json::Object(members) => members,
            _ => {
                return Err(DecodeError::NotAnObject);
            },
        };
        proof {
            lemma_object_view(*members);
        }
        let version = read_number(members, VER, usize::MAX as u64)?;
        let reference = read_optional_text(members, REF)?;
        let source = read_text(members, SRC)?;
        let command = read_text(members, CMD)?;
        let expiration = read_number(members, EXP, u64::MAX)?;
        let data = read_text(members, DAT)?;
        let tags = read_optional_text(members, TAG)?;
        let reply_to = read_text(members, RET)?;
        let schema = read_optional_text(members, SHM)?;
        let timestamp = read_number(members, NOW, u64::MAX)?;
        Ok(
            IncomingRequest {
                version: version as usize,
                reference,
                source,
                command,
                expiration,
                data,
                tags,
                reply_to,
                schema,
                timestamp,
            },
        )
    }
}

impl OutgoingResponseView {
    /// The response as a server sends it, as a JSON object: every field under
    /// its key.
    pub open spec fn json(self) -> JsonView {
        JsonView::Object(
            seq![
                (VER@, JsonView::Number(self.version as u64)),
                (REF@, optional_text_json(self.reference)),
                (DAT@, text_json(self.data)),
                (DST@, text_json(self.destination)),
                (SHM@, optional_text_json(self.schema)),
                (NOW@, JsonView::Number(self.timestamp)),
                (ERR@, error_json(self.error)),
            ],
        )
    }

    /// What is read of `json` as a response as a server sends it: the record,
    /// or the first reason, in the order of the fields, why it is none.
    pub open spec fn read(json: JsonView) -> Read<OutgoingResponseView> {
        match json {
            JsonView::Object(members) => {
                let version = number_of(members, VER@, usize::MAX as u64);
                let reference = optional_text_of(members, REF@);
                let data = text_of(members, DAT@);
                let destination = text_of(members, DST@);
                let schema = optional_text_of(members, SHM@);
                let timestamp = number_of(members, NOW@, u64::MAX);
                let error = error_of(members, ERR@);
                if version is Err {
                    Err(version->Err_0)
                } else if reference is Err {
                    Err(reference->Err_0)
                } else if data is Err {
                    Err(data->Err_0)
                } else if destination is Err {
                    Err(destination->Err_0)
                } else if schema is Err {
                    Err(schema->Err_0)
                } else if timestamp is Err {
                    Err(timestamp->Err_0)
                } else if error is Err {
                    Err(error->Err_0)
                } else {
                    Ok(
                        OutgoingResponseView {
                            version: version->Ok_0 as usize,
                            reference: reference->Ok_0,
                            data: data->Ok_0,
                            destination: destination->Ok_0,
                            schema: schema->Ok_0,
                            timestamp: timestamp->Ok_0,
                            error: error->Ok_0,
                        },
                    )
                }
            },
            _ => Err(DecodeErrorView::NotAnObject),
        }
    }

    /// A record that is written and read again is as it was.
    pub proof fn lemma_round_trip(self)
        ensures
            Self::read(self.json()) is Ok,
            Self::read(self.json())->Ok_0 == self,
    {
        lemma_keys_differ();
        let members = self.json()->Object_0;
        lemma_position_at(members, VER@, 0);
        lemma_position_at(members, REF@, 1);
        lemma_position_at(members, DAT@, 2);
        lemma_position_at(members, DST@, 3);
        lemma_position_at(members, SHM@, 4);
        lemma_position_at(members, NOW@, 5);
        lemma_position_at(members, ERR@, 6);
        if self.error is Some {
            let inner = error_json(self.error)->Object_0;
            lemma_position_at(inner, CODE@, 0);
            lemma_position_at(inner, MESSAGE@, 1);
        }
    }
}

impl OutgoingResponse {
    /// Writes the record as a JSON object: every field under its key, an
    /// absent one as `null`.
    pub fn to_json(&self) -> (json: Json)
        ensures
            json@ == self@.json(),
    {
        let mut members: Vec<Member> = Vec::new();
        members.push(entry(VER, Json::Number(self.version as u64)));
        members.push(entry(REF, write_optional_text(&self.reference)));
        members.push(entry(DAT, write_text(&self.data)));
        members.push(entry(DST, write_text(&self.destination)));
        members.push(entry(SHM, write_optional_text(&self.schema)));
        members.push(entry(NOW, Json::Number(self.timestamp)));
        members.push(entry(ERR, write_error(&self.error)));
        proof {
            lemma_object_view(members);
            assert(members_view(members@) =~= self@.json()->Object_0);
        }
        Json::Object(members)
    }

    /// Reads the record from a JSON object. An optional field may be
    /// missing or `null`; members under other keys are passed over. The
    /// error names the first field, in the order of the fields, that is
    /// missing or of another type.
    pub fn from_json(json: &Json) -> (read: Result<Self, DecodeError>)
        ensures
            read_view(read) == OutgoingResponseView::read(json@),
    {
        let members = match json {
            Json::Object(members) => members,
            _ => {
                return Err(DecodeError::NotAnObject);
            },
        };
        proof {
            lemma_object_view(*members);
        }
        let version = read_number(members, VER, usize::MAX as u64)?;
        let reference = read_optional_text(members, REF)?;
        let data = read_text(members, DAT)?;
        let destination = read_text(members, DST)?;
        let schema = read_optional_text(members, SHM)?;
        let timestamp = read_number(members, NOW, u64::MAX)?;
        let error = read_error(members, ERR)?;
        Ok(
            OutgoingResponse {
                version: version as usize,
                reference,
                data,
                destination,
                schema,
                timestamp,
                error,
            },
        )
    }
}

impl IncomingResponseView {
    /// The response as a client receives it, as a JSON object: every field under
    /// its key.
    pub open spec fn json(self) -> JsonView {
        JsonView::Object(
            seq![
                (VER@, JsonView::Number(self.version as u64)),
                (REF@, optional_text_json(self.reference)),
                (DAT@, text_json(self.data)),
                (SRC@, text_json(self.source)),
                (SHM@, optional_text_json(self.schema)),
                (NOW@, JsonView::Number(self.timestamp)),
                (ERR@, error_json(self.error)),
            ],
        )
    }

    /// What is read of `json` as a response as a client receives it: the record,
    /// or the first reason, in the order of the fields, why it is none.
    pub open spec fn read(json: JsonView) -> Read<IncomingResponseView> {
        match json {
            JsonView::Object(members) => {
                let version = number_of(members, VER@, usize::MAX as u64);
                let reference = optional_text_of(members, REF@);
                let data = text_of(members, DAT@);
                let source = text_of(members, SRC@);
                let schema = optional_text_of(members, SHM@);
                let timestamp = number_of(members, NOW@, u64::MAX);
                let error = error_of(members, ERR@);
                if version is Err {
                    Err(version->Err_0)
                } else if reference is Err {
                    Err(reference->Err_0)
                } else if data is Err {
                    Err(data->Err_0)
                } else if source is Err {
                    Err(source->Err_0)
                } else if schema is Err {
                    Err(schema->Err_0)
                } else if timestamp is Err {
                    Err(timestamp->Err_0)
                } else if error is Err {
                    Err(error->Err_0)
                } else {
                    Ok(
                        IncomingResponseView {
                            version: version->Ok_0 as usize,
                            reference: reference->Ok_0,
                            data: data->Ok_0,
                            source: source->Ok_0,
                            schema: schema->Ok_0,
                            timestamp: timestamp->Ok_0,
                            error: error->Ok_0,
                        },
                    )
                }
            },
            _ => Err(DecodeErrorView::NotAnObject),
        }
    }

    /// A record that is written and read again is as it was.
    pub proof fn lemma_round_trip(self)
        ensures
            Self::read(self.json()) is Ok,
            Self::read(self.json())->Ok_0 == self,
    {
        lemma_keys_differ();
        let members = self.json()->Object_0;
        lemma_position_at(members, VER@, 0);
        lemma_position_at(members, REF@, 1);
        lemma_position_at(members, DAT@, 2);
        lemma_position_at(members, SRC@, 3);
        lemma_position_at(members, SHM@, 4);
        lemma_position_at(members, NOW@, 5);
        lemma_position_at(members, ERR@, 6);
        if self.error is Some {
            let inner = error_json(self.error)->Object_0;
            lemma_position_at(inner, CODE@, 0);
            lemma_position_at(inner, MESSAGE@, 1);
        }
    }
}

impl IncomingResponse {
    /// Writes the record as a JSON object: every field under its key, an
    /// absent one as `null`.
    pub fn to_json(&self) -> (json: Json)
        ensures
            json@ == self@.json(),
    {
        let mut members: Vec<Member> = Vec::new();
        members.push(entry(VER, Json::Number(self.version as u64)));
        members.push(entry(REF, write_optional_text(&self.reference)));
        members.push(entry(DAT, write_text(&self.data)));
        members.push(entry(SRC, write_text(&self.source)));
        members.push(entry(SHM, write_optional_text(&self.schema)));
        members.push(entry(NOW, Json::Number(self.timestamp)));
        members.push(entry(ERR, write_error(&self.error)));
        proof {
            lemma_object_view(members);
            assert(members_view(members@) =~= self@.json()->Object_0);
        }
        Json::Object(members)
    }

    /// Reads the record from a JSON object. An optional field may be
    /// missing or `null`; members under other keys are passed over. The
    /// error names the first field, in the order of the fields, that is
    /// missing or of another type.
    pub fn from_json(json: &Json) -> (read: Result<Self, DecodeError>)
        ensures
            read_view(read) == IncomingResponseView::read(json@),
    {
        let members = match json {
            Json::Object(members) => members,
            _ => {
                return Err(DecodeError::NotAnObject);
            },
        };
        proof {
            lemma_object_view(*members);
        }
        let version = read_number(members, VER, usize::MAX as u64)?;
        let reference = read_optional_text(members, REF)?;
        let data = read_text(members, DAT)?;
        let source = read_text(members, SRC)?;
        let schema = read_optional_text(members, SHM)?;
        let timestamp = read_number(members, NOW, u64::MAX)?;
        let error = read_error(members, ERR)?;
        Ok(
            IncomingResponse {
                version: version as usize,
                reference,
                data,
                source,
                schema,
                timestamp,
                error,
            },
        )
    }
}
} // verus!
