//! The session of a Matrix login, and the text in which it is kept.

use crate::ident::{is_user_id, UserId};
use matrix_sdk::ruma;
use vstd::pervasive::unreached;
use vstd::prelude::*;

verus! {

/// `serde_json::Error`, the reason why a text could not be read.
#[verifier::external_type_specification]
#[verifier::external_body]
pub struct ExJsonError(serde_json::Error);

/// The text that `serde_json::to_string` gives for a `matrix_sdk::Session` of these fields.
pub uninterp spec fn session_json(
    access_token: Seq<char>,
    refresh_token: Option<Seq<char>>,
    user_id: Seq<char>,
    device_id: Seq<char>,
) -> Seq<char>;

/// The fields of the `matrix_sdk::Session` that `serde_json::from_str` gives for a text: the
/// access token, the refresh token, the user ID and the device ID.
pub uninterp spec fn session_fields(text: Seq<char>) -> Option<
    (Seq<char>, Option<Seq<char>>, Seq<char>, Seq<char>),
>;

/// What a session consists of.
#[derive(Debug)]
pub struct Session {
    /// The access token that the server gave.
    pub access_token: String,
    /// The token for a new access token, if the server gave one.
    pub refresh_token: Option<String>,
    /// The user that the access token is for.
    pub user_id: UserId,
    /// The device that the session is of.
    pub device_id: String,
}

#[verifier::ext_equal]
pub struct SessionModel {
    pub access_token: Seq<char>,
    pub refresh_token: Option<Seq<char>>,
    pub user_id: Seq<char>,
    pub device_id: Seq<char>,
}

impl DeepView for Session {
    type V = SessionModel;

    open spec fn deep_view(&self) -> SessionModel {
        SessionModel {
            access_token: self.access_token@,
            refresh_token: self.refresh_token.deep_view(),
            user_id: self.user_id@,
            device_id: self.device_id@,
        }
    }
}

/// A text that holds no session.
#[derive(Debug)]
pub struct SessionError {
    pub cause: serde_json::Error,
}

/// The text in which a session is kept.
pub open spec fn session_text(session: SessionModel) -> Seq<char> {
    session_json(
        session.access_token,
        session.refresh_token,
        session.user_id,
        session.device_id,
    )
}

/// The session that a text holds, if it holds one.
pub open spec fn session_in(text: Seq<char>) -> Option<SessionModel> {
    match session_fields(text) {
        Some((access_token, refresh_token, user_id, device_id)) => Some(
            SessionModel { access_token, refresh_token, user_id, device_id },
        ),
        None => None,
    }
}

/// The session of the given fields.
pub open spec fn session_of(fields: (String, Option<String>, String, String)) -> SessionModel {
    SessionModel {
        access_token: fields.0@,
        refresh_token: fields.1.deep_view(),
        user_id: fields.2@,
        device_id: fields.3@,
    }
}

/// Calls `serde_json::to_string` on the `matrix_sdk::Session` of the given fields.
///
/// Claimed of it: it succeeds, and the text depends on the fields alone. All fields are strings,
/// which it can always write. Of the text itself nothing is said here.
#[verifier::external_body]
fn sdk_session_to_json(
    access_token: String,
    refresh_token: Option<String>,
    user_id: &str,
    device_id: String,
) -> (text: String)
    requires
        is_user_id(user_id@),
    ensures
        text@ == session_json(
            access_token@,
            refresh_token.deep_view(),
            user_id@,
            device_id@,
        ),
{
    let user_id = ruma::UserId::parse(user_id).unwrap();
    let device_id = device_id.into();
    let session = matrix_sdk::Session { access_token, refresh_token, user_id, device_id };
    serde_json::to_string(&session).unwrap()
}

/// Calls `serde_json::from_str` for a `matrix_sdk::Session`, and hands out its fields.
///
/// Claimed of it: what it gives depends on the text alone; the user ID is one that
/// `ruma::UserId::parse` accepts; and from a text that `serde_json::to_string` gave for a session
/// it gives the fields of that session. Which other texts it reads is not said here.
#[verifier::external_body]
fn sdk_session_from_json(text: &str) -> (r: Result<
    (String, Option<String>, String, String),
    serde_json::Error,
>)
    ensures
        match r {
            Ok((access_token, refresh_token, user_id, device_id)) => {
                &&& session_fields(text@) == Some(
                    (access_token@, refresh_token.deep_view(), user_id@, device_id@),
                )
                &&& is_user_id(user_id@)
            },
            Err(_) => session_fields(text@) is None,
        },
        forall|session: SessionModel|
            is_user_id(session.user_id) && text@ == #[trigger] session_text(session) ==> r is Ok
                && session_of(r->Ok_0) == session,
{
    match serde_json::from_str::<matrix_sdk::Session>(text) {
        Ok(session) => {
            let (user_id, device_id) = (session.user_id.to_string(), session.device_id.to_string());
            Ok((session.access_token, session.refresh_token, user_id, device_id))
        },
        Err(e) => Err(e),
    }
}

/// Returns the text in which a session is kept.
pub fn write_session(session: &Session) -> (text: String)
    ensures
        text@ == session_text(session.deep_view()),
        is_user_id(session.deep_view().user_id),
        text@ == session_json(
            session.access_token@,
            session.refresh_token.deep_view(),
            session.user_id@,
            session.device_id@,
        ),
{
    sdk_session_to_json(
        session.access_token.clone(),
        session.refresh_token.clone(),
        session.user_id.as_str(),
        session.device_id.clone(),
    )
}

/// Returns the session that a text holds. From a text in which a session was kept it returns
/// that session.
pub fn read_session(text: &str) -> (r: Result<Session, SessionError>)
    ensures
        match r {
            Ok(session) => {
                &&& session_in(text@) == Some(session.deep_view())
                &&& is_user_id(session.deep_view().user_id)
            },
            Err(_) => session_in(text@) is None,
        },
        match r {
            Ok(session) => {
                &&& session_fields(text@) matches Some((access, refresh, user, device))
                &&& session.access_token@ == access
                &&& session.refresh_token.deep_view() == refresh
                &&& session.user_id@ == user
                &&& session.device_id@ == device
            },
            Err(_) => session_fields(text@) is None,
        },
        forall|session: SessionModel|
            is_user_id(session.user_id) && text@ == #[trigger] session_text(session) ==> r is Ok
                && r->Ok_0.deep_view() == session,
{
    match sdk_session_from_json(text) {
        Ok((access_token, refresh_token, user_id, device_id)) => {
            let user_id = match UserId::parse(user_id.as_str()) {
                Ok(user_id) => user_id,
                Err(_) => unreached(),
            };
            Ok(Session { access_token, refresh_token, user_id, device_id })
        },
        Err(cause) => Err(SessionError { cause }),
    }
}

/// The text in which a session is kept is the one that is written for its own access token,
/// refresh token, user ID and device ID, each in its own place.
pub proof fn law_session_text_holds_each_field_in_its_place(
    access_token: Seq<char>,
    refresh_token: Option<Seq<char>>,
    user_id: Seq<char>,
    device_id: Seq<char>,
)
    ensures
        session_text(SessionModel { access_token, refresh_token, user_id, device_id })
            == session_json(access_token, refresh_token, user_id, device_id),
{
}

/// The session that a text holds has each field that is read from the text in its own place, and
/// there is a session if and only if the fields can be read.
pub proof fn law_session_has_each_field_of_its_text(text: Seq<char>)
    ensures
        session_fields(text) is None <==> session_in(text) is None,
        session_fields(text) matches Some((access_token, refresh_token, user_id, device_id)) ==> {
            &&& session_in(text) matches Some(session)
            &&& session.access_token == access_token
            &&& session.refresh_token == refresh_token
            &&& session.user_id == user_id
            &&& session.device_id == device_id
        },
{
}

/// A model holds what the session, or the fields that were read, hold, each part under its own
/// name.
pub proof fn law_session_models_keep_every_part(
    session: Session,
    fields: (String, Option<String>, String, String),
)
    ensures
        session.deep_view().access_token == session.access_token@,
        session.deep_view().refresh_token == session.refresh_token.deep_view(),
        session.deep_view().user_id == session.user_id@,
        session.deep_view().device_id == session.device_id@,
        session_of(fields).access_token == fields.0@,
        session_of(fields).refresh_token == fields.1.deep_view(),
        session_of(fields).user_id == fields.2@,
        session_of(fields).device_id == fields.3@,
{
}

} // verus!
