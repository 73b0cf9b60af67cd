//! The Matrix side of the bridge.

use crate::cli::{path_components, Cli};
use crate::event::{
    is_delivery_failure, undelivered_among, Delivery, Event, EventModel, Message, MessageModel,
    ReadinessConditions,
};
use crate::ident::{
    id_verdict, law_first_colon_parts_an_id, localpart_of, server_name_of, IdError, RoomId, UserId,
};
use crate::metrics::{MessageEventLables, MessageEventLablesModel};
use crate::session::{session_text, SessionModel};
use std::path::PathBuf;
use vstd::prelude::*;
use vstd::utf8::encode_utf8;

verus! {

/// Finds a room among those that the bridge watches.
pub fn watched_room<'a>(rooms: &'a Vec<RoomId>, room: &str) -> (r: Option<&'a RoomId>)
    ensures
        match r {
            Some(found) => found@ == room@ && rooms.deep_view().contains(room@),
            None => !rooms.deep_view().contains(room@),
        },
        r is Some <==> exists|i: int| 0 <= i < rooms.len() && (#[trigger] rooms@[i])@ == room@,
{
    let text: String = room.to_owned();
    let mut i: usize = 0;
    while i < rooms.len()
        invariant
            i <= rooms.len(),
            text@ == room@,
            forall|j: int| 0 <= j < i ==> #[trigger] rooms.deep_view()[j] != room@,
        decreases rooms.len() - i,
    {
        assert(rooms.deep_view()[i as int] == rooms@[i as int]@);
        if rooms[i].has_text(&text) {
            assert(rooms@[i as int]@ == room@);
            return Some(&rooms[i]);
        }
        i += 1;
    }
    assert forall|j: int| 0 <= j < rooms.len() implies (#[trigger] rooms@[j])@ != room@ by {
        assert(rooms.deep_view()[j] == rooms@[j]@);
    }
    None
}

/// What follows from a message in a room.
#[derive(Debug)]
pub struct Notice {
    /// The labels of the message, which is counted.
    pub count: MessageEventLables,
    /// The event for the channel.
    pub event: Option<Event>,
}

#[verifier::ext_equal]
pub struct NoticeModel {
    pub count: MessageEventLablesModel,
    pub event: Option<EventModel>,
}

impl DeepView for Notice {
    type V = NoticeModel;

    open spec fn deep_view(&self) -> NoticeModel {
        NoticeModel { count: self.count.deep_view(), event: self.event.deep_view() }
    }
}

/// What follows from a message in a room: nothing, unless the bridge has joined the room and
/// watches it. `body` is the event as JSON, if it could be serialised.
pub open spec fn notice_of(
    watched: Seq<Seq<char>>,
    joined: bool,
    room: Seq<char>,
    body: Option<Seq<char>>,
) -> Option<NoticeModel> {
    if joined && watched.contains(room) {
        Some(
            NoticeModel {
                count: MessageEventLablesModel { room_id: room },
                event: match body {
                    Some(body) => Some(
                        EventModel::MessageFromMatrix(MessageModel { room, body }),
                    ),
                    None => None,
                },
            },
        )
    } else {
        None
    }
}

/// Handles a message in a room.
pub fn handle_message(
    watched_rooms: &Vec<RoomId>,
    joined: bool,
    room: &str,
    body: Option<String>,
) -> (notice: Option<Notice>)
    ensures
        notice.deep_view() == notice_of(
            watched_rooms.deep_view(),
            joined,
            room@,
            body.deep_view(),
        ),
{
    if !joined {
        return None;
    }
    match watched_room(watched_rooms, room) {
        Some(room_id) => {
            let count = MessageEventLables::new(room.to_owned());
            let event = match body {
                Some(body) => Some(
                    Event::MessageFromMatrix(Message { room: room_id.clone(), body }),
                ),
                None => None,
            };
            Some(Notice { count, event })
        },
        None => None,
    }
}

/// What the task that sends to Matrix waits for.
#[derive(Debug, Clone, Copy, PartialEq, Eq, Structural)]
pub enum SendState {
    /// It waits for an event on the channel.
    Receiving,
    /// It waits for a message to be sent.
    Sending,
    /// It has ended.
    Stopped,
}

/// What the task that sends to Matrix gets to know.
#[derive(Debug)]
pub enum SendInput {
    /// The channel gave an event, or failed.
    Channel(Option<Event>),
    /// What became of the message.
    Sent(Delivery),
}

#[verifier::ext_equal]
pub enum SendInputModel {
    Channel(Option<EventModel>),
    Sent(Delivery),
}

impl DeepView for SendInput {
    type V = SendInputModel;

    open spec fn deep_view(&self) -> SendInputModel {
        match self {
            SendInput::Channel(event) => SendInputModel::Channel(event.deep_view()),
            SendInput::Sent(delivery) => SendInputModel::Sent(*delivery),
        }
    }
}

/// What the task that sends to Matrix does.
#[derive(Debug)]
pub enum SendAction {
    /// Send the body to the room as an `m.text` message.
    SendText(Message),
    /// Count a delivery failure.
    CountFailure,
}

#[verifier::ext_equal]
pub enum SendActionModel {
    SendText(MessageModel),
    CountFailure,
}

impl DeepView for SendAction {
    type V = SendActionModel;

    open spec fn deep_view(&self) -> SendActionModel {
        match self {
            SendAction::SendText(message) => SendActionModel::SendText(message.deep_view()),
            SendAction::CountFailure => SendActionModel::CountFailure,
        }
    }
}

/// The next state of the task that sends to Matrix, and what it does. It ends on the exit event
/// and when the channel fails. An input that it does not wait for changes nothing.
pub open spec fn send_step_of(state: SendState, input: SendInputModel) -> (
    SendState,
    Option<SendActionModel>,
) {
    match (state, input) {
        (SendState::Receiving, SendInputModel::Channel(event)) => match event {
            None | Some(EventModel::Exit) => (SendState::Stopped, None),
            Some(EventModel::MessageFromMqtt(message)) => (
                SendState::Sending,
                Some(SendActionModel::SendText(message)),
            ),
            Some(EventModel::MessageFromMatrix(_)) => (SendState::Receiving, None),
        },
        (SendState::Sending, SendInputModel::Sent(delivery)) => (
            SendState::Receiving,
            if delivery == Delivery::NotDelivered {
                Some(SendActionModel::CountFailure)
            } else {
                None
            },
        ),
        _ => (state, None),
    }
}

/// Takes the task that sends to Matrix from one state to the next, and returns what it does.
pub fn run_send_task(state: SendState, input: SendInput) -> (r: (SendState, Option<SendAction>))
    ensures
        (r.0, r.1.deep_view()) == send_step_of(state, input.deep_view()),
{
    match (state, input) {
        (SendState::Receiving, SendInput::Channel(event)) => match event {
            None | Some(Event::Exit) => (SendState::Stopped, None),
            Some(Event::MessageFromMqtt(message)) => (
                SendState::Sending,
                Some(SendAction::SendText(message)),
            ),
            Some(Event::MessageFromMatrix(_)) => (SendState::Receiving, None),
        },
        (SendState::Sending, SendInput::Sent(delivery)) => {
            if is_delivery_failure(delivery) {
                (SendState::Receiving, Some(SendAction::CountFailure))
            } else {
                (SendState::Receiving, None)
            }
        },
        _ => (state, None),
    }
}

/// How far the login has come.
#[derive(Debug, Clone, Copy, PartialEq, Eq, Structural)]
pub enum LoginState {
    /// The client is being built.
    Building,
    /// The session is being restored from the session file.
    Restoring,
    /// The user is being logged in with the password.
    LoggingIn,
    /// The new session is being saved to the session file.
    Saving,
    /// The initial sync is under way.
    Syncing,
    /// The login is complete.
    Complete,
    /// The login has failed.
    Failed,
}

/// How an action of the login ended.
#[derive(Debug, Clone, Copy, PartialEq, Eq, Structural)]
pub enum LoginOutcome {
    /// It succeeded, and this tells whether there is a session file now.
    Done { session_exists: bool },
    /// It failed.
    Failed,
}

/// An action of the login.
#[derive(Debug)]
pub enum LoginAction {
    /// Build a client for the server, with its state store at the path.
    BuildClient { server_name: String, store: PathBuf },
    /// Restore the session that the file holds.
    RestoreSession { file: PathBuf },
    /// Log in with the password.
    PasswordLogin { localpart: String, password: String, device_name: String },
    /// Save the session to the file.
    SaveSession { file: PathBuf },
    /// Perform the initial sync.
    InitialSync,
    /// Mark the condition as ready, and handle messages from now on.
    Complete { ready: ReadinessConditions },
    /// Report the failure.
    GiveUp,
}

#[verifier::ext_equal]
pub enum LoginActionModel {
    BuildClient { server_name: Seq<char>, store: Seq<Seq<u8>> },
    RestoreSession { file: Seq<Seq<u8>> },
    PasswordLogin { localpart: Seq<char>, password: Seq<char>, device_name: Seq<char> },
    SaveSession { file: Seq<Seq<u8>> },
    InitialSync,
    Complete { ready: ReadinessConditions },
    GiveUp,
}

impl DeepView for LoginAction {
    type V = LoginActionModel;

    open spec fn deep_view(&self) -> LoginActionModel {
        match self {
            LoginAction::BuildClient { server_name, store } => LoginActionModel::BuildClient {
                server_name: server_name@,
                store: path_components(*store),
            },
            LoginAction::RestoreSession { file } => LoginActionModel::RestoreSession {
                file: path_components(*file),
            },
            LoginAction::PasswordLogin { localpart, password, device_name } => {
                LoginActionModel::PasswordLogin {
                    localpart: localpart@,
                    password: password@,
                    device_name: device_name@,
                }
            },
            LoginAction::SaveSession { file } => LoginActionModel::SaveSession {
                file: path_components(*file),
            },
            LoginAction::InitialSync => LoginActionModel::InitialSync,
            LoginAction::Complete { ready } => LoginActionModel::Complete { ready: *ready },
            LoginAction::GiveUp => LoginActionModel::GiveUp,
        }
    }
}

/// The state that follows when the action of a state has ended. A login that is over stays so.
pub open spec fn login_next(state: LoginState, outcome: LoginOutcome) -> LoginState {
    match outcome {
        LoginOutcome::Failed => if state == LoginState::Complete {
            LoginState::Complete
        } else {
            LoginState::Failed
        },
        LoginOutcome::Done { session_exists } => match state {
            LoginState::Building => if session_exists {
                LoginState::Restoring
            } else {
                LoginState::LoggingIn
            },
            LoginState::Restoring => LoginState::Syncing,
            LoginState::LoggingIn => LoginState::Saving,
            LoginState::Saving => LoginState::Syncing,
            LoginState::Syncing => LoginState::Complete,
            LoginState::Complete => LoginState::Complete,
            LoginState::Failed => LoginState::Failed,
        },
    }
}

/// The file that the session is kept in.
pub open spec fn session_file_of(storage: Seq<Seq<u8>>) -> Seq<Seq<u8>> {
    storage.push(encode_utf8("session.json"@))
}

/// The action that each state of the login stands for.
pub open spec fn login_action_of(
    state: LoginState,
    username: Seq<char>,
    password: Seq<char>,
    storage: Seq<Seq<u8>>,
) -> LoginActionModel {
    match state {
        LoginState::Building => LoginActionModel::BuildClient {
            server_name: server_name_of(username),
            store: storage.push(encode_utf8("sled"@)),
        },
        LoginState::Restoring => LoginActionModel::RestoreSession {
            file: session_file_of(storage),
        },
        LoginState::LoggingIn => LoginActionModel::PasswordLogin {
            localpart: localpart_of(username),
            password,
            device_name: "MQTT bridge"@,
        },
        LoginState::Saving => LoginActionModel::SaveSession {
            file: session_file_of(storage),
        },
        LoginState::Syncing => LoginActionModel::InitialSync,
        LoginState::Complete => LoginActionModel::Complete {
            ready: ReadinessConditions::MatrixLoginAndInitialSyncComplete,
        },
        LoginState::Failed => LoginActionModel::GiveUp,
    }
}

/// A login to the Matrix server.
#[derive(Debug)]
pub struct Login {
    state: LoginState,
    user: UserId,
}

impl Login {
    pub closed spec fn state(&self) -> LoginState {
        self.state
    }

    /// The user that is logged in.
    pub closed spec fn user(&self) -> Seq<char> {
        self.user@
    }

    fn action(&self, args: &Cli) -> (action: LoginAction)
        ensures
            action.deep_view() == login_action_of(
                self.state(),
                self.user(),
                args.matrix_password@,
                path_components(args.matrix_storage),
            ),
    {
        match self.state {
            LoginState::Building => LoginAction::BuildClient {
                server_name: self.user.server_name().to_owned(),
                store: args.matrix_sled_path(),
            },
            LoginState::Restoring => LoginAction::RestoreSession {
                file: args.matrix_session_filename(),
            },
            LoginState::LoggingIn => LoginAction::PasswordLogin {
                localpart: self.user.localpart().to_owned(),
                password: args.matrix_password.clone(),
                device_name: "MQTT bridge".to_owned(),
            },
            LoginState::Saving => LoginAction::SaveSession {
                file: args.matrix_session_filename(),
            },
            LoginState::Syncing => LoginAction::InitialSync,
            LoginState::Complete => LoginAction::Complete {
                ready: ReadinessConditions::MatrixLoginAndInitialSyncComplete,
            },
            LoginState::Failed => LoginAction::GiveUp,
        }
    }

    /// Goes on when the last action has ended, and returns the next.
    pub fn advance(&mut self, args: &Cli, outcome: LoginOutcome) -> (action: LoginAction)
        ensures
            final(self).user() == old(self).user(),
            final(self).state() == login_next(old(self).state(), outcome),
            action.deep_view() == login_action_of(
                final(self).state(),
                final(self).user(),
                args.matrix_password@,
                path_components(args.matrix_storage),
            ),
            action matches LoginAction::PasswordLogin { localpart, password, device_name } ==> {
                &&& localpart@ == localpart_of(old(self).user())
                &&& password@ == args.matrix_password@
                &&& device_name@ == "MQTT bridge"@
            },
    {
        self.state =
        match outcome {
            LoginOutcome::Failed => match self.state {
                LoginState::Complete => LoginState::Complete,
                _ => LoginState::Failed,
            },
            LoginOutcome::Done { session_exists } => match self.state {
                LoginState::Building => if session_exists {
                    LoginState::Restoring
                } else {
                    LoginState::LoggingIn
                },
                LoginState::Restoring => LoginState::Syncing,
                LoginState::LoggingIn => LoginState::Saving,
                LoginState::Saving => LoginState::Syncing,
                LoginState::Syncing => LoginState::Complete,
                LoginState::Complete => LoginState::Complete,
                LoginState::Failed => LoginState::Failed,
            },
        };
        self.action(args)
    }
}

/// Starts the login of a user, and returns its first action; where the username was refused, so
/// is the login.
pub fn start_login(args: &Cli, user: Result<UserId, IdError>) -> (r: Result<
    (Login, LoginAction),
    IdError,
>)
    ensures
        match user {
            Ok(user) => {
                &&& r matches Ok((login, action))
                &&& login.user() == user@
                &&& login.state() == LoginState::Building
                &&& action.deep_view() == login_action_of(
                    LoginState::Building,
                    user@,
                    args.matrix_password@,
                    path_components(args.matrix_storage),
                )
            },
            Err(e) => r == Err::<(Login, LoginAction), IdError>(e),
        },
{
    match user {
        Ok(user) => {
            let login = Login { state: LoginState::Building, user };
            let action = login.action(args);
            Ok((login, action))
        },
        Err(e) => Err(e),
    }
}

/// Starts the login, and returns its first action; a username that is not a user ID is refused.
pub fn login(args: &Cli) -> (r: Result<(Login, LoginAction), IdError>)
    ensures
        match r {
            Ok((login, action)) => {
                &&& id_verdict(args.matrix_username@, '@') is Ok
                &&& login.user() == args.matrix_username@
                &&& login.state() == LoginState::Building
                &&& action.deep_view() == login_action_of(
                    LoginState::Building,
                    args.matrix_username@,
                    args.matrix_password@,
                    path_components(args.matrix_storage),
                )
            },
            Err(e) => id_verdict(args.matrix_username@, '@') == Err::<(), IdError>(e),
        },
{
    start_login(args, UserId::parse(args.matrix_username.as_str()))
}

/// The state of the login when its actions have ended in the given ways.
pub open spec fn login_after(outcomes: Seq<LoginOutcome>) -> LoginState
    decreases outcomes.len(),
{
    if outcomes.len() == 0 {
        LoginState::Building
    } else {
        login_next(login_after(outcomes.drop_last()), outcomes.last())
    }
}

/// How many actions a login takes: one more where there is no session to restore, as the new
/// session is saved.
pub open spec fn login_length(outcomes: Seq<LoginOutcome>) -> int {
    if outcomes.len() > 0 && outcomes[0] == (LoginOutcome::Done { session_exists: true }) {
        3
    } else {
        4
    }
}

/// Where a login stands that has not failed.
spec fn login_progress(session_exists: bool, done: int) -> LoginState {
    if done <= 0 {
        LoginState::Building
    } else if session_exists {
        if done == 1 {
            LoginState::Restoring
        } else if done == 2 {
            LoginState::Syncing
        } else {
            LoginState::Complete
        }
    } else {
        if done == 1 {
            LoginState::LoggingIn
        } else if done == 2 {
            LoginState::Saving
        } else if done == 3 {
            LoginState::Syncing
        } else {
            LoginState::Complete
        }
    }
}

spec fn all_done(outcomes: Seq<LoginOutcome>, n: int) -> bool {
    forall|i: int| 0 <= i < n && i < outcomes.len() ==> #[trigger] outcomes[i] is Done
}

proof fn lemma_login_after(outcomes: Seq<LoginOutcome>)
    ensures
        login_after(outcomes) == if all_done(outcomes, login_length(outcomes)) {
            login_progress(login_length(outcomes) == 3, outcomes.len() as int)
        } else {
            LoginState::Failed
        },
    decreases outcomes.len(),
{
    if outcomes.len() > 0 {
        let init = outcomes.drop_last();
        lemma_login_after(init);
        let n = login_length(outcomes);
        if init.len() > 0 {
            assert(outcomes[0] == init[0]);
            assert(login_length(init) == n);
            if all_done(outcomes, n) {
                assert forall|i: int| 0 <= i < n && i < init.len() implies #[trigger] init[i] is Done by {
                    assert(outcomes[i] is Done);
                }
            } else {
                let bad = choose|i: int|
                    0 <= i < n && i < outcomes.len() && !(#[trigger] outcomes[i] is Done);
                if bad < init.len() {
                    assert(!(init[bad] is Done));
                } else {
                    assert(outcomes.last() == LoginOutcome::Failed);
                }
            }
        } else {
            assert(outcomes[0] == outcomes.last());
        }
    }
}

/// The login is complete, and the bridge marked as logged in, if and only if every action of
/// it has been performed and has succeeded.
pub proof fn law_login_completes_if_all_succeeds(outcomes: Seq<LoginOutcome>)
    ensures
        login_after(outcomes) == LoginState::Complete <==> {
            &&& outcomes.len() >= login_length(outcomes)
            &&& forall|i: int|
                0 <= i < login_length(outcomes) ==> #[trigger] outcomes[i] is Done
        },
{
    lemma_login_after(outcomes);
}

/// A failed action ends the login, whatever comes after.
pub proof fn law_login_failure_is_final(outcomes: Seq<LoginOutcome>, i: int)
    requires
        0 <= i < outcomes.len(),
        i < login_length(outcomes),
        outcomes[i] == LoginOutcome::Failed,
    ensures
        login_after(outcomes) == LoginState::Failed,
{
    lemma_login_after(outcomes);
    assert(!(outcomes[i] is Done));
}

/// Where there is a session file, the session is restored, and the password is never sent.
/// Where there is none, the new session is saved before the initial sync.
pub proof fn law_session_file_replaces_password(outcomes: Seq<LoginOutcome>)
    requires
        outcomes.len() > 0,
    ensures
        outcomes[0] == (LoginOutcome::Done { session_exists: true }) ==> {
            &&& login_after(outcomes) != LoginState::LoggingIn
            &&& login_after(outcomes) != LoginState::Saving
        },
        outcomes[0] == (LoginOutcome::Done { session_exists: false }) ==> {
            &&& login_after(outcomes) != LoginState::Restoring
            &&& login_after(outcomes) == LoginState::Syncing ==> login_after(outcomes.drop_last())
                == LoginState::Saving
        },
{
    lemma_login_after(outcomes);
    lemma_login_after(outcomes.drop_last());
}

/// The login first becomes complete from the initial sync, when that succeeds.
pub proof fn law_login_completes_with_the_initial_sync(outcomes: Seq<LoginOutcome>)
    requires
        outcomes.len() > 0,
        login_after(outcomes) == LoginState::Complete,
        login_after(outcomes.drop_last()) != LoginState::Complete,
    ensures
        login_after(outcomes.drop_last()) == LoginState::Syncing,
        outcomes.last() is Done,
{
}

/// With the same settings, a session is restored from the file that it was saved to.
pub proof fn law_session_is_restored_from_where_it_was_saved(
    username: Seq<char>,
    password: Seq<char>,
    storage: Seq<Seq<u8>>,
)
    ensures
        login_action_of(LoginState::Saving, username, password, storage)
            matches LoginActionModel::SaveSession { file: saved } && login_action_of(
            LoginState::Restoring,
            username,
            password,
            storage,
        ) matches LoginActionModel::RestoreSession { file: restored } && saved == restored,
{
}

/// The texts of the files, by their paths, when a login has performed an action with its
/// session.
pub open spec fn files_after(
    files: Map<Seq<Seq<u8>>, Seq<char>>,
    action: LoginActionModel,
    session: SessionModel,
) -> Map<Seq<Seq<u8>>, Seq<char>> {
    match action {
        LoginActionModel::SaveSession { file } => files.insert(file, session_text(session)),
        _ => files,
    }
}

/// Once a login has saved its session, a login with the same settings restores that session, if
/// the files stay as they are: it reads the text of the saved session, from which `read_session`
/// returns the session itself, and it never sends the password.
pub proof fn law_second_login_restores_the_saved_session(
    files: Map<Seq<Seq<u8>>, Seq<char>>,
    username: Seq<char>,
    password: Seq<char>,
    storage: Seq<Seq<u8>>,
    session: SessionModel,
    outcomes: Seq<LoginOutcome>,
)
    requires
        outcomes.len() > 0,
        outcomes[0] == (LoginOutcome::Done {
            session_exists: files_after(
                files,
                login_action_of(LoginState::Saving, username, password, storage),
                session,
            ).dom().contains(session_file_of(storage)),
        }),
    ensures
        ({
            let saved = files_after(
                files,
                login_action_of(LoginState::Saving, username, password, storage),
                session,
            );
            let first = login_after(outcomes.take(1));
            &&& login_action_of(first, username, password, storage)
                matches LoginActionModel::RestoreSession { file }
            &&& saved.dom().contains(file)
            &&& saved[file] == session_text(session)
        }),
        forall|n: int|
            0 <= n <= outcomes.len() ==> !(login_action_of(
                login_after(#[trigger] outcomes.take(n)),
                username,
                password,
                storage,
            ) is PasswordLogin),
{
    assert forall|n: int| 0 <= n <= outcomes.len() implies login_after(#[trigger] outcomes.take(n))
        != LoginState::LoggingIn by {
        if n > 0 {
            assert(outcomes.take(n)[0] == outcomes[0]);
            law_session_file_replaces_password(outcomes.take(n));
        }
    }
    lemma_login_after(outcomes.take(1));
}

/// The task that sends to Matrix sends what came from the broker, and never what came from
/// Matrix itself.
pub proof fn law_send_task_sends_no_matrix_message(message: MessageModel)
    ensures
        send_step_of(
            SendState::Receiving,
            SendInputModel::Channel(Some(EventModel::MessageFromMqtt(message))),
        ).1 == Some(SendActionModel::SendText(message)),
        send_step_of(
            SendState::Receiving,
            SendInputModel::Channel(Some(EventModel::MessageFromMatrix(message))),
        ).1 is None,
{
}

/// Whether the task that sends to Matrix waits for an input.
pub open spec fn send_awaits(state: SendState, input: SendInputModel) -> bool {
    match state {
        SendState::Receiving => input is Channel,
        SendState::Sending => input is Sent,
        SendState::Stopped => false,
    }
}

/// The state of the task that sends to Matrix after a series of inputs.
pub open spec fn send_state_after(inputs: Seq<SendInputModel>) -> SendState
    decreases inputs.len(),
{
    if inputs.len() == 0 {
        SendState::Receiving
    } else {
        send_step_of(send_state_after(inputs.drop_last()), inputs.last()).0
    }
}

/// What the task that sends to Matrix does on a series of inputs, in order.
pub open spec fn send_log(inputs: Seq<SendInputModel>) -> Seq<SendActionModel>
    decreases inputs.len(),
{
    if inputs.len() == 0 {
        seq![]
    } else {
        let before = send_log(inputs.drop_last());
        match send_step_of(send_state_after(inputs.drop_last()), inputs.last()).1 {
            Some(action) => before.push(action),
            None => before,
        }
    }
}

/// The inputs of a series that the task that sends to Matrix waited for.
pub open spec fn send_taken(inputs: Seq<SendInputModel>) -> Seq<SendInputModel>
    decreases inputs.len(),
{
    if inputs.len() == 0 {
        seq![]
    } else {
        let before = send_taken(inputs.drop_last());
        if send_awaits(send_state_after(inputs.drop_last()), inputs.last()) {
            before.push(inputs.last())
        } else {
            before
        }
    }
}

/// The messages that came from the broker, among what the task got to know.
pub open spec fn messages_from_mqtt(inputs: Seq<SendInputModel>) -> Seq<MessageModel>
    decreases inputs.len(),
{
    if inputs.len() == 0 {
        seq![]
    } else {
        let before = messages_from_mqtt(inputs.drop_last());
        match inputs.last() {
            SendInputModel::Channel(Some(EventModel::MessageFromMqtt(message))) => before.push(
                message,
            ),
            _ => before,
        }
    }
}

/// What became of the messages, among what the task got to know.
pub open spec fn deliveries_to_matrix(inputs: Seq<SendInputModel>) -> Seq<Delivery>
    decreases inputs.len(),
{
    if inputs.len() == 0 {
        seq![]
    } else {
        let before = deliveries_to_matrix(inputs.drop_last());
        match inputs.last() {
            SendInputModel::Sent(delivery) => before.push(delivery),
            _ => before,
        }
    }
}

/// The messages that are sent, among the actions.
pub open spec fn sends_among(actions: Seq<SendActionModel>) -> Seq<MessageModel>
    decreases actions.len(),
{
    if actions.len() == 0 {
        seq![]
    } else {
        let before = sends_among(actions.drop_last());
        match actions.last() {
            SendActionModel::SendText(message) => before.push(message),
            SendActionModel::CountFailure => before,
        }
    }
}

/// How many failures the actions count.
pub open spec fn send_failures_among(actions: Seq<SendActionModel>) -> nat
    decreases actions.len(),
{
    if actions.len() == 0 {
        0
    } else {
        send_failures_among(actions.drop_last()) + if actions.last()
            == SendActionModel::CountFailure {
            1nat
        } else {
            0nat
        }
    }
}

/// Over any series of inputs, the task that sends to Matrix sends each message that it took
/// from the broker once, in order; it learns what became of each before it takes the next; and
/// it counts as many failures as there were messages that were not delivered.
pub proof fn law_send_task_sends_each_message_in_order(inputs: Seq<SendInputModel>)
    ensures
        ({
            let taken = send_taken(inputs);
            let log = send_log(inputs);
            &&& sends_among(log) == messages_from_mqtt(taken)
            &&& deliveries_to_matrix(taken).len() + if send_state_after(inputs)
                == SendState::Sending {
                1int
            } else {
                0int
            } == sends_among(log).len()
            &&& send_failures_among(log) == undelivered_among(deliveries_to_matrix(taken))
        }),
    decreases inputs.len(),
{
    if inputs.len() > 0 {
        let init = inputs.drop_last();
        law_send_task_sends_each_message_in_order(init);
        let state = send_state_after(init);
        let taken = send_taken(init);
        let log = send_log(init);
        let deliveries = deliveries_to_matrix(taken);
        assert(taken.push(inputs.last()).drop_last() =~= taken);
        if let Some(action) = send_step_of(state, inputs.last()).1 {
            assert(log.push(action).drop_last() =~= log);
        }
        if let SendInputModel::Sent(delivery) = inputs.last() {
            assert(deliveries.push(delivery).drop_last() =~= deliveries);
        }
    }
}

/// An input that the task waits for is taken, so a series of such inputs is taken whole.
pub proof fn law_send_task_takes_what_it_waits_for(inputs: Seq<SendInputModel>)
    requires
        forall|i: int|
            0 <= i < inputs.len() ==> send_awaits(
                send_state_after(#[trigger] inputs.take(i)),
                inputs[i],
            ),
    ensures
        send_taken(inputs) == inputs,
    decreases inputs.len(),
{
    if inputs.len() > 0 {
        let init = inputs.drop_last();
        assert(inputs.take(inputs.len() - 1) =~= init);
        assert forall|i: int| 0 <= i < init.len() implies send_awaits(
            send_state_after(#[trigger] init.take(i)),
            init[i],
        ) by {
            assert(inputs.take(i) =~= init.take(i));
        }
        law_send_task_takes_what_it_waits_for(init);
        assert(init.push(inputs.last()) =~= inputs);
    }
}

/// What follows from a message in a joined and watched room is that it is counted under that
/// room, and that an event goes out if and only if there is a body: a message from Matrix, of
/// that room, with that body. Nothing follows from any other message.
pub proof fn law_notice_is_of_the_message(
    watched: Seq<Seq<char>>,
    joined: bool,
    room: Seq<char>,
    body: Option<Seq<char>>,
)
    ensures
        notice_of(watched, joined, room, body) is Some <==> joined && exists|i: int|
            0 <= i < watched.len() && #[trigger] watched[i] == room,
        notice_of(watched, joined, room, body) matches Some(notice) ==> {
            &&& notice.count.room_id == room
            &&& notice.event is Some <==> body is Some
            &&& notice.event matches Some(event) ==> {
                &&& event matches EventModel::MessageFromMatrix(message)
                &&& message.room == room
                &&& message.body == body->0
            }
        },
{
}

/// The task that sends to Matrix ends when it receives the exit event or the channel fails, and
/// not otherwise. It sends exactly the messages that it receives from the broker, and receives
/// again when it has learned what became of the message, which it counts as a failure exactly if
/// it was not delivered. A message from Matrix leaves it receiving, and what it does not wait for
/// leaves it where it is.
pub proof fn law_send_task_goes_step_by_step(
    state: SendState,
    input: SendInputModel,
    message: MessageModel,
)
    ensures
        ({
            let (next, action) = send_step_of(state, input);
            let from_mqtt = SendInputModel::Channel(Some(EventModel::MessageFromMqtt(message)));
            let from_matrix = SendInputModel::Channel(Some(EventModel::MessageFromMatrix(message)));
            &&& next == SendState::Stopped <==> state == SendState::Stopped || (state
                == SendState::Receiving && (input == SendInputModel::Channel(None) || input
                == SendInputModel::Channel(Some(EventModel::Exit))))
            &&& state == SendState::Receiving && input == from_mqtt ==> next == SendState::Sending
            &&& state == SendState::Receiving && input == from_matrix ==> next
                == SendState::Receiving
            &&& state == SendState::Receiving && input is Sent ==> next == SendState::Receiving
            &&& state == SendState::Sending ==> if input is Sent {
                next == SendState::Receiving
            } else {
                next == SendState::Sending
            }
            &&& action == Some(SendActionModel::SendText(message)) <==> state
                == SendState::Receiving && input == from_mqtt
            &&& action == Some(SendActionModel::CountFailure) <==> state == SendState::Sending
                && input == SendInputModel::Sent(Delivery::NotDelivered)
        }),
{
}

/// Until it receives the exit event or the channel fails, the task that sends to Matrix runs:
/// after any series of other inputs it sends, or is ready to send, what comes from the broker.
pub proof fn law_send_task_runs_until_the_exit(
    inputs: Seq<SendInputModel>,
    delivery: Delivery,
    message: MessageModel,
)
    requires
        forall|i: int|
            0 <= i < inputs.len() ==> #[trigger] inputs[i] != SendInputModel::Channel(None)
                && inputs[i] != SendInputModel::Channel(Some(EventModel::Exit)),
    ensures
        ({
            let state = send_state_after(inputs);
            let ready = send_step_of(state, SendInputModel::Sent(delivery)).0;
            &&& state == SendState::Receiving || state == SendState::Sending
            &&& send_step_of(
                ready,
                SendInputModel::Channel(Some(EventModel::MessageFromMqtt(message))),
            ) == (SendState::Sending, Some(SendActionModel::SendText(message)))
        }),
    decreases inputs.len(),
{
    if inputs.len() > 0 {
        let init = inputs.drop_last();
        assert forall|i: int| 0 <= i < init.len() implies #[trigger] init[i]
            != SendInputModel::Channel(None) && init[i] != SendInputModel::Channel(
            Some(EventModel::Exit),
        ) by {
            assert(init[i] == inputs[i]);
        }
        law_send_task_runs_until_the_exit(init, delivery, message);
        assert(inputs.last() == inputs[inputs.len() - 1]);
    }
}

/// Each state of the login follows from the one before, when its action has succeeded: the
/// session is restored if there is a session file, and otherwise the user logs in and the session
/// is saved; then comes the initial sync, and then the login is complete. A failed action fails
/// the login, unless it is complete.
pub proof fn law_login_goes_step_by_step(state: LoginState, outcome: LoginOutcome)
    ensures
        ({
            let next = login_next(state, outcome);
            let done = outcome is Done;
            &&& next != LoginState::Building
            &&& next == LoginState::Restoring <==> state == LoginState::Building && outcome == (
            LoginOutcome::Done { session_exists: true })
            &&& next == LoginState::LoggingIn <==> state == LoginState::Building && outcome == (
            LoginOutcome::Done { session_exists: false })
            &&& next == LoginState::Saving <==> state == LoginState::LoggingIn && done
            &&& next == LoginState::Syncing <==> done && (state == LoginState::Restoring || state
                == LoginState::Saving)
            &&& next == LoginState::Complete <==> state == LoginState::Complete || (state
                == LoginState::Syncing && done)
            &&& next == LoginState::Failed <==> state == LoginState::Failed || (!done && state
                != LoginState::Complete)
        }),
{
}

/// Of the user `@<localpart>:<server name>`, the client is built for the server, with its store
/// at `<storage>/sled`; the login is that of the localpart, with the password as it is given,
/// and under the device name `MQTT bridge`; and the session is kept in `<storage>/session.json`.
pub proof fn law_login_actions_carry_the_settings(
    localpart: Seq<char>,
    server_name: Seq<char>,
    password: Seq<char>,
    storage: Seq<Seq<u8>>,
)
    requires
        !localpart.contains(':'),
    ensures
        ({
            let username = seq!['@'] + localpart + seq![':'] + server_name;
            let building = login_action_of(LoginState::Building, username, password, storage);
            let restoring = login_action_of(LoginState::Restoring, username, password, storage);
            let logging_in = login_action_of(LoginState::LoggingIn, username, password, storage);
            let saving = login_action_of(LoginState::Saving, username, password, storage);
            &&& building == (LoginActionModel::BuildClient {
                server_name,
                store: storage + seq![encode_utf8(seq!['s', 'l', 'e', 'd'])],
            })
            &&& restoring == (LoginActionModel::RestoreSession {
                file: storage + seq![encode_utf8("session.json"@)],
            })
            &&& logging_in == (LoginActionModel::PasswordLogin {
                localpart,
                password,
                device_name: "MQTT bridge"@,
            })
            &&& saving == (LoginActionModel::SaveSession {
                file: storage + seq![encode_utf8("session.json"@)],
            })
        }),
{
    law_first_colon_parts_an_id('@', localpart, server_name);
    reveal_strlit("sled");
    assert("sled"@ =~= seq!['s', 'l', 'e', 'd']);
    assert(storage.push(encode_utf8("sled"@)) =~= storage + seq![encode_utf8("sled"@)]);
    assert(session_file_of(storage) =~= storage + seq![encode_utf8("session.json"@)]);
}

/// Whoever the user is, the login syncs in the state for it, tells of its completion that the
/// login and the initial sync are done, and gives up exactly if it has failed.
pub proof fn law_login_ends_with_what_happened(
    state: LoginState,
    username: Seq<char>,
    password: Seq<char>,
    storage: Seq<Seq<u8>>,
)
    ensures
        ({
            let action = login_action_of(state, username, password, storage);
            &&& action is BuildClient <==> state == LoginState::Building
            &&& action is PasswordLogin <==> state == LoginState::LoggingIn
            &&& action is RestoreSession <==> state == LoginState::Restoring
            &&& action is SaveSession <==> state == LoginState::Saving
            &&& action == LoginActionModel::InitialSync <==> state == LoginState::Syncing
            &&& action == (LoginActionModel::Complete {
                ready: ReadinessConditions::MatrixLoginAndInitialSyncComplete,
            }) <==> state == LoginState::Complete
            &&& action == LoginActionModel::GiveUp <==> state == LoginState::Failed
        }),
{
}

/// A model holds what the value holds, each part under its own name.
pub proof fn law_matrix_models_keep_every_part(
    message: Message,
    event: Event,
    delivery: Delivery,
    notice: Notice,
)
    ensures
        notice.deep_view().count.room_id == notice.count.room_id@,
        notice.deep_view().event == notice.event.deep_view(),
        SendInput::Channel(None).deep_view() == SendInputModel::Channel(None),
        SendInput::Channel(Some(event)).deep_view() == SendInputModel::Channel(
            Some(event.deep_view()),
        ),
        SendInput::Sent(delivery).deep_view() == SendInputModel::Sent(delivery),
        SendAction::CountFailure.deep_view() == SendActionModel::CountFailure,
        SendAction::SendText(message).deep_view() matches SendActionModel::SendText(m) && m.room
            == message.room@ && m.body == message.body@,
{
}

/// A model holds what the action of the login holds, each part under its own name, and a path by
/// its components.
pub proof fn law_login_models_keep_every_part(action: LoginAction)
    ensures
        action is InitialSync <==> action.deep_view() is InitialSync,
        action is GiveUp <==> action.deep_view() is GiveUp,
        action is BuildClient <==> action.deep_view() is BuildClient,
        action is RestoreSession <==> action.deep_view() is RestoreSession,
        action is PasswordLogin <==> action.deep_view() is PasswordLogin,
        action is SaveSession <==> action.deep_view() is SaveSession,
        action matches LoginAction::BuildClient { server_name, store } ==> action.deep_view()
            matches LoginActionModel::BuildClient { server_name: n, store: s } && n == server_name@
            && s == path_components(store),
        action matches LoginAction::RestoreSession { file } ==> action.deep_view()
            matches LoginActionModel::RestoreSession { file: f } && f == path_components(file),
        action matches LoginAction::PasswordLogin { localpart, password, device_name }
            ==> action.deep_view() matches LoginActionModel::PasswordLogin {
            localpart: l,
            password: p,
            device_name: d,
        } && l == localpart@ && p == password@ && d == device_name@,
        action matches LoginAction::SaveSession { file } ==> action.deep_view()
            matches LoginActionModel::SaveSession { file: f } && f == path_components(file),
        action matches LoginAction::Complete { ready } ==> action.deep_view()
            matches LoginActionModel::Complete { ready: r } && r == ready,
{
}

} // verus!
