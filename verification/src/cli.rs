//! The settings of the bridge.
//!
//! What is said of paths here is said of Unix paths.

use crate::ident::RoomId;
use std::path::PathBuf;
use vstd::prelude::*;
use vstd::utf8::encode_utf8;

verus! {

/// `std::path::PathBuf`, a path of the file system.
#[verifier::external_type_specification]
#[verifier::external_body]
pub struct ExPathBuf(PathBuf);

/// The components of a path, as `std::path::Path::components` hands them out, each by its
/// encoded bytes.
pub uninterp spec fn path_components(path: PathBuf) -> Seq<Seq<u8>>;

/// Whether a text is one plain component of a path: letters, digits and dots, and no dot in
/// front.
pub open spec fn is_file_name(name: Seq<char>) -> bool {
    &&& name.len() > 0
    &&& name[0] != '.'
    &&& forall|i: int|
        0 <= i < name.len() ==> {
            let c = #[trigger] name[i];
            'a' <= c <= 'z' || 'A' <= c <= 'Z' || '0' <= c <= '9' || c == '.'
        }
}

/// Calls `std::path::Path::join`.
///
/// Claimed of it: a file name that is joined to a path becomes its last component, and the
/// components before it are those of the path.
#[verifier::external_body]
fn join_path(dir: &PathBuf, name: &str) -> (path: PathBuf)
    requires
        is_file_name(name@),
    ensures
        path_components(path) == path_components(*dir).push(encode_utf8(name@)),
{
    dir.join(name)
}

/// The settings, as they are given on the command line.
#[derive(Debug)]
pub struct Cli {
    /// Address of MQTT broker to connect to
    pub mqtt_broker: String,
    /// Client ID to use when connecting to MQTT broker
    pub mqtt_client_id: String,
    /// MQTT QoS, must be 0, 1 or 2
    pub mqtt_qos: i32,
    /// MQTT username
    pub mqtt_username: String,
    /// MQTT password
    pub mqtt_password: String,
    /// Prefix for MQTT topics (<PREFIX>/<ROOM ID>...)
    pub mqtt_topic_prefix: String,
    /// Matrix username
    pub matrix_username: String,
    /// Matrix password
    pub matrix_password: String,
    /// Matrix storage directory
    pub matrix_storage: PathBuf,
    /// IDs of Matrix rooms to interact with
    pub matrix_rooms: Vec<RoomId>,
    /// Address to listen on for observability/metrics endpoints
    pub observability_address: String,
}

impl Cli {
    /// Returns the path of the state store: `sled` in the storage directory.
    pub fn matrix_sled_path(&self) -> (path: PathBuf)
        ensures
            path_components(path) == path_components(self.matrix_storage).push(
                encode_utf8("sled"@),
            ),
    {
        proof {
            reveal_strlit("sled");
        }
        join_path(&self.matrix_storage, "sled")
    }

    /// Returns the path of the session file: `session.json` in the storage directory.
    pub fn matrix_session_filename(&self) -> (path: PathBuf)
        ensures
            path_components(path) == path_components(self.matrix_storage).push(
                encode_utf8("session.json"@),
            ),
    {
        proof {
            reveal_strlit("session.json");
        }
        join_path(&self.matrix_storage, "session.json")
    }
}

/// The state store and the session file are different paths, both in the storage directory.
pub proof fn law_storage_paths_differ(storage: PathBuf, sled: PathBuf, session: PathBuf)
    requires
        path_components(sled) == path_components(storage).push(encode_utf8("sled"@)),
        path_components(session) == path_components(storage).push(encode_utf8("session.json"@)),
    ensures
        sled != session,
{
    reveal_strlit("sled");
    reveal_strlit("session.json");
    if sled == session {
        assert(path_components(sled).last() == encode_utf8("sled"@));
        vstd::utf8::encode_utf8_decode_utf8("sled"@);
        vstd::utf8::encode_utf8_decode_utf8("session.json"@);
    }
}

/// The state store is `sled`, and the session file `session.json`, directly in the storage
/// directory.
pub proof fn law_storage_paths_are_in_the_storage(args: Cli, sled: PathBuf, session: PathBuf)
    requires
        call_ensures(Cli::matrix_sled_path, (&args,), sled),
        call_ensures(Cli::matrix_session_filename, (&args,), session),
    ensures
        path_components(sled).drop_last() == path_components(args.matrix_storage),
        path_components(sled).last() == encode_utf8(seq!['s', 'l', 'e', 'd']),
        path_components(session).drop_last() == path_components(args.matrix_storage),
        path_components(session).last() == encode_utf8("session.json"@),
{
    reveal_strlit("sled");
    assert("sled"@ =~= seq!['s', 'l', 'e', 'd']);
    assert(path_components(sled).drop_last() =~= path_components(args.matrix_storage));
    assert(path_components(session).drop_last() =~= path_components(args.matrix_storage));
}

} // verus!
