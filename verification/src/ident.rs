//! Matrix identifiers: `<sigil><localpart>:<server name>`.

use matrix_sdk::ruma;
use vstd::arithmetic::power::{lemma_pow0, lemma_pow1, lemma_pow_adds, pow};
use vstd::prelude::*;
use vstd::utf8::encode_utf8;

verus! {

/// Why a string is not a Matrix identifier.
#[derive(Clone, Copy, Debug, PartialEq, Eq, Structural)]
pub enum IdError {
    /// The identifier is longer than 255 bytes.
    MaximumLengthExceeded,
    /// The identifier does not begin with its sigil.
    MissingLeadingSigil,
    /// No colon parts the localpart from the server name.
    MissingColon,
    /// What follows the first colon is not a server name.
    InvalidServerName,
    /// A reason that no identifier of this library is refused for.
    Other,
}

/// Whether `std::net::Ipv6Addr` can be read from a text, which
/// `ruma_identifiers_validation::server_name::validate` asks of what stands in brackets.
pub uninterp spec fn ipv6_address_valid(text: Seq<char>) -> bool;

pub open spec fn is_digit(c: char) -> bool {
    '0' <= c <= '9'
}

pub open spec fn is_letter(c: char) -> bool {
    'a' <= c <= 'z' || 'A' <= c <= 'Z'
}

/// Whether a text holds ASCII letters, digits, hyphens and dots alone, as a host name does.
pub open spec fn is_host_text(text: Seq<char>) -> bool {
    forall|i: int|
        0 <= i < text.len() ==> {
            let c = #[trigger] text[i];
            is_letter(c) || is_digit(c) || c == '-' || c == '.'
        }
}

/// Whether a text is an IPv6 address: hexadecimal digits, colons and dots, in a valid form.
pub open spec fn is_ipv6_address(text: Seq<char>) -> bool {
    &&& forall|i: int|
        0 <= i < text.len() ==> {
            let c = #[trigger] text[i];
            is_digit(c) || 'a' <= c <= 'f' || 'A' <= c <= 'F' || c == ':' || c == '.'
        }
    &&& ipv6_address_valid(text)
}

/// The number that decimal digits stand for.
pub open spec fn decimal(digits: Seq<char>) -> int
    decreases digits.len(),
{
    if digits.len() == 0 {
        0
    } else {
        decimal(digits.drop_last()) * 10 + (digits.last() as int - '0' as int)
    }
}

/// A text without the plus sign that it may begin with.
pub open spec fn without_plus(text: Seq<char>) -> Seq<char> {
    if text.len() > 0 && text[0] == '+' {
        text.skip(1)
    } else {
        text
    }
}

pub open spec fn are_digits(text: Seq<char>) -> bool {
    forall|i: int| 0 <= i < text.len() ==> is_digit(#[trigger] text[i])
}

/// Whether a text is a port: digits, perhaps after a plus sign, that stand for a number of 16
/// bits.
pub open spec fn is_port(text: Seq<char>) -> bool {
    &&& without_plus(text).len() > 0
    &&& are_digits(without_plus(text))
    &&& decimal(without_plus(text)) <= 65535
}

/// Whether nothing, or a colon and a port, stands behind the host.
pub open spec fn is_port_suffix(text: Seq<char>) -> bool {
    text.len() == 0 || (text[0] == ':' && is_port(text.skip(1)))
}

/// What stands between the brackets with which a server name begins.
pub open spec fn address_of(name: Seq<char>) -> Seq<char> {
    name.subrange(1, name.index_of_first(']')->0)
}

/// Where the host of a server name ends, that does not begin with a bracket.
pub open spec fn host_end(name: Seq<char>) -> int {
    match name.index_of_first(':') {
        Some(i) => i,
        None => name.len() as int,
    }
}

/// Whether a text is the name of a server: a host name, or an IPv6 address in brackets, and
/// perhaps a port. A port may stand alone.
pub open spec fn is_server_name(name: Seq<char>) -> bool {
    if name.len() == 0 {
        false
    } else if name[0] == '[' {
        match name.index_of_first(']') {
            Some(i) => is_ipv6_address(address_of(name)) && is_port_suffix(name.skip(i + 1)),
            None => false,
        }
    } else {
        is_host_text(name.take(host_end(name))) && is_port_suffix(name.skip(host_end(name)))
    }
}

/// What stands before the first colon, without the sigil.
pub open spec fn localpart_of(id: Seq<char>) -> Seq<char>
    recommends
        id.contains(':'),
{
    id.subrange(1, id.index_of_first(':')->0)
}

/// What stands behind the first colon.
pub open spec fn server_name_of(id: Seq<char>) -> Seq<char>
    recommends
        id.contains(':'),
{
    id.skip(id.index_of_first(':')->0 + 1)
}

/// Whether a string is an identifier with the given sigil, and if not, why.
pub open spec fn id_verdict(text: Seq<char>, sigil: char) -> Result<(), IdError> {
    if encode_utf8(text).len() > 255 {
        Err(IdError::MaximumLengthExceeded)
    } else if text.len() == 0 || text[0] != sigil {
        Err(IdError::MissingLeadingSigil)
    } else if !text.contains(':') {
        Err(IdError::MissingColon)
    } else if !is_server_name(server_name_of(text)) {
        Err(IdError::InvalidServerName)
    } else {
        Ok(())
    }
}

pub open spec fn is_room_id(text: Seq<char>) -> bool {
    id_verdict(text, '!') is Ok
}

pub open spec fn is_user_id(text: Seq<char>) -> bool {
    id_verdict(text, '@') is Ok
}

/// Calls `ruma::RoomId::parse`, and hands the room ID out as a string.
///
/// Claimed of it: the text is refused when it is longer than 255 bytes, lacks the leading `!`,
/// has no colon, or what follows the first colon is not a server name, tested in this order;
/// otherwise the room ID is the text itself. Of an address in brackets it is not said which are
/// valid, only that they hold hexadecimal digits, colons and dots.
#[verifier::external_body]
fn ruma_room_id(text: &str) -> (r: Result<String, IdError>)
    ensures
        match r {
            Ok(id) => id@ == text@ && id_verdict(text@, '!') is Ok,
            Err(e) => id_verdict(text@, '!') == Err::<(), IdError>(e),
        },
        r is Ok && server_name_of(text@)[0] == '[' ==> ipv6_address_valid(
            address_of(server_name_of(text@)),
        ),
{
    match ruma::RoomId::parse(text) {
        Ok(id) => Ok(id.to_string()),
        Err(ruma::IdParseError::MaximumLengthExceeded) => Err(IdError::MaximumLengthExceeded),
        Err(ruma::IdParseError::MissingLeadingSigil) => Err(IdError::MissingLeadingSigil),
        Err(ruma::IdParseError::MissingColon) => Err(IdError::MissingColon),
        Err(ruma::IdParseError::InvalidServerName) => Err(IdError::InvalidServerName),
        Err(_) => Err(IdError::Other),
    }
}

/// Calls `ruma::UserId::parse`, and hands out the localpart and the server name of the user ID.
///
/// Claimed of it: the text is refused on the grounds on which a room ID is, with `@` for `!`.
/// Any localpart is accepted, as `ruma` is built with its `compat` feature. The localpart is
/// what stands between the `@` and the first colon, and the server name is the rest.
#[verifier::external_body]
fn ruma_user_id(text: &str) -> (r: Result<(String, String), IdError>)
    ensures
        match r {
            Ok((localpart, server_name)) => {
                &&& id_verdict(text@, '@') is Ok
                &&& localpart@ == localpart_of(text@)
                &&& server_name@ == server_name_of(text@)
            },
            Err(e) => id_verdict(text@, '@') == Err::<(), IdError>(e),
        },
        r is Ok && server_name_of(text@)[0] == '[' ==> ipv6_address_valid(
            address_of(server_name_of(text@)),
        ),
{
    match ruma::UserId::parse(text) {
        Ok(id) => Ok((id.localpart().to_string(), id.server_name().to_string())),
        Err(ruma::IdParseError::MaximumLengthExceeded) => Err(IdError::MaximumLengthExceeded),
        Err(ruma::IdParseError::MissingLeadingSigil) => Err(IdError::MissingLeadingSigil),
        Err(ruma::IdParseError::MissingColon) => Err(IdError::MissingColon),
        Err(ruma::IdParseError::InvalidServerName) => Err(IdError::InvalidServerName),
        Err(_) => Err(IdError::Other),
    }
}

/// The ID of a Matrix room.
#[derive(Debug)]
pub struct RoomId {
    text: String,
}

impl View for RoomId {
    type V = Seq<char>;

    closed spec fn view(&self) -> Seq<char> {
        self.text@
    }
}

impl DeepView for RoomId {
    type V = Seq<char>;

    open spec fn deep_view(&self) -> Seq<char> {
        self@
    }
}

impl RoomId {
    #[verifier::type_invariant]
    spec fn inv(self) -> bool {
        is_room_id(self.text@)
    }

    /// Reads a room ID. The ID is the text itself, or the text is refused with the reason.
    pub fn parse(text: &str) -> (r: Result<RoomId, IdError>)
        ensures
            match r {
                Ok(id) => id@ == text@ && is_room_id(id@),
                Err(e) => id_verdict(text@, '!') == Err::<(), IdError>(e),
            },
    {
        match ruma_room_id(text) {
            Ok(text) => Ok(RoomId { text }),
            Err(e) => Err(e),
        }
    }

    pub fn as_str(&self) -> (r: &str)
        ensures
            r@ == self@,
            is_room_id(self@),
    {
        proof {
            use_type_invariant(self);
        }
        self.text.as_str()
    }

    /// Tells whether the ID is the given text.
    pub fn has_text(&self, text: &String) -> (r: bool)
        ensures
            r == (self@ == text@),
    {
        self.text == *text
    }
}

impl Clone for RoomId {
    fn clone(&self) -> (r: Self)
        ensures
            r@ == self@,
    {
        proof {
            use_type_invariant(self);
        }
        RoomId { text: self.text.clone() }
    }
}

/// The ID of a Matrix user.
#[derive(Debug)]
pub struct UserId {
    text: String,
    localpart: String,
    server_name: String,
}

impl View for UserId {
    type V = Seq<char>;

    closed spec fn view(&self) -> Seq<char> {
        self.text@
    }
}

impl UserId {
    #[verifier::type_invariant]
    spec fn inv(self) -> bool {
        &&& is_user_id(self.text@)
        &&& self.localpart@ == localpart_of(self.text@)
        &&& self.server_name@ == server_name_of(self.text@)
    }

    /// Reads a user ID. The ID is the text itself, or the text is refused with the reason.
    pub fn parse(text: &str) -> (r: Result<UserId, IdError>)
        ensures
            match r {
                Ok(id) => id@ == text@ && is_user_id(id@),
                Err(e) => id_verdict(text@, '@') == Err::<(), IdError>(e),
            },
    {
        match ruma_user_id(text) {
            Ok((localpart, server_name)) => Ok(
                UserId { text: text.to_owned(), localpart, server_name },
            ),
            Err(e) => Err(e),
        }
    }

    pub fn as_str(&self) -> (r: &str)
        ensures
            r@ == self@,
            is_user_id(self@),
    {
        proof {
            use_type_invariant(self);
        }
        self.text.as_str()
    }

    pub fn localpart(&self) -> (r: &str)
        ensures
            r@ == localpart_of(self@),
    {
        proof {
            use_type_invariant(self);
        }
        self.localpart.as_str()
    }

    pub fn server_name(&self) -> (r: &str)
        ensures
            r@ == server_name_of(self@),
    {
        proof {
            use_type_invariant(self);
        }
        self.server_name.as_str()
    }
}

/// An identifier is its sigil, its localpart, a colon and its server name, and nothing else:
/// the two parts determine it.
pub proof fn law_id_is_its_parts(text: Seq<char>, sigil: char)
    requires
        sigil == '!' || sigil == '@',
        id_verdict(text, sigil) is Ok,
    ensures
        text == seq![sigil] + localpart_of(text) + seq![':'] + server_name_of(text),
        !localpart_of(text).contains(':'),
        is_server_name(server_name_of(text)),
{
    text.index_of_first_ensures(':');
    assert(text =~= seq![sigil] + localpart_of(text) + seq![':'] + server_name_of(text));
}

/// A sigil, a localpart without a colon, a colon and a server name make an identifier, if they
/// are not too long.
pub proof fn law_parts_make_an_id(sigil: char, localpart: Seq<char>, server_name: Seq<char>)
    requires
        sigil == '!' || sigil == '@',
        !localpart.contains(':'),
        is_server_name(server_name),
        encode_utf8(seq![sigil] + localpart + seq![':'] + server_name).len() <= 255,
    ensures
        id_verdict(seq![sigil] + localpart + seq![':'] + server_name, sigil) is Ok,
        localpart_of(seq![sigil] + localpart + seq![':'] + server_name) == localpart,
        server_name_of(seq![sigil] + localpart + seq![':'] + server_name) == server_name,
{
    let text = seq![sigil] + localpart + seq![':'] + server_name;
    let n = localpart.len() as int + 1;
    assert(text[n] == ':');
    text.index_of_first_ensures(':');
    let i = text.index_of_first(':')->0;
    if i < n {
        assert(text[i] == localpart[i - 1]);
    }
    assert(localpart_of(text) =~= localpart);
    assert(server_name_of(text) =~= server_name);
}

/// A host name is a server name, and so is a host name with a port.
pub proof fn law_host_is_a_server_name(host: Seq<char>, port: Seq<char>)
    requires
        host.len() > 0,
        is_host_text(host),
        is_port(port),
    ensures
        is_server_name(host),
        is_server_name(host + seq![':'] + port),
{
    assert(host[0] != '[');
    host.index_of_first_ensures(':');
    if host.contains(':') {
        assert(host[host.index_of_first(':')->0] == ':');
    }
    assert(host.take(host.len() as int) =~= host);
    let name = host + seq![':'] + port;
    let n = host.len() as int;
    assert(name[0] == host[0]);
    assert(name[n] == ':');
    name.index_of_first_ensures(':');
    let i = name.index_of_first(':')->0;
    if i < n {
        assert(name[i] == host[i]);
    }
    assert(name.take(n) =~= host);
    assert(name.skip(n).skip(1) =~= port);
}

/// No server name holds a slash or a space.
pub proof fn law_server_name_is_one_word(name: Seq<char>)
    requires
        is_server_name(name),
    ensures
        !name.contains('/'),
        !name.contains(' '),
{
    name.index_of_first_ensures(']');
    name.index_of_first_ensures(':');
    let end = if name[0] == '[' {
        name.index_of_first(']')->0 + 1
    } else {
        host_end(name)
    };
    let suffix = name.skip(end);
    assert forall|i: int| 0 <= i < name.len() implies name[i] != '/' && name[i] != ' ' by {
        if i >= end {
            assert(suffix[i - end] == name[i]);
            if i > end {
                let port = suffix.skip(1);
                assert(port[i - end - 1] == name[i]);
                if port[0] == '+' && i > end + 1 {
                    assert(without_plus(port)[i - end - 2] == name[i]);
                }
            }
        } else if name[0] == '[' {
            if 0 < i < end - 1 {
                assert(address_of(name)[i - 1] == name[i]);
            }
        } else {
            assert(name.take(end)[i] == name[i]);
        }
    }
}

/// A text is refused as an identifier for the first of these reasons that it gives: it is longer
/// than 255 bytes, it does not begin with the sigil, or it has no colon. No identifier is refused
/// for a reason without a name.
pub proof fn law_refusal_names_the_reason(text: Seq<char>, sigil: char)
    ensures
        id_verdict(text, sigil) == Err::<(), IdError>(IdError::MaximumLengthExceeded) <==> encode_utf8(
            text,
        ).len() > 255,
        id_verdict(text, sigil) == Err::<(), IdError>(IdError::MissingLeadingSigil) <==> {
            &&& encode_utf8(text).len() <= 255
            &&& text.len() == 0 || text[0] != sigil
        },
        id_verdict(text, sigil) == Err::<(), IdError>(IdError::MissingColon) <==> {
            &&& encode_utf8(text).len() <= 255
            &&& text.len() > 0 && text[0] == sigil
            &&& forall|i: int| 0 <= i < text.len() ==> #[trigger] text[i] != ':'
        },
        id_verdict(text, sigil) != Err::<(), IdError>(IdError::Other),
{
    if text.len() > 0 && text.contains(':') {
        let i = choose|i: int| 0 <= i < text.len() && text[i] == ':';
        assert(text[i] == ':');
    }
}

/// The first colon ends the localpart and begins the server name, whatever stands behind it.
pub proof fn law_first_colon_parts_an_id(
    sigil: char,
    localpart: Seq<char>,
    server_name: Seq<char>,
)
    requires
        sigil != ':',
        !localpart.contains(':'),
    ensures
        localpart_of(seq![sigil] + localpart + seq![':'] + server_name) == localpart,
        server_name_of(seq![sigil] + localpart + seq![':'] + server_name) == server_name,
        encode_utf8(seq![sigil] + localpart + seq![':'] + server_name).len() <= 255 ==> {
            &&& id_verdict(seq![sigil] + localpart + seq![':'] + server_name, sigil) is Ok
                <==> is_server_name(server_name)
            &&& id_verdict(seq![sigil] + localpart + seq![':'] + server_name, sigil) == Err::<
                (),
                IdError,
            >(IdError::InvalidServerName) <==> !is_server_name(server_name)
        },
{
    let text = seq![sigil] + localpart + seq![':'] + server_name;
    let n = localpart.len() as int + 1;
    assert(text[n] == ':');
    text.index_of_first_ensures(':');
    let i = text.index_of_first(':')->0;
    if i < n {
        if i > 0 {
            assert(text[i] == localpart[i - 1]);
        }
    }
    assert(localpart_of(text) =~= localpart);
    assert(server_name_of(text) =~= server_name);
}

/// A room ID begins with `!` and a user ID with `@`.
pub proof fn law_sigil_tells_rooms_and_users_apart(text: Seq<char>)
    ensures
        is_room_id(text) ==> text[0] == '!',
        is_user_id(text) ==> text[0] == '@',
        is_room_id(text) <==> id_verdict(text, '!') is Ok,
        is_user_id(text) <==> id_verdict(text, '@') is Ok,
{
}

/// Digits that stand behind others count by the power of ten that makes room for them.
pub proof fn law_decimal_of_joined_digits(a: Seq<char>, b: Seq<char>)
    ensures
        decimal(a + b) == decimal(a) * pow(10, b.len()) + decimal(b),
        b.len() == 1 ==> decimal(b) == b[0] as int - '0' as int,
    decreases b.len(),
{
    if b.len() == 0 {
        assert(a + b =~= a);
        lemma_pow0(10);
        assert(decimal(a) * 1 == decimal(a));
    } else {
        let init = b.drop_last();
        law_decimal_of_joined_digits(a, init);
        assert((a + b).drop_last() =~= a + init);
        assert((a + b).last() == b.last());
        lemma_pow1(10);
        lemma_pow_adds(10, init.len(), 1);
        let p = pow(10, init.len());
        assert(pow(10, b.len()) == p * 10);
        let x = decimal(a);
        assert((x * p) * 10 == x * (p * 10)) by (nonlinear_arith);
        if b.len() == 1 {
            assert(init =~= Seq::empty());
        }
    }
}

/// Digits are a port if and only if there is one at least and their number fits 16 bits, and so
/// are the same digits behind a plus sign. A port holds nothing else.
pub proof fn law_port_is_a_number(digits: Seq<char>, text: Seq<char>)
    requires
        forall|i: int| 0 <= i < digits.len() ==> '0' <= #[trigger] digits[i] <= '9',
    ensures
        is_port(digits) <==> digits.len() > 0 && decimal(digits) < 65536,
        is_port(seq!['+'] + digits) <==> digits.len() > 0 && decimal(digits) < 65536,
        is_port(text) ==> forall|i: int|
            0 <= i < text.len() ==> '0' <= #[trigger] text[i] <= '9' || (i == 0 && text[i] == '+'),
{
    let signed = seq!['+'] + digits;
    assert(signed.skip(1) =~= digits);
    assert(without_plus(signed) =~= digits);
    if digits.len() > 0 {
        assert('0' <= digits[0] <= '9');
    }
    assert(without_plus(digits) =~= digits);
    if is_port(text) {
        assert forall|i: int| 0 <= i < text.len() implies '0' <= #[trigger] text[i] <= '9' || (i == 0
            && text[i] == '+') by {
            if text[0] == '+' {
                if i > 0 {
                    assert(without_plus(text)[i - 1] == text[i]);
                }
            } else {
                assert(without_plus(text)[i] == text[i]);
            }
        }
    }
}

/// Letters, digits, hyphens and dots make a server name, and with a colon behind them, a server
/// name if and only if a port follows.
pub proof fn law_host_takes_a_port(host: Seq<char>, port: Seq<char>)
    requires
        forall|i: int|
            0 <= i < host.len() ==> {
                let c = #[trigger] host[i];
                'a' <= c <= 'z' || 'A' <= c <= 'Z' || '0' <= c <= '9' || c == '-' || c == '.'
            },
    ensures
        is_server_name(host) <==> host.len() > 0,
        is_server_name(host + seq![':'] + port) <==> is_port(port),
{
    host.index_of_first_ensures(':');
    if host.contains(':') {
        assert(host[host.index_of_first(':')->0] == ':');
    }
    assert(host.take(host.len() as int) =~= host);
    if host.len() > 0 {
        assert(host[0] != '[');
    }
    let name = host + seq![':'] + port;
    let n = host.len() as int;
    if n > 0 {
        assert(name[0] == host[0]);
    }
    assert(name[n] == ':');
    name.index_of_first_ensures(':');
    let i = name.index_of_first(':')->0;
    if i < n {
        assert(name[i] == host[i]);
    }
    assert(name.take(n) =~= host);
    assert(name.skip(n).skip(1) =~= port);
}

/// A server name that does not begin with a bracket is made of letters, digits, hyphens and dots,
/// up to its end or to a colon that a port follows.
pub proof fn law_server_name_is_a_host_and_a_port(name: Seq<char>)
    requires
        is_server_name(name),
        name[0] != '[',
    ensures
        exists|n: int|
            0 <= n <= name.len() && (forall|i: int|
                0 <= i < n ==> {
                    let c = #[trigger] name[i];
                    'a' <= c <= 'z' || 'A' <= c <= 'Z' || '0' <= c <= '9' || c == '-' || c == '.'
                }) && (n == name.len() || (name[n] == ':' && is_port(
                #[trigger] name.skip(n + 1),
            ))),
{
    name.index_of_first_ensures(':');
    let n = host_end(name);
    assert forall|i: int| 0 <= i < n implies ({
        let c = #[trigger] name[i];
        'a' <= c <= 'z' || 'A' <= c <= 'Z' || '0' <= c <= '9' || c == '-' || c == '.'
    }) by {
        assert(name.take(n)[i] == name[i]);
    }
    if n < name.len() {
        assert(name.skip(n).skip(1) =~= name.skip(n + 1));
    }
    assert(name.skip(n + 1) == name.skip(n + 1));
}

/// What stands between brackets is a server name if and only if it is an IPv6 address, and with a
/// colon behind the brackets, if and only if a port follows too. Nothing but a colon may follow
/// the brackets, and what begins with a bracket and does not close it is no server name.
pub proof fn law_brackets_hold_an_address(address: Seq<char>, port: Seq<char>, other: Seq<char>)
    requires
        !address.contains(']'),
        other.len() > 0,
        other[0] != ':',
    ensures
        is_server_name(seq!['['] + address + seq![']']) <==> is_ipv6_address(address),
        is_server_name(seq!['['] + address + seq![']', ':'] + port) <==> is_ipv6_address(address)
            && is_port(port),
        !is_server_name(seq!['['] + address + seq![']'] + other),
        !is_server_name(seq!['['] + address),
        is_ipv6_address(address) <==> {
            &&& ipv6_address_valid(address)
            &&& forall|i: int|
                0 <= i < address.len() ==> {
                    let c = #[trigger] address[i];
                    'a' <= c <= 'f' || 'A' <= c <= 'F' || '0' <= c <= '9' || c == ':' || c == '.'
                }
        },
{
    lemma_closing_bracket(address, seq![]);
    lemma_closing_bracket(address, seq![':'] + port);
    lemma_closing_bracket(address, other);
    let bare = seq!['['] + address + seq![']'];
    let with_port = seq!['['] + address + seq![']', ':'] + port;
    let open = seq!['['] + address;
    assert(bare =~= seq!['['] + address + seq![']'] + seq![]);
    assert(with_port =~= seq!['['] + address + seq![']'] + (seq![':'] + port));
    assert((seq![':'] + port).skip(1) =~= port);
    open.index_of_first_ensures(']');
    if open.contains(']') {
        let i = choose|i: int| 0 <= i < open.len() && open[i] == ']';
        assert(address[i - 1] == ']');
    }
}

proof fn lemma_closing_bracket(address: Seq<char>, suffix: Seq<char>)
    requires
        !address.contains(']'),
    ensures
        is_server_name(seq!['['] + address + seq![']'] + suffix) <==> is_ipv6_address(address)
            && is_port_suffix(suffix),
{
    let name = seq!['['] + address + seq![']'] + suffix;
    let n = address.len() as int + 1;
    assert(name[n] == ']');
    name.index_of_first_ensures(']');
    let i = name.index_of_first(']')->0;
    if 0 < i < n {
        assert(name[i] == address[i - 1]);
    }
    assert(address_of(name) =~= address);
    assert(name.skip(n + 1) =~= suffix);
}

/// A text that was read as an identifier is that identifier, letter for letter, and a text is
/// read if and only if it is one.
pub proof fn law_identifier_is_read_as_it_stands(
    text: &str,
    room: Result<RoomId, IdError>,
    user: Result<UserId, IdError>,
)
    requires
        call_ensures(RoomId::parse, (text,), room),
        call_ensures(UserId::parse, (text,), user),
    ensures
        room is Ok <==> is_room_id(text@),
        room is Ok ==> room->Ok_0@ == text@,
        room is Err ==> id_verdict(text@, '!') == Err::<(), IdError>(room->Err_0),
        user is Ok <==> is_user_id(text@),
        user is Ok ==> user->Ok_0@ == text@,
        user is Err ==> id_verdict(text@, '@') == Err::<(), IdError>(user->Err_0),
{
}

} // verus!
