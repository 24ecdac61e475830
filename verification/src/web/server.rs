use crate::text::{chars_of, parse_u16, parse_u8, parse_unsigned, split_chars, split_spec, views};
use vstd::prelude::*;

verus! {

/// The endpoint that validates a license key: the local one in development
/// builds, the public one otherwise.
pub fn license_endpoint(dev: bool) -> (endpoint: &'static str)
    ensures
        dev ==> endpoint@ == "http://127.0.0.1:3000/api/keygen-validate"@,
        !dev ==> endpoint@ == "https://seoder.io/api/keygen-validate"@,
{
    if dev {
        "http://127.0.0.1:3000/api/keygen-validate"
    } else {
        "https://seoder.io/api/keygen-validate"
    }
}

/// The JSON body that asks to validate `key` (the key is put in as it is).
pub fn license_body(key: &str) -> (body: String)
    ensures
        body@ == "{\"key\": \""@ + key@ + "\"}"@,
{
    let mut body = String::from_str("{\"key\": \"");
    body.append(key);
    body.append("\"}");
    body
}

/// Whether the validation service accepted the key: a success status with
/// at least one header.
pub fn license_accepted(success: bool, has_headers: bool) -> (valid: bool)
    ensures
        valid == (success && has_headers),
{
    success && has_headers
}

/// Whether a new connection asks the service about the stored key: only for
/// a stored key while no valid license is known.
pub fn needs_validation(stored_key: &str, valid: bool) -> (ask: bool)
    ensures
        ask == (stored_key@.len() > 0 && !valid),
{
    !stored_key.is_empty() && !valid
}

/// The address of the looping socket: the main socket's address with its
/// last character replaced by `9`.
pub open spec fn loop_address_spec(addr: Seq<char>) -> Seq<char> {
    if addr.len() == 0 {
        seq!['9']
    } else {
        addr.drop_last().push('9')
    }
}

/// The address of the looping socket.
pub fn loop_address(addr: &str) -> (l: String)
    ensures
        l@ == loop_address_spec(addr@),
{
    let cs = chars_of(addr);
    let mut l = String::new();
    let mut i: usize = 0;
    let n = if cs.len() > 0 {
        cs.len() - 1
    } else {
        0
    };
    while i < n
        invariant
            i <= n,
            n <= cs.len(),
            cs@ == addr@,
            l@ == cs@.take(i as int),
        decreases n - i,
    {
        l.push(cs[i]);
        i = i + 1;
        assert(l@ =~= cs@.take(i as int));
    }
    l.push('9');
    assert(cs@.len() > 0 ==> cs@.take(n as int) =~= cs@.drop_last());
    assert(l@ =~= loop_address_spec(addr@));
    l
}

/// The panel's HTTP address from its dotted text: the first four of the
/// dot-separated parts, each a `u8`; `None` when a part is no `u8` or there
/// are fewer than four (where the server fails to start).
pub open spec fn client_address_spec(text: Seq<char>) -> Option<(u8, u8, u8, u8)> {
    let parts = split_spec(text, '.');
    if parts.len() >= 4 && forall|i: int|
        0 <= i < parts.len() ==> parse_unsigned(#[trigger] parts[i], u8::MAX as nat) is Some {
        Some(
            (
                parse_unsigned(parts[0], u8::MAX as nat).unwrap() as u8,
                parse_unsigned(parts[1], u8::MAX as nat).unwrap() as u8,
                parse_unsigned(parts[2], u8::MAX as nat).unwrap() as u8,
                parse_unsigned(parts[3], u8::MAX as nat).unwrap() as u8,
            ),
        )
    } else {
        None
    }
}

/// Reads the panel's HTTP address.
pub fn client_address(text: &str) -> (addr: Option<(u8, u8, u8, u8)>)
    ensures
        addr == client_address_spec(text@),
{
    let cs = chars_of(text);
    let parts = split_chars(&cs, '.');
    let mut octets: Vec<u8> = Vec::new();
    let mut i: usize = 0;
    while i < parts.len()
        invariant
            i <= parts.len(),
            views(parts@) == split_spec(text@, '.'),
            octets@.len() == i,
            forall|j: int|
                0 <= j < i ==> parse_unsigned(#[trigger] views(parts@)[j], u8::MAX as nat) == Some(
                    octets@[j] as nat,
                ),
        decreases parts.len() - i,
    {
        assert(views(parts@)[i as int] == parts[i as int]@);
        match parse_u8(parts[i].as_slice()) {
            Some(o) => {
                octets.push(o);
            },
            None => {
                return None;
            },
        }
        i = i + 1;
    }
    if octets.len() < 4 {
        return None;
    }
    Some((octets[0], octets[1], octets[2], octets[3]))
}

/// The panel's HTTP port: the given text as a `u16`, or 3000.
pub fn client_port(text: &str) -> (port: u16)
    ensures
        port == (match parse_unsigned(text@, u16::MAX as nat) {
            Some(n) => n as u16,
            None => 3000,
        }),
{
    let cs = chars_of(text);
    match parse_u16(cs.as_slice()) {
        Some(p) => p,
        None => 3000,
    }
}

} // verus!
