//! Handing files over to the instance that runs already.
use std::collections::hash_map::DefaultHasher;
use std::hash::Hasher;
use vstd::prelude::*;
use vstd::std_specs::hash::*;
use vstd::utf8;

use crate::number;
use crate::number::hex_text;
use crate::text;

verus! {

/// How long a message may be.
pub const MAX_MESSAGE_BYTES: usize = 1048576;

/// What the user's pipe is told apart by: the domain and the name.
pub open spec fn identity(domain: Seq<char>, user: Seq<char>) -> Seq<char> {
    domain + "\\"@ + user
}

/// The digest of a text: that of its bytes, and of one byte that no text holds.
pub open spec fn text_digest(text: Seq<char>) -> u64 {
    DefaultHasher::spec_finish(seq![utf8::encode_utf8(text), seq![0xffu8]])
}

/// The name of the pipe of a user.
pub fn pipe_name(domain: &str, user: &str) -> (name: String)
    ensures
        name@ == "\\\\.\\pipe\\GiantFileExchange.Commands."@ + number::hex(
            text_digest(identity(domain@, user@)) as nat,
            16,
        ),
{
    let identity = domain.to_owned().concat("\\").concat(user);
    let mut hasher = DefaultHasher::new();
    hasher.write(identity.as_str().as_bytes());
    let end: [u8; 1] = [0xff];
    hasher.write(end.as_slice());
    proof {
        assert(end@ =~= seq![0xffu8]);
        assert(hasher@ =~= seq![utf8::encode_utf8(identity@), seq![0xffu8]]);
    }
    "\\\\.\\pipe\\GiantFileExchange.Commands.".to_owned().concat(
        hex_text(hasher.finish(), 16).as_str(),
    )
}

/// A list of texts in JSON: what `serde_json::to_vec` makes of it.
pub uninterp spec fn json_of_texts(list: Seq<Seq<char>>) -> Seq<u8>;

/// The list of texts that `message` writes down in JSON, where it does: what
/// `serde_json::from_slice` makes of it.
pub uninterp spec fn texts_of_json(message: Seq<u8>) -> Option<Seq<Seq<char>>>;

/// `serde_json::to_vec` of a list of strings, which never fails. Claims that the
/// bytes are settled by the texts, and that they read back as these.
#[verifier::external_body]
fn texts_to_json(list: &Vec<String>) -> (message: Vec<u8>)
    ensures
        message@ == json_of_texts(text::texts(list@)),
        texts_of_json(message@) == Some(text::texts(list@)),
{
    serde_json::to_vec(list).unwrap_or_default()
}

/// `serde_json::from_slice` to a list of strings. Claims that the outcome is
/// settled by the bytes.
#[verifier::external_body]
fn json_to_texts(message: &Vec<u8>) -> (list: Option<Vec<String>>)
    ensures
        match list {
            Some(found) => texts_of_json(message@) == Some(text::texts(found@)),
            None => texts_of_json(message@) is None,
        },
{
    serde_json::from_slice::<Vec<String>>(message).ok()
}

/// More paths than a message can hold.
#[derive(Debug, Clone, Copy, PartialEq, Eq, Structural)]
pub struct TooManyPaths;

impl TooManyPaths {
    /// What the user reads.
    pub fn message(self) -> (message: String)
        ensures
            message@ == "文件参数过多，无法发送给已运行的应用"@,
    {
        "文件参数过多，无法发送给已运行的应用".to_owned()
    }
}

/// The message that hands `paths` over, where it is not too long. What it reads
/// as is these paths.
pub fn forward_paths(paths: &Vec<String>) -> (message: Result<Vec<u8>, TooManyPaths>)
    ensures
        match message {
            Ok(payload) => {
                &&& payload@ == json_of_texts(text::texts(paths@))
                &&& payload@.len() <= MAX_MESSAGE_BYTES
                &&& texts_of_json(payload@) == Some(text::texts(paths@))
            },
            Err(_) => json_of_texts(text::texts(paths@)).len() > MAX_MESSAGE_BYTES,
        },
{
    let payload = texts_to_json(paths);
    if payload.len() > MAX_MESSAGE_BYTES {
        return Err(TooManyPaths);
    }
    Ok(payload)
}

/// Tells whether a message went out whole.
pub fn message_is_out(succeeded: bool, written: u32, length: usize) -> (out: bool)
    ensures
        out == (succeeded && written == length),
{
    succeeded && written as usize == length
}

/// What was read into `buffer`: its first `read` bytes.
pub open spec fn message_in(buffer: Seq<u8>, read: nat) -> Seq<u8> {
    if read <= buffer.len() {
        buffer.take(read as int)
    } else {
        buffer
    }
}

/// The paths in the first `read` bytes of `buffer`, where they are a message.
pub fn received_paths(buffer: Vec<u8>, read: usize) -> (paths: Option<Vec<String>>)
    ensures
        match paths {
            Some(found) => texts_of_json(message_in(buffer@, read as nat)) == Some(
                text::texts(found@),
            ),
            None => texts_of_json(message_in(buffer@, read as nat)) is None,
        },
{
    let mut message = buffer;
    message.truncate(read);
    assert(message@ =~= message_in(buffer@, read as nat));
    json_to_texts(&message)
}

/// A message that went out whole is read as the paths that it hands over,
/// whatever stands behind it in the buffer.
pub proof fn forwarded_paths_arrive(paths: Seq<Seq<char>>, payload: Seq<u8>, buffer: Seq<u8>)
    requires
        texts_of_json(payload) == Some(paths),
        payload.len() <= buffer.len(),
        buffer.take(payload.len() as int) == payload,
    ensures
        texts_of_json(message_in(buffer, payload.len())) == Some(paths),
{
}

/// Users are told apart by domain and name: two that are called the same have the
/// same of both, where no domain holds a backslash.
pub proof fn users_are_told_apart(
    domain: Seq<char>,
    user: Seq<char>,
    other_domain: Seq<char>,
    other_user: Seq<char>,
)
    requires
        !domain.contains('\\'),
        !other_domain.contains('\\'),
        identity(domain, user) == identity(other_domain, other_user),
    ensures
        domain == other_domain,
        user == other_user,
{
    reveal_strlit("\\");
    let a = identity(domain, user);
    let b = identity(other_domain, other_user);
    let n = domain.len() as int;
    let m = other_domain.len() as int;
    assert(a[n] == '\\' && b[m] == '\\');
    if n < m {
        assert(b[n] == other_domain[n]);
        assert(other_domain.contains(other_domain[n]));
    } else if m < n {
        assert(a[m] == domain[m]);
        assert(domain.contains(domain[m]));
    }
    assert(a.subrange(0, n) =~= domain);
    assert(b.subrange(0, n) =~= other_domain);
    assert(a.subrange(n + 1, a.len() as int) =~= user);
    assert(b.subrange(n + 1, b.len() as int) =~= other_user);
}

/// What was read is the front of the buffer, so many bytes long, and the whole
/// buffer where more were read than it holds.
pub proof fn messages_are_the_front_of_the_buffer(buffer: Seq<u8>, read: nat)
    ensures
        read <= buffer.len() ==> message_in(buffer, read) == buffer.subrange(0, read as int),
        read > buffer.len() ==> message_in(buffer, read) == buffer,
{
    if read <= buffer.len() {
        assert(buffer.take(read as int) =~= buffer.subrange(0, read as int));
    }
}

} // verus!
