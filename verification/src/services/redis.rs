//! The client of the key-value server: its address, the commands it sends
//! and how it reads the replies.
//!
//! The commands are built here and sent by the caller, who reports what the
//! server replied.

use vstd::prelude::*;
use vstd::utf8::encode_utf8;
use crate::utils::text::same_text;

verus! {

#[verifier::external_type_specification]
#[verifier::external_body]
pub struct ExClient(::redis::Client);

#[verifier::external_type_specification]
#[verifier::external_body]
pub struct ExRedisError(::redis::RedisError);

#[verifier::external_type_specification]
#[verifier::external_body]
pub struct ExCmd(::redis::Cmd);

/// The client that the redis crate makes for an address, or nothing for an
/// address that it does not accept.
pub uninterp spec fn opened_client(url: Seq<char>) -> Option<::redis::Client>;

/// True for the addresses that the redis crate accepts for a client.
pub open spec fn redis_url_accepted(url: Seq<char>) -> bool {
    opened_client(url) is Some
}

/// The arguments that a command holds, in order, the command's name first.
pub uninterp spec fn cmd_args(command: ::redis::Cmd) -> Seq<Seq<u8>>;

/// Makes a client for a server address. This is `Client::open` of the redis
/// crate: it reads the address and connects to nothing. Whether it accepts,
/// and the client it makes, depend on the address alone; which addresses it
/// accepts is left to that crate.
#[verifier::external_body]
fn open_client(url: &str) -> (r: Result<::redis::Client, ::redis::RedisError>)
    ensures
        match r {
            Ok(client) => opened_client(url@) == Some(client),
            Err(_) => opened_client(url@) is None,
        },
{
    ::redis::Client::open(url)
}

/// Starts a command. This is `redis::cmd`: the new command holds the name as
/// its only argument.
#[verifier::external_body]
fn new_command(name: &str) -> (command: ::redis::Cmd)
    ensures
        cmd_args(command) == seq![encode_utf8(name@)],
{
    ::redis::cmd(name)
}

/// Adds one argument to a command. This is `Cmd::arg` with a string: the
/// string's bytes become the command's last argument and the arguments
/// before it stay.
#[verifier::external_body]
fn push_argument(command: &mut ::redis::Cmd, argument: &str)
    ensures
        cmd_args(*final(command)) == cmd_args(*old(command)).push(encode_utf8(argument@)),
{
    command.arg(argument);
}

/// Why the server's answer to a connection check was not accepted.
#[derive(Debug, Clone, Copy, PartialEq, Eq, Structural)]
pub enum ClientError {
    /// The server answered the check with something other than `PONG`.
    UnexpectedResponse,
}

/// The arguments of the command that stores `value` under `key`.
pub open spec fn set_args(key: Seq<char>, value: Seq<char>) -> Seq<Seq<u8>> {
    seq![encode_utf8("SET"@), encode_utf8(key), encode_utf8(value)]
}

/// The arguments of the command that asks for the value under `key`.
pub open spec fn get_args(key: Seq<char>) -> Seq<Seq<u8>> {
    seq![encode_utf8("GET"@), encode_utf8(key)]
}

/// The arguments of the command that removes `key`.
pub open spec fn del_args(key: Seq<char>) -> Seq<Seq<u8>> {
    seq![encode_utf8("DEL"@), encode_utf8(key)]
}

/// The arguments of the command that checks the connection.
pub open spec fn ping_args() -> Seq<Seq<u8>> {
    seq![encode_utf8("PING"@)]
}

/// A client of the key-value server.
pub struct RedisClient {
    client: ::redis::Client,
}

impl RedisClient {
    /// The client of the redis crate that this client connects with.
    pub closed spec fn connection(&self) -> ::redis::Client {
        self.client
    }

    /// Makes a client for the server at `redis_url`. Nothing is connected
    /// yet; an address that the redis crate does not accept is refused.
    pub fn new(redis_url: &str) -> (r: Result<RedisClient, ::redis::RedisError>)
        ensures
            r is Ok <==> redis_url_accepted(redis_url@),
            r matches Ok(made) ==> opened_client(redis_url@) == Some(made.connection()),
    {
        match open_client(redis_url) {
            Ok(client) => Ok(RedisClient { client }),
            Err(e) => Err(e),
        }
    }

    /// The client of the redis crate, to connect with: the one that was made
    /// for the address this client was made with.
    pub fn client(&self) -> (r: &::redis::Client)
        ensures
            *r == self.connection(),
    {
        &self.client
    }

    /// The command that checks the connection. The server's answer goes to
    /// [`RedisClient::connection_checked`].
    pub fn check_connection(&self) -> (command: ::redis::Cmd)
        ensures
            cmd_args(command) == ping_args(),
    {
        new_command("PING")
    }

    /// Reads the server's answer to a connection check: only `PONG` passes.
    pub fn connection_checked(&self, reply: &str) -> (r: Result<(), ClientError>)
        ensures
            r is Ok <==> reply@ == "PONG"@,
            r is Err ==> r == Err::<(), ClientError>(ClientError::UnexpectedResponse),
    {
        let expected = "PONG";
        if same_text(reply, expected) {
            Ok(())
        } else {
            Err(ClientError::UnexpectedResponse)
        }
    }

    /// The command that stores `value` under `key`, replacing what was there.
    pub fn set(&self, key: &str, value: &str) -> (command: ::redis::Cmd)
        ensures
            cmd_args(command) == set_args(key@, value@),
    {
        let mut command = new_command("SET");
        push_argument(&mut command, key);
        push_argument(&mut command, value);
        command
    }

    /// The command that asks for the value under `key`.
    pub fn get(&self, key: &str) -> (command: ::redis::Cmd)
        ensures
            cmd_args(command) == get_args(key@),
    {
        let mut command = new_command("GET");
        push_argument(&mut command, key);
        command
    }

    /// The command that removes `key`. The server's answer, the number of
    /// keys it removed, goes to [`RedisClient::deleted`].
    pub fn delete(&self, key: &str) -> (command: ::redis::Cmd)
        ensures
            cmd_args(command) == del_args(key@),
    {
        let mut command = new_command("DEL");
        push_argument(&mut command, key);
        command
    }

    /// Reads the server's answer to a removal: the key existed when the
    /// server removed at least one key.
    pub fn deleted(&self, removed: i32) -> (r: bool)
        ensures
            r == (removed > 0),
    {
        removed > 0
    }
}

} // verus!
