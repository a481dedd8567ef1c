use vstd::prelude::*;

verus! {

/// The address the server listens on: all interfaces when exposed, else only the loopback
/// interface.
pub fn hostname(exposed: bool) -> (h: &'static str)
    ensures
        exposed ==> h@ == "0.0.0.0"@,
        !exposed ==> h@ == "127.0.0.1"@,
{
    if exposed {
        "0.0.0.0"
    } else {
        "127.0.0.1"
    }
}

/// The message for a server started without a trust key that was not declared trusted.
pub open spec fn untrusted_start_message() -> Seq<char> {
    "If no trust key is provided, TRUSTED must be explicitly set!"@
}

/// A server runs either with a trust key or explicitly declared trusted; otherwise it
/// refuses to start.
pub fn check_trust_settings(trusted: bool, trust_key: Option<&str>) -> (r: Result<(), String>)
    ensures
        r is Ok <==> (trusted || trust_key is Some),
        r matches Err(m) ==> m@ == untrusted_start_message(),
{
    if !trusted && trust_key.is_none() {
        return Err(String::from_str("If no trust key is provided, TRUSTED must be explicitly set!"));
    }
    Ok(())
}

/// The default store directory of the server.
pub const DEFAULT_STORE_DIR: &'static str = "./store";

/// The default database path of the server.
pub const DEFAULT_DB_PATH: &'static str = "./db.sqlite";

/// The default port of the server.
pub const DEFAULT_PORT: u16 = 8004;

} // verus!
