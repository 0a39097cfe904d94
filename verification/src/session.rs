use vstd::prelude::*;

use crate::bridge::RpcHelpers;
use crate::bridge::spec_unwrap;
use crate::bridge::wire_to_json;
use crate::config::Config;
use crate::error::RpcErrV;
use crate::error::RpcError;
use crate::value::JsonValue;
use crate::value::WireV;
use crate::value::WireValue;
use crate::value::wire_elems_view;

verus! {

/// The transport capability the session consumes: one opaque XML-RPC
/// request/response exchange against an endpoint. Nothing is assumed of its
/// outcome; the session states what holds whatever comes back.
pub trait RpcTransport {
    /// Send one call named `method` with positional `args` to `endpoint` and
    /// hand back the decoded response envelope, or the message of a
    /// transport-level failure.
    fn invoke(&mut self, method: &str, args: Vec<WireValue>, endpoint: &str) -> Result<
        WireValue,
        String,
    >;
}

/// What `xapi_session` yields: the token when the envelope's payload is a
/// string, a type mismatch carrying the payload otherwise, and the
/// envelope's own fault when it has one.
pub open spec fn spec_session_token(w: WireV) -> Result<Seq<char>, RpcErrV> {
    match spec_unwrap(w) {
        Ok(WireV::Str(s)) => Ok(s),
        Ok(v) => Err(RpcErrV::TypeMismatch(v)),
        Err(e) => Err(e),
    }
}

/// Model of an extracted session token.
pub open spec fn token_view(r: Result<String, RpcError>) -> Result<Seq<char>, RpcErrV> {
    match r {
        Ok(s) => Ok(s@),
        Err(e) => Err(e@),
    }
}

impl WireValue {
    /// Extract the session token from a login response envelope.
    pub fn xapi_session(self) -> (r: Result<String, RpcError>)
        ensures
            token_view(r) == spec_session_token(self@),
    {
        match self.rpc_value() {
            Ok(v) => match v {
                WireValue::Str(s) => Ok(s),
                other => Err(RpcError::TypeMismatch(other)),
            },
            Err(e) => Err(e),
        }
    }
}

/// The remote method name for a class and a method: `class.method`.
pub fn method_name(class: &str, method: &str) -> (r: String)
    ensures
        r@ == class@ + "."@ + method@,
{
    let mut s = class.to_owned();
    s.append(".");
    s.append(method);
    s
}

/// The fixed name of the login call.
fn login_method() -> (r: &'static str)
    ensures
        r@ == "session.login_with_password"@,
{
    "session.login_with_password"
}

/// The fixed name of the logout call.
fn logout_method() -> (r: &'static str)
    ensures
        r@ == "session.logout"@,
{
    "session.logout"
}

/// The positional arguments of a login call: the user name, then the
/// password, and nothing else.
pub fn login_args(config: &Config) -> (r: Vec<WireValue>)
    ensures
        wire_elems_view(r@) == seq![WireV::Str(config.user@), WireV::Str(config.pass@)],
{
    let mut r: Vec<WireValue> = Vec::new();
    r.push(WireValue::Str(config.user.clone()));
    r.push(WireValue::Str(config.pass.clone()));
    proof {
        reveal_with_fuel(wire_elems_view, 3);
        let ghost one = seq![WireValue::Str(config.user)];
        assert(r@.drop_last() =~= one);
        assert(r@.last() == WireValue::Str(config.pass));
        assert(one.drop_last() =~= Seq::<WireValue>::empty());
        assert(one.last() == WireValue::Str(config.user));
        assert(wire_elems_view(one) =~= seq![WireV::Str(config.user@)]);
        assert(wire_elems_view(r@) =~= seq![WireV::Str(config.user@), WireV::Str(config.pass@)]);
    }
    r
}

/// The positional arguments of an authenticated call: the session token
/// first, then the caller's arguments in their order.
pub fn with_session(token: String, args: Vec<WireValue>) -> (r: Vec<WireValue>)
    ensures
        r@ == seq![WireValue::Str(token)] + args@,
{
    let ghost orig = args@;
    let mut r = args;
    r.insert(0, WireValue::Str(token));
    proof {
        assert(r@ =~= seq![WireValue::Str(token)] + orig);
    }
    r
}

/// One authenticated session against an endpoint. A value of this type only
/// exists in the authenticated state: `new` returns one on a successful
/// login alone, and `close` consumes it, so no call can reach a closed
/// session.
pub struct XapiRpc<T: RpcTransport> {
    host: String,
    session: String,
    transport: T,
}

impl<T: RpcTransport> XapiRpc<T> {
    /// The endpoint this session talks to.
    pub closed spec fn spec_host(&self) -> Seq<char> {
        self.host@
    }

    /// The token the login established.
    pub closed spec fn spec_session(&self) -> Seq<char> {
        self.session@
    }

    /// Prepare a session: log in through the transport with the configured
    /// credentials and keep the token the endpoint granted. What goes out is
    /// pinned by `login_method` and `login_args`: the fixed login call name,
    /// with the user name and the password as the only positional arguments.
    /// What comes back is read by `xapi_session`, whose contract is exact:
    /// on a transport failure, a fault envelope or a non-string token the
    /// construction fails and no session exists.
    pub fn new(config: &Config, transport: T) -> (r: Result<Self, RpcError>)
        ensures
            r matches Ok(s) ==> s.spec_host() == config.host@,
    {
        let mut transport = transport;
        match transport.invoke(login_method(), login_args(config), config.host.as_str()) {
            Err(m) => Err(RpcError::Transport(m)),
            Ok(envelope) => match envelope.xapi_session() {
                Ok(token) => Ok(
                    XapiRpc { host: config.host.clone(), session: token, transport },
                ),
                Err(e) => Err(e),
            },
        }
    }

    /// Perform one call for `class.method`, the session token prepended to
    /// `args` as the first positional argument; the response envelope is
    /// unwrapped and converted to JSON. Transport errors and faults surface
    /// to the caller; either way the session is left as it was and may
    /// still be used.
    pub fn call(&mut self, class: &str, method: &str, args: Vec<WireValue>) -> (r: Result<
        JsonValue,
        RpcError,
    >)
        ensures
            final(self).spec_host() == old(self).spec_host(),
            final(self).spec_session() == old(self).spec_session(),
            r matches Ok(j) ==> exists|env: WireV, payload: WireV|
                #![trigger spec_unwrap(env), wire_to_json(payload)]
                spec_unwrap(env) == Ok::<WireV, RpcErrV>(payload) && j@ == wire_to_json(payload),
    {
        let cmd = method_name(class, method);
        let full_args = with_session(self.session.clone(), args);
        match self.transport.invoke(cmd.as_str(), full_args, self.host.as_str()) {
            Err(m) => Err(RpcError::Transport(m)),
            Ok(envelope) => {
                let ghost env0 = envelope@;
                match envelope.rpc_value() {
                    Ok(v) => {
                        let ghost payload = v@;
                        let j = v.as_json();
                        proof {
                            assert(spec_unwrap(env0) == Ok::<WireV, RpcErrV>(payload));
                        }
                        Ok(j)
                    },
                    Err(e) => Err(e),
                }
            },
        }
    }

    /// End the session: issue the best-effort logout and hand the transport
    /// back. What goes out is pinned by `logout_method` and `with_session`:
    /// the fixed logout call name, with the session token as sole argument.
    /// A logout failure is swallowed, and the session is consumed either
    /// way, so nothing can use it afterwards.
    pub fn close(self) -> T {
        let mut transport = self.transport;
        let args = with_session(self.session, Vec::new());
        let _ = transport.invoke(logout_method(), args, self.host.as_str());
        transport
    }
}

} // verus!
