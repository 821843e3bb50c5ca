//! Host calls received from the server, and the typed path back: a transport
//! that carries a call's parameters and turns the host's result into the
//! response the session sends, or into nothing for a void method.
use vstd::prelude::*;

use crate::host::conversions::{returns_value, should_send_host_response, RemoteHostMethodId};
use crate::host::error::HostError;
use crate::host::methods::FieldDescription;
use crate::text::{contains_seq, decimal, decimal_string, str_contains};

verus! {

/// Where a host call came from: a pipeline (by its command id) or the pool itself.
#[derive(Debug, Clone, Copy, PartialEq, Eq, Structural)]
pub enum HostCallScope {
    Pipeline { command_id: u128 },
    RunspacePool,
}

/// Marker that keeps [`Method`] implemented by the library's method ids only.
pub trait Sealed {}

/// What the session needs to know of a host method.
pub trait Method: Sealed {
    /// The protocol id of the method.
    fn id(&self) -> i32;

    /// Whether the host's result goes back to the server.
    fn should_send_response(&self) -> bool;
}

impl Sealed for RemoteHostMethodId {}

impl Method for RemoteHostMethodId {
    fn id(&self) -> (r: i32)
        ensures
            r == self.spec_value(),
    {
        self.value()
    }

    fn should_send_response(&self) -> (r: bool)
        ensures
            r == returns_value(*self),
    {
        should_send_host_response(*self)
    }
}

/// A host call received from the server.
///
/// `prompt_fields` holds the field descriptions of a `Prompt` call and is
/// empty for every other method.
#[derive(Debug, Clone)]
pub struct HostCall {
    pub scope: HostCallScope,
    pub call_id: i64,
    pub method: RemoteHostMethodId,
    pub prompt_fields: Vec<FieldDescription>,
}

/// The literal that marks a prompt field asking for a secure string.
pub open spec fn secure_string_marker() -> Seq<char> {
    "SecureString"@
}

/// Whether a prompt field asks for a secure string.
pub open spec fn asks_secure_string(f: FieldDescription) -> bool {
    contains_seq(f.parameter_type@, secure_string_marker())
}

/// Whether answering a host call transports secure-string data, so that the
/// session key must be established first.
pub open spec fn spec_needs_session_key(method: RemoteHostMethodId, fields: Seq<FieldDescription>) -> bool {
    match method {
        RemoteHostMethodId::ReadLineAsSecureString
        | RemoteHostMethodId::PromptForCredential1
        | RemoteHostMethodId::PromptForCredential2 => true,
        RemoteHostMethodId::Prompt => exists|i: int| 0 <= i < fields.len() && asks_secure_string(#[trigger] fields[i]),
        _ => false,
    }
}

impl HostCall {
    /// Builds a host call from the method id and call id of a received
    /// pipeline host call; an id that names no host method is not implemented.
    pub fn try_from_pipeline(
        scope: HostCallScope,
        method_id: i32,
        call_id: i64,
        prompt_fields: Vec<FieldDescription>,
    ) -> (r: Result<HostCall, HostError>)
        ensures
            r is Ok <==> 1 <= method_id <= 56,
            r is Err ==> r->Err_0 == HostError::NotImplemented,
            r is Ok ==> {
                let hc = r->Ok_0;
                &&& hc.scope == scope
                &&& hc.call_id == call_id
                &&& hc.method.spec_value() == method_id
                &&& hc.prompt_fields@ == prompt_fields@
            },
    {
        match RemoteHostMethodId::try_from(method_id) {
            Ok(method) => Ok(HostCall { scope, call_id, method, prompt_fields }),
            Err(e) => Err(e),
        }
    }

    /// The call id the server gave this call.
    pub fn call_id(&self) -> (r: i64)
        ensures
            r == self.call_id,
    {
        self.call_id
    }

    /// The name of the host method.
    pub fn method_name(&self) -> (r: &'static str)
        ensures
            r@ == self.method.spec_name(),
    {
        self.method.name()
    }

    /// The scope the call came from.
    pub fn scope(&self) -> (r: HostCallScope)
        ensures
            r == self.scope,
    {
        self.scope
    }

    /// The protocol id of the host method.
    pub fn method_id(&self) -> (r: i32)
        ensures
            r == self.method.spec_value(),
    {
        self.method.value()
    }

    /// Whether the host's result goes back to the server.
    pub fn should_send_response(&self) -> (r: bool)
        ensures
            r == returns_value(self.method),
    {
        should_send_host_response(self.method)
    }
}

/// Whether a host call needs the session key before it can be answered,
/// because it transports secure-string data.
pub fn needs_session_key(host_call: &HostCall) -> (r: bool)
    ensures
        r == spec_needs_session_key(host_call.method, host_call.prompt_fields@),
{
    match host_call.method {
        RemoteHostMethodId::ReadLineAsSecureString
        | RemoteHostMethodId::PromptForCredential1
        | RemoteHostMethodId::PromptForCredential2 => true,
        RemoteHostMethodId::Prompt => {
            let fields = &host_call.prompt_fields;
            let mut i: usize = 0;
            while i < fields.len()
                invariant
                    i <= fields.len(),
                    host_call.method == RemoteHostMethodId::Prompt,
                    fields@ == host_call.prompt_fields@,
                    forall|j: int| 0 <= j < i ==> !asks_secure_string(#[trigger] fields@[j]),
                decreases fields.len() - i,
            {
                if str_contains(fields[i].parameter_type.as_str(), "SecureString") {
                    assert(asks_secure_string(fields@[i as int]));
                    return true;
                }
                i = i + 1;
            }
            false
        },
        _ => false,
    }
}

/// A host call's parameters with the scope and call id it must be answered under.
#[derive(Debug)]
pub struct Transport<P> {
    pub scope: HostCallScope,
    pub call_id: i64,
    pub method: RemoteHostMethodId,
    pub params: P,
}

impl<P> Transport<P> {
    pub fn new(scope: HostCallScope, call_id: i64, method: RemoteHostMethodId, params: P) -> (t: Self)
        ensures
            t.scope == scope,
            t.call_id == call_id,
            t.method == method,
            t.params == params,
    {
        Transport { scope, call_id, method, params }
    }

    /// Separates the parameters from the handle that submits the result.
    pub fn into_parts(self) -> (r: (P, ResultTransport))
        ensures
            r.0 == self.params,
            r.1@ == (self.scope, self.call_id, self.method),
    {
        (self.params, ResultTransport { scope: self.scope, call_id: self.call_id, method: self.method })
    }
}

/// Handle through which the host submits a call's result.
#[derive(Debug)]
pub struct ResultTransport {
    scope: HostCallScope,
    call_id: i64,
    method: RemoteHostMethodId,
}

impl View for ResultTransport {
    type V = (HostCallScope, i64, RemoteHostMethodId);

    closed spec fn view(&self) -> Self::V {
        (self.scope, self.call_id, self.method)
    }
}

/// The answer to a host call, with the host's result.
#[derive(Debug, Clone)]
pub struct HostResponse<R> {
    pub call_id: i64,
    pub method_id: i32,
    /// The method id in decimal.
    pub method_name: String,
    pub method_result: R,
}

/// What goes back to the session after the host answered.
#[derive(Debug, Clone)]
pub enum Submission<R> {
    Send(HostResponse<R>),
    NoSend,
}

impl ResultTransport {
    /// The scope the call came from.
    pub fn scope(&self) -> (r: HostCallScope)
        ensures
            r == self@.0,
    {
        self.scope
    }

    /// Accepts the host's result: a method that returns a value is answered
    /// with it, a void method is not answered.
    pub fn accept_result<R>(self, v: R) -> (s: Submission<R>)
        ensures
            match s {
                Submission::Send(resp) => {
                    &&& returns_value(self@.2)
                    &&& resp.call_id == self@.1
                    &&& resp.method_id == self@.2.spec_value()
                    &&& resp.method_name@ == decimal(self@.2.spec_value() as nat)
                    &&& resp.method_result == v
                },
                Submission::NoSend => !returns_value(self@.2),
            },
    {
        if should_send_host_response(self.method) {
            let id = self.method.value();
            let name = decimal_string(id as u64);
            Submission::Send(HostResponse { call_id: self.call_id, method_id: id, method_name: name, method_result: v })
        } else {
            Submission::NoSend
        }
    }
}

/// Which host calls wait for the session key: ReadLineAsSecureString and the two credential
/// prompts (protocol ids 12, 24 and 25) always; a Prompt (23) exactly when one of its fields,
/// the first one as well as any later one, has a parameter type naming `SecureString`
/// (a Prompt without fields never); no other method ever.
pub proof fn lemma_session_key_needed_for_secure_strings(
    m: RemoteHostMethodId,
    fields: Seq<FieldDescription>,
    f: FieldDescription,
)
    ensures
        (m.spec_value() == 12 || m.spec_value() == 24 || m.spec_value() == 25) ==> spec_needs_session_key(m, fields),
        (m.spec_value() != 12 && m.spec_value() != 23 && m.spec_value() != 24 && m.spec_value() != 25)
            ==> !spec_needs_session_key(m, fields),
        !spec_needs_session_key(RemoteHostMethodId::Prompt, Seq::empty()),
        spec_needs_session_key(RemoteHostMethodId::Prompt, seq![f] + fields) <==> (contains_seq(
            f.parameter_type@,
            "SecureString"@,
        ) || spec_needs_session_key(RemoteHostMethodId::Prompt, fields)),
{
    let all = seq![f] + fields;
    assert(all[0] == f);
    if spec_needs_session_key(RemoteHostMethodId::Prompt, fields) {
        let i = choose|i: int| 0 <= i < fields.len() && asks_secure_string(#[trigger] fields[i]);
        assert(all[i + 1] == fields[i]);
        assert(asks_secure_string(all[i + 1]));
    }
    if spec_needs_session_key(RemoteHostMethodId::Prompt, all) {
        let i = choose|i: int| 0 <= i < all.len() && asks_secure_string(#[trigger] all[i]);
        if i > 0 {
            assert(all[i] == fields[i - 1]);
            assert(asks_secure_string(fields[i - 1]));
        }
    }
}

} // verus!
