//! Why a run ended, in a closed vocabulary that is safe to keep and to show.

use crate::text::{begins, chars_of, opt_str, same, starts_with, strip_prefix};
use vstd::prelude::*;
use vstd::string::*;

verus! {

/// Why a run ended.
#[derive(Clone, Copy, Debug, PartialEq, Eq, Structural)]
pub enum RunDiagnosticCode {
    ProviderAuthentication,
    ProviderRateLimited,
    ProviderUnavailable,
    ProviderConnection,
    ProviderRequestRejected,
    ProviderResponseInvalid,
    ModelConfiguration,
    ContextBudgetExceeded,
}

/// Why a run ended. Only the stable code is ever kept.
#[derive(Clone, Copy, Debug, PartialEq, Eq, Structural)]
pub struct RunDiagnostic {
    pub code: RunDiagnosticCode,
}

/// The name that a code is kept under.
pub open spec fn code_name(c: RunDiagnosticCode) -> Seq<char> {
    match c {
        RunDiagnosticCode::ProviderAuthentication => "provider_authentication"@,
        RunDiagnosticCode::ProviderRateLimited => "provider_rate_limited"@,
        RunDiagnosticCode::ProviderUnavailable => "provider_unavailable"@,
        RunDiagnosticCode::ProviderConnection => "provider_connection"@,
        RunDiagnosticCode::ProviderRequestRejected => "provider_request_rejected"@,
        RunDiagnosticCode::ProviderResponseInvalid => "provider_response_invalid"@,
        RunDiagnosticCode::ModelConfiguration => "model_configuration"@,
        RunDiagnosticCode::ContextBudgetExceeded => "context_budget_exceeded"@,
    }
}

/// What the user is told.
pub open spec fn code_message(c: RunDiagnosticCode) -> Seq<char> {
    match c {
        RunDiagnosticCode::ProviderAuthentication => "The model provider rejected authentication. Review its credentials in Models."@,
        RunDiagnosticCode::ProviderRateLimited => "The model provider rate-limited this request. Wait before trying again."@,
        RunDiagnosticCode::ProviderUnavailable => "The model provider is temporarily unavailable. Try again later."@,
        RunDiagnosticCode::ProviderConnection => "The model provider could not be reached. Check connectivity and the Provider address."@,
        RunDiagnosticCode::ProviderRequestRejected => "The model provider rejected the request. Review the model and protocol configuration."@,
        RunDiagnosticCode::ProviderResponseInvalid => "The model provider returned an unusable response. Review the model and protocol configuration."@,
        RunDiagnosticCode::ModelConfiguration => "The model request could not be constructed. Review the Provider address and credentials."@,
        RunDiagnosticCode::ContextBudgetExceeded => "The request exceeds the model context budget. Reduce the context or choose a larger-context model."@,
    }
}

/// The code that is kept under a name.
pub open spec fn code_named(name: Seq<char>) -> Option<RunDiagnosticCode> {
    if name == "provider_authentication"@ {
        Some(RunDiagnosticCode::ProviderAuthentication)
    } else if name == "provider_rate_limited"@ {
        Some(RunDiagnosticCode::ProviderRateLimited)
    } else if name == "provider_unavailable"@ {
        Some(RunDiagnosticCode::ProviderUnavailable)
    } else if name == "provider_connection"@ {
        Some(RunDiagnosticCode::ProviderConnection)
    } else if name == "provider_request_rejected"@ {
        Some(RunDiagnosticCode::ProviderRequestRejected)
    } else if name == "provider_response_invalid"@ {
        Some(RunDiagnosticCode::ProviderResponseInvalid)
    } else if name == "model_configuration"@ {
        Some(RunDiagnosticCode::ModelConfiguration)
    } else if name == "context_budget_exceeded"@ {
        Some(RunDiagnosticCode::ContextBudgetExceeded)
    } else {
        None
    }
}

/// The value of a decimal digit.
pub open spec fn digit_at(s: Seq<char>, i: int) -> int {
    s[i] as int - '0' as int
}

/// The status that the error of a service begins with: three digits and a blank
/// behind `API`.
pub open spec fn status_in(error: Seq<char>) -> Option<int> {
    if !begins(error, "API "@) {
        None
    } else {
        let s = error.skip("API "@.len() as int);
        if s.len() > 3 && s[3] == ' ' && (forall|i: int|
            0 <= i < 3 ==> 0 <= #[trigger] digit_at(s, i) <= 9) {
            Some(digit_at(s, 0) * 100 + digit_at(s, 1) * 10 + digit_at(s, 2))
        } else {
            None
        }
    }
}

/// The code for the error of a service. Only its envelope counts, never what
/// the service wrote into it.
pub open spec fn code_for(error: Seq<char>) -> RunDiagnosticCode {
    let status = match status_in(error) {
        Some(n) => n,
        None => 0,
    };
    if status == 401 || status == 403 {
        RunDiagnosticCode::ProviderAuthentication
    } else if status == 429 {
        RunDiagnosticCode::ProviderRateLimited
    } else if status == 408 || 500 <= status <= 599 {
        RunDiagnosticCode::ProviderUnavailable
    } else if 400 <= status <= 499 {
        RunDiagnosticCode::ProviderRequestRejected
    } else if begins(error, "Provider configuration error: "@) {
        RunDiagnosticCode::ModelConfiguration
    } else if begins(error, "HTTP error: "@) {
        RunDiagnosticCode::ProviderConnection
    } else {
        RunDiagnosticCode::ProviderResponseInvalid
    }
}

fn read_status(error: &str) -> (r: Option<u16>)
    ensures
        (match r {
            Some(n) => Some(n as int),
            None => None,
        }) == status_in(error@),
{
    let rest = match strip_prefix(error, "API ") {
        Some(t) => t,
        None => {
            return None;
        },
    };
    let v = chars_of(rest.as_str());
    if v.len() <= 3 || v[3] != ' ' {
        return None;
    }
    let a: char = v[0];
    let b: char = v[1];
    let c: char = v[2];
    if '0' <= a && a <= '9' && '0' <= b && b <= '9' && '0' <= c && c <= '9' {
        assert(digit_at(v@, 0) == a as int - '0' as int);
        assert(digit_at(v@, 1) == b as int - '0' as int);
        assert(digit_at(v@, 2) == c as int - '0' as int);
        let x: u16 = (a as u32 - '0' as u32) as u16;
        let y: u16 = (b as u32 - '0' as u32) as u16;
        let z: u16 = (c as u32 - '0' as u32) as u16;
        Some(x * 100 + y * 10 + z)
    } else {
        assert(!(0 <= digit_at(v@, 0) <= 9 && 0 <= digit_at(v@, 1) <= 9 && 0 <= digit_at(v@, 2)
            <= 9));
        None
    }
}

/// The code behind an optional diagnostic.
pub open spec fn opt_code(d: Option<RunDiagnostic>) -> Option<RunDiagnosticCode> {
    match d {
        Some(x) => Some(x.code),
        None => None,
    }
}

impl RunDiagnostic {
    /// The diagnostic that is kept under a name.
    pub fn from_reason(reason: Option<&str>) -> (r: Option<RunDiagnostic>)
        ensures
            opt_code(r) == (match opt_str(reason) {
                Some(name) => code_named(name),
                None => None,
            }),
    {
        let name = match reason {
            Some(s) => s,
            None => {
                return None;
            },
        };
        let code = if same(name, "provider_authentication") {
            RunDiagnosticCode::ProviderAuthentication
        } else if same(name, "provider_rate_limited") {
            RunDiagnosticCode::ProviderRateLimited
        } else if same(name, "provider_unavailable") {
            RunDiagnosticCode::ProviderUnavailable
        } else if same(name, "provider_connection") {
            RunDiagnosticCode::ProviderConnection
        } else if same(name, "provider_request_rejected") {
            RunDiagnosticCode::ProviderRequestRejected
        } else if same(name, "provider_response_invalid") {
            RunDiagnosticCode::ProviderResponseInvalid
        } else if same(name, "model_configuration") {
            RunDiagnosticCode::ModelConfiguration
        } else if same(name, "context_budget_exceeded") {
            RunDiagnosticCode::ContextBudgetExceeded
        } else {
            return None;
        };
        Some(RunDiagnostic { code })
    }

    /// The name that this diagnostic is kept under.
    pub fn reason(self) -> (r: &'static str)
        ensures
            r@ == code_name(self.code),
    {
        match self.code {
            RunDiagnosticCode::ProviderAuthentication => "provider_authentication",
            RunDiagnosticCode::ProviderRateLimited => "provider_rate_limited",
            RunDiagnosticCode::ProviderUnavailable => "provider_unavailable",
            RunDiagnosticCode::ProviderConnection => "provider_connection",
            RunDiagnosticCode::ProviderRequestRejected => "provider_request_rejected",
            RunDiagnosticCode::ProviderResponseInvalid => "provider_response_invalid",
            RunDiagnosticCode::ModelConfiguration => "model_configuration",
            RunDiagnosticCode::ContextBudgetExceeded => "context_budget_exceeded",
        }
    }

    /// The diagnostic for the error of a service.
    pub fn from_provider_error(error: &str) -> (r: RunDiagnostic)
        ensures
            r.code == code_for(error@),
    {
        let status: u16 = match read_status(error) {
            Some(n) => n,
            None => 0,
        };
        let code = if status == 401 || status == 403 {
            RunDiagnosticCode::ProviderAuthentication
        } else if status == 429 {
            RunDiagnosticCode::ProviderRateLimited
        } else if status == 408 || (status >= 500 && status <= 599) {
            RunDiagnosticCode::ProviderUnavailable
        } else if status >= 400 && status <= 499 {
            RunDiagnosticCode::ProviderRequestRejected
        } else if starts_with(error, "Provider configuration error: ") {
            RunDiagnosticCode::ModelConfiguration
        } else if starts_with(error, "HTTP error: ") {
            RunDiagnosticCode::ProviderConnection
        } else {
            RunDiagnosticCode::ProviderResponseInvalid
        };
        RunDiagnostic { code }
    }

    /// What the user is told.
    pub fn safe_message(self) -> (r: &'static str)
        ensures
            r@ == code_message(self.code),
    {
        match self.code {
            RunDiagnosticCode::ProviderAuthentication => "The model provider rejected authentication. Review its credentials in Models.",
            RunDiagnosticCode::ProviderRateLimited => "The model provider rate-limited this request. Wait before trying again.",
            RunDiagnosticCode::ProviderUnavailable => "The model provider is temporarily unavailable. Try again later.",
            RunDiagnosticCode::ProviderConnection => "The model provider could not be reached. Check connectivity and the Provider address.",
            RunDiagnosticCode::ProviderRequestRejected => "The model provider rejected the request. Review the model and protocol configuration.",
            RunDiagnosticCode::ProviderResponseInvalid => "The model provider returned an unusable response. Review the model and protocol configuration.",
            RunDiagnosticCode::ModelConfiguration => "The model request could not be constructed. Review the Provider address and credentials.",
            RunDiagnosticCode::ContextBudgetExceeded => "The request exceeds the model context budget. Reduce the context or choose a larger-context model.",
        }
    }
}

/// A code that is kept is read back as itself.
pub proof fn law_code_round_trip(c: RunDiagnosticCode)
    ensures
        code_named(code_name(c)) == Some(c),
{
    reveal_strlit("provider_authentication");
    reveal_strlit("provider_rate_limited");
    reveal_strlit("provider_unavailable");
    reveal_strlit("provider_connection");
    reveal_strlit("provider_request_rejected");
    reveal_strlit("provider_response_invalid");
    reveal_strlit("model_configuration");
    reveal_strlit("context_budget_exceeded");
    assert("provider_authentication"@.len() == 23);
    assert("provider_rate_limited"@.len() == 21);
    assert("provider_unavailable"@.len() == 20);
    assert("provider_connection"@.len() == 19);
    assert("provider_request_rejected"@.len() == 25);
    assert("provider_response_invalid"@.len() == 25);
    assert("provider_request_rejected"@[11] == 'q');
    assert("provider_response_invalid"@[11] == 's');
    assert("model_configuration"@.len() == 19);
    assert("model_configuration"@[0] == 'm');
    assert("provider_connection"@[0] == 'p');
    assert("context_budget_exceeded"@.len() == 23);
    assert("context_budget_exceeded"@[0] == 'c');
    assert("provider_authentication"@[0] == 'p');
}

/// What a service wrote does not matter: two errors with the same status and
/// different bodies get the same code.
pub proof fn law_body_does_not_matter(status: Seq<char>, a: Seq<char>, b: Seq<char>)
    requires
        status_in("API "@ + status + a) is Some,
        status.len() >= 4,
        400 <= status_in("API "@ + status + a)->0 <= 599,
    ensures
        code_for("API "@ + status + a) == code_for("API "@ + status + b),
{
    let x = "API "@ + status + a;
    let y = "API "@ + status + b;
    let n = "API "@.len() as int;
    assert(x.take(n) =~= "API "@);
    assert(y.take(n) =~= "API "@);
    let s = x.skip(n);
    let t = y.skip(n);
    assert forall|i: int| 0 <= i < 4 implies s[i] == t[i] by {
        assert(s[i] == status[i]);
        assert(t[i] == status[i]);
    }
    assert(digit_at(s, 0) == digit_at(t, 0));
    assert(digit_at(s, 1) == digit_at(t, 1));
    assert(digit_at(s, 2) == digit_at(t, 2));
    assert(s[3] == t[3]);
    assert(status_in(y) == status_in(x));
}

} // verus!
