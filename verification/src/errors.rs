use vstd::prelude::*;

use crate::strutil::push_char;

verus! {

/// The closed set of failure kinds a sync operation can end in.
/// String payloads carry human-readable detail only; the variant alone
/// decides routing (retry, fallback, propagate).
#[derive(Debug, Clone)]
pub enum AppError {
    AuthInvalid,
    Forbidden,
    Network(String),
    RateLimit,
    Keychain(String),
    NotFound,
    Validation(String),
    Io(String),
    Db(String),
    Unknown(String),
}

pub ghost enum AppErrorV {
    AuthInvalid,
    Forbidden,
    Network(Seq<char>),
    RateLimit,
    Keychain(Seq<char>),
    NotFound,
    Validation(Seq<char>),
    Io(Seq<char>),
    Db(Seq<char>),
    Unknown(Seq<char>),
}

impl View for AppError {
    type V = AppErrorV;

    open spec fn view(&self) -> AppErrorV {
        match self {
            AppError::AuthInvalid => AppErrorV::AuthInvalid,
            AppError::Forbidden => AppErrorV::Forbidden,
            AppError::Network(s) => AppErrorV::Network(s@),
            AppError::RateLimit => AppErrorV::RateLimit,
            AppError::Keychain(s) => AppErrorV::Keychain(s@),
            AppError::NotFound => AppErrorV::NotFound,
            AppError::Validation(s) => AppErrorV::Validation(s@),
            AppError::Io(s) => AppErrorV::Io(s@),
            AppError::Db(s) => AppErrorV::Db(s@),
            AppError::Unknown(s) => AppErrorV::Unknown(s@),
        }
    }
}

/// The uniform error envelope handed across the command boundary.
#[derive(Debug, Clone)]
pub struct AppErrorPayload {
    pub code: String,
    pub message: String,
    pub recoverable: bool,
}

/// Whether retrying the same action later may succeed, as opposed to the
/// action being inherently invalid.
pub open spec fn spec_recoverable(e: AppErrorV) -> bool {
    match e {
        AppErrorV::AuthInvalid => true,
        AppErrorV::Forbidden => true,
        AppErrorV::Network(_) => true,
        AppErrorV::RateLimit => true,
        AppErrorV::Keychain(_) => true,
        AppErrorV::NotFound => true,
        AppErrorV::Validation(_) => false,
        AppErrorV::Io(_) => false,
        AppErrorV::Db(_) => false,
        AppErrorV::Unknown(_) => false,
    }
}

/// The short machine-readable code of the envelope.
pub open spec fn spec_code(e: AppErrorV) -> Seq<char> {
    match e {
        AppErrorV::AuthInvalid => "AUTH_INVALID"@,
        AppErrorV::Forbidden => "FORBIDDEN"@,
        AppErrorV::Network(_) => "NETWORK"@,
        AppErrorV::RateLimit => "RATE_LIMIT"@,
        AppErrorV::Keychain(_) => "KEYCHAIN"@,
        AppErrorV::NotFound => "NOT_FOUND"@,
        AppErrorV::Validation(_) => "UNKNOWN"@,
        AppErrorV::Io(_) => "UNKNOWN"@,
        AppErrorV::Db(_) => "UNKNOWN"@,
        AppErrorV::Unknown(_) => "UNKNOWN"@,
    }
}

/// The human-readable message of the envelope.
pub open spec fn spec_message(e: AppErrorV) -> Seq<char> {
    match e {
        AppErrorV::AuthInvalid => "authentication failed"@,
        AppErrorV::Forbidden => "permission denied"@,
        AppErrorV::Network(s) => "network error: "@ + s,
        AppErrorV::RateLimit => "rate limited"@,
        AppErrorV::Keychain(s) => "keychain error: "@ + s,
        AppErrorV::NotFound => "not found"@,
        AppErrorV::Validation(s) => "validation error: "@ + s,
        AppErrorV::Io(s) => "io error: "@ + s,
        AppErrorV::Db(s) => "db error: "@ + s,
        AppErrorV::Unknown(s) => "unknown error: "@ + s,
    }
}

impl AppError {
    pub fn recoverable(&self) -> (r: bool)
        ensures
            r == spec_recoverable(self@),
    {
        match self {
            AppError::AuthInvalid => true,
            AppError::Forbidden => true,
            AppError::Network(_) => true,
            AppError::RateLimit => true,
            AppError::Keychain(_) => true,
            AppError::NotFound => true,
            AppError::Validation(_) => false,
            AppError::Io(_) => false,
            AppError::Db(_) => false,
            AppError::Unknown(_) => false,
        }
    }

    /// The human-readable description of this error.
    pub fn message(&self) -> (r: String)
        ensures
            r@ == spec_message(self@),
    {
        match self {
            AppError::AuthInvalid => "authentication failed".to_owned(),
            AppError::Forbidden => "permission denied".to_owned(),
            AppError::Network(s) => {
                let mut m = "network error: ".to_owned();
                m.append(s.as_str());
                m
            },
            AppError::RateLimit => "rate limited".to_owned(),
            AppError::Keychain(s) => {
                let mut m = "keychain error: ".to_owned();
                m.append(s.as_str());
                m
            },
            AppError::NotFound => "not found".to_owned(),
            AppError::Validation(s) => {
                let mut m = "validation error: ".to_owned();
                m.append(s.as_str());
                m
            },
            AppError::Io(s) => {
                let mut m = "io error: ".to_owned();
                m.append(s.as_str());
                m
            },
            AppError::Db(s) => {
                let mut m = "db error: ".to_owned();
                m.append(s.as_str());
                m
            },
            AppError::Unknown(s) => {
                let mut m = "unknown error: ".to_owned();
                m.append(s.as_str());
                m
            },
        }
    }

    /// The uniform envelope for this error: its code, its message, and
    /// whether retrying the same action later may succeed.
    pub fn payload(&self) -> (r: AppErrorPayload)
        ensures
            r.code@ == spec_code(self@),
            r.message@ == spec_message(self@),
            r.recoverable == spec_recoverable(self@),
    {
        let code = match self {
            AppError::AuthInvalid => "AUTH_INVALID".to_owned(),
            AppError::Forbidden => "FORBIDDEN".to_owned(),
            AppError::Network(_) => "NETWORK".to_owned(),
            AppError::RateLimit => "RATE_LIMIT".to_owned(),
            AppError::Keychain(_) => "KEYCHAIN".to_owned(),
            AppError::NotFound => "NOT_FOUND".to_owned(),
            AppError::Validation(_) => "UNKNOWN".to_owned(),
            AppError::Io(_) => "UNKNOWN".to_owned(),
            AppError::Db(_) => "UNKNOWN".to_owned(),
            AppError::Unknown(_) => "UNKNOWN".to_owned(),
        };
        AppErrorPayload {
            code,
            message: self.message(),
            recoverable: self.recoverable(),
        }
    }

    /// The envelope as one JSON object, with the message text escaped.
    pub fn to_json(&self) -> (r: String)
        ensures
            r@ == json_of_payload(spec_code(self@), spec_message(self@), spec_recoverable(self@)),
    {
        let p = self.payload();
        let mut out = "{\"code\":\"".to_owned();
        let code_esc = json_escape_str(p.code.as_str());
        out.append(code_esc.as_str());
        out.append("\",\"message\":\"");
        let msg_esc = json_escape_str(p.message.as_str());
        out.append(msg_esc.as_str());
        out.append("\",\"recoverable\":");
        if p.recoverable {
            out.append("true");
        } else {
            out.append("false");
        }
        out.append("}");
        out
    }
}

/// The hexadecimal digit for a value below sixteen.
pub open spec fn hex_digit(d: nat) -> char {
    if d == 0 { '0' }
    else if d == 1 { '1' }
    else if d == 2 { '2' }
    else if d == 3 { '3' }
    else if d == 4 { '4' }
    else if d == 5 { '5' }
    else if d == 6 { '6' }
    else if d == 7 { '7' }
    else if d == 8 { '8' }
    else if d == 9 { '9' }
    else if d == 10 { 'a' }
    else if d == 11 { 'b' }
    else if d == 12 { 'c' }
    else if d == 13 { 'd' }
    else if d == 14 { 'e' }
    else { 'f' }
}

/// How one character stands inside a JSON string: quotes and backslashes
/// escaped, the common control characters short, the rest of the control
/// range in `\u00..` form, everything else as itself.
pub open spec fn json_esc_char(c: char) -> Seq<char> {
    if c == '"' {
        seq!['\\', '"']
    } else if c == '\\' {
        seq!['\\', '\\']
    } else if c == '\n' {
        seq!['\\', 'n']
    } else if c == '\r' {
        seq!['\\', 'r']
    } else if c == '\t' {
        seq!['\\', 't']
    } else if (c as u32) < 32 {
        seq!['\\', 'u', '0', '0', hex_digit(((c as u32) / 16) as nat), hex_digit(
            ((c as u32) % 16) as nat,
        )]
    } else {
        seq![c]
    }
}

pub open spec fn json_escape(s: Seq<char>) -> Seq<char>
    decreases s.len(),
{
    if s.len() == 0 {
        s
    } else {
        json_esc_char(s[0]) + json_escape(s.skip(1))
    }
}

/// The whole envelope as JSON text.
pub open spec fn json_of_payload(code: Seq<char>, message: Seq<char>, recoverable: bool) -> Seq<
    char,
> {
    "{\"code\":\""@ + json_escape(code) + "\",\"message\":\""@ + json_escape(message)
        + "\",\"recoverable\":"@ + (if recoverable {
        "true"@
    } else {
        "false"@
    }) + "}"@
}

fn hex_digit_exec(d: u32) -> (c: char)
    requires
        d < 16,
    ensures
        c == hex_digit(d as nat),
{
    if d == 0 { '0' }
    else if d == 1 { '1' }
    else if d == 2 { '2' }
    else if d == 3 { '3' }
    else if d == 4 { '4' }
    else if d == 5 { '5' }
    else if d == 6 { '6' }
    else if d == 7 { '7' }
    else if d == 8 { '8' }
    else if d == 9 { '9' }
    else if d == 10 { 'a' }
    else if d == 11 { 'b' }
    else if d == 12 { 'c' }
    else if d == 13 { 'd' }
    else if d == 14 { 'e' }
    else { 'f' }
}

#[verifier::loop_isolation(false)]
fn json_escape_str(s: &str) -> (r: String)
    ensures
        r@ == json_escape(s@),
{
    let v = crate::strutil::chars_of(s);
    let mut out = String::new();
    let mut i: usize = 0;
    proof {
        assert(v@.skip(0) =~= v@);
    }
    while i < v.len()
        invariant
            i <= v@.len(),
            json_escape(s@) == out@ + json_escape(v@.skip(i as int)),
        decreases v@.len() - i,
    {
        let c = v[i];
        let ghost outp = out@;
        if c == '"' {
            push_char(&mut out, '\\');
            push_char(&mut out, '"');
        } else if c == '\\' {
            push_char(&mut out, '\\');
            push_char(&mut out, '\\');
        } else if c == '\n' {
            push_char(&mut out, '\\');
            push_char(&mut out, 'n');
        } else if c == '\r' {
            push_char(&mut out, '\\');
            push_char(&mut out, 'r');
        } else if c == '\t' {
            push_char(&mut out, '\\');
            push_char(&mut out, 't');
        } else {
            #[verifier::truncate]
            let u = c as u32;
            if u < 32 {
                push_char(&mut out, '\\');
                push_char(&mut out, 'u');
                push_char(&mut out, '0');
                push_char(&mut out, '0');
                push_char(&mut out, hex_digit_exec(u / 16));
                push_char(&mut out, hex_digit_exec(u % 16));
            } else {
                push_char(&mut out, c);
            }
        }
        proof {
            assert(out@ =~= outp + json_esc_char(c));
            assert(v@.skip(i as int).skip(1) =~= v@.skip(i + 1));
            assert(out@ + json_escape(v@.skip(i + 1)) =~= outp + (json_esc_char(c) + json_escape(
                v@.skip(i + 1),
            )));
        }
        i += 1;
    }
    proof {
        assert(json_escape(v@.skip(i as int)) =~= Seq::<char>::empty());
        assert(out@ + Seq::<char>::empty() =~= out@);
    }
    out
}

} // verus!
