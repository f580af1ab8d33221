//! What is sent to the token endpoint, and what it answers.

use vstd::prelude::*;
use vstd::string::StringExecFns;

verus! {

/// The grant type of a password login.
pub const GRANT_PASSWORD: &'static str = "password";

/// The grant type of a token renewal.
pub const GRANT_REFRESH_TOKEN: &'static str = "refresh_token";

/// The client that the agent presents itself as.
pub const CLIENT_ID: &'static str = "browser";

/// The device type that the agent presents itself as.
pub const DEVICE_TYPE: u8 = 21;

/// The device name that the agent presents itself as.
pub const DEVICE_NAME: &'static str = "bw-ssh-agent";

/// The scope that a password login asks for.
pub const SCOPE: &'static str = "api offline_access";

/// The fields of a form as mathematical values: names and values in order.
pub open spec fn form_view(fields: Seq<(String, String)>) -> Seq<(Seq<char>, Seq<char>)> {
    fields.map_values(|pair: (String, String)| (pair.0@, pair.1@))
}

/// The text of one decimal digit.
pub open spec fn digit_char(d: int) -> char
    recommends
        0 <= d < 10,
{
    if d == 0 {
        '0'
    } else if d == 1 {
        '1'
    } else if d == 2 {
        '2'
    } else if d == 3 {
        '3'
    } else if d == 4 {
        '4'
    } else if d == 5 {
        '5'
    } else if d == 6 {
        '6'
    } else if d == 7 {
        '7'
    } else if d == 8 {
        '8'
    } else {
        '9'
    }
}

/// A number below 256 in decimal digits, without leading zeros.
pub open spec fn decimal_u8(n: u8) -> Seq<char> {
    if n < 10 {
        seq![digit_char(n as int)]
    } else if n < 100 {
        seq![digit_char(n as int / 10), digit_char(n as int % 10)]
    } else {
        seq![digit_char(n as int / 100), digit_char(n as int / 10 % 10), digit_char(n as int % 10)]
    }
}

fn digit_text(d: u8) -> (text: &'static str)
    requires
        d < 10,
    ensures
        text@ == seq![digit_char(d as int)],
{
    proof {
        reveal_strlit("0");
        reveal_strlit("1");
        reveal_strlit("2");
        reveal_strlit("3");
        reveal_strlit("4");
        reveal_strlit("5");
        reveal_strlit("6");
        reveal_strlit("7");
        reveal_strlit("8");
        reveal_strlit("9");
    }
    let text = match d {
        0 => "0",
        1 => "1",
        2 => "2",
        3 => "3",
        4 => "4",
        5 => "5",
        6 => "6",
        7 => "7",
        8 => "8",
        _ => "9",
    };
    assert(text@ =~= seq![digit_char(d as int)]);
    text
}

/// Writes a number below 256 in decimal digits.
pub fn u8_to_decimal(n: u8) -> (text: String)
    ensures
        text@ == decimal_u8(n),
{
    let text = if n < 10 {
        String::from_str(digit_text(n))
    } else if n < 100 {
        String::from_str(digit_text(n / 10)).concat(digit_text(n % 10))
    } else {
        String::from_str(digit_text(n / 100)).concat(digit_text(n / 10 % 10)).concat(
            digit_text(n % 10),
        )
    };
    assert(text@ =~= decimal_u8(n));
    text
}

/// A password login, as the token endpoint wants it.
#[derive(Debug, Clone, PartialEq, Eq)]
pub struct PasswordTokenRequest {
    grant_type: &'static str,
    client_id: &'static str,
    device_type: u8,
    device_identifier: String,
    device_name: &'static str,
    username: String,
    password: String,
    scope: &'static str,
}

/// A password login as a mathematical value.
pub struct PasswordTokenRequestView {
    pub grant_type: Seq<char>,
    pub client_id: Seq<char>,
    pub device_type: u8,
    pub device_identifier: Seq<char>,
    pub device_name: Seq<char>,
    pub username: Seq<char>,
    pub password: Seq<char>,
    pub scope: Seq<char>,
}

impl View for PasswordTokenRequest {
    type V = PasswordTokenRequestView;

    closed spec fn view(&self) -> PasswordTokenRequestView {
        PasswordTokenRequestView {
            grant_type: self.grant_type@,
            client_id: self.client_id@,
            device_type: self.device_type,
            device_identifier: self.device_identifier@,
            device_name: self.device_name@,
            username: self.username@,
            password: self.password@,
            scope: self.scope@,
        }
    }
}

/// The password login of a user from a device. `password` is the hash of
/// the master key, never the master password itself.
pub open spec fn password_token_request(
    username: Seq<char>,
    password: Seq<char>,
    device_identifier: Seq<char>,
) -> PasswordTokenRequestView {
    PasswordTokenRequestView {
        grant_type: GRANT_PASSWORD@,
        client_id: CLIENT_ID@,
        device_type: DEVICE_TYPE,
        device_identifier,
        device_name: DEVICE_NAME@,
        username,
        password,
        scope: SCOPE@,
    }
}

/// The form that carries a password login.
pub open spec fn password_form(r: PasswordTokenRequestView) -> Seq<(Seq<char>, Seq<char>)> {
    seq![
        ("grant_type"@, r.grant_type),
        ("client_id"@, r.client_id),
        ("deviceType"@, decimal_u8(r.device_type)),
        ("deviceName"@, r.device_name),
        ("deviceIdentifier"@, r.device_identifier),
        ("username"@, r.username),
        ("password"@, r.password),
        ("scope"@, r.scope),
        ("devicePushToken"@, Seq::<char>::empty()),
    ]
}

/// Whether a character is a hexadecimal digit in lower case.
pub open spec fn is_lower_hex(c: char) -> bool {
    ('0' <= c <= '9') || ('a' <= c <= 'f')
}

/// Whether a text has the form of a version 4 UUID: 32 hexadecimal digits
/// in lower case in five groups with a hyphen between them, the first
/// digit of the third group a 4, and the first digit of the fourth group
/// one of 8, 9, a and b.
pub open spec fn is_uuid_v4_text(text: Seq<char>) -> bool {
    &&& text.len() == 36
    &&& forall|i: int|
        0 <= i < 36 ==> if i == 8 || i == 13 || i == 18 || i == 23 {
            #[trigger] text[i] == '-'
        } else {
            is_lower_hex(text[i])
        }
    &&& text[14] == '4'
    &&& (text[19] == '8' || text[19] == '9' || text[19] == 'a' || text[19] == 'b')
}

/// Calls `uuid::Uuid::new_v4` and writes the identifier in its hyphenated
/// form. The identifier is random: only its form is promised.
#[verifier::external_body]
fn random_device_identifier() -> (id: String)
    ensures
        is_uuid_v4_text(id@),
{
    uuid::Uuid::new_v4().to_string()
}

fn field(name: &'static str, value: &str) -> (pair: (String, String))
    ensures
        pair.0@ == name@,
        pair.1@ == value@,
{
    (String::from_str(name), String::from_str(value))
}

impl PasswordTokenRequest {
    /// The login of `username` from the device that `device_identifier`
    /// names.
    pub fn with_device_identifier(
        username: &str,
        password: &str,
        device_identifier: String,
    ) -> (request: Self)
        ensures
            request@ == password_token_request(username@, password@, device_identifier@),
    {
        Self {
            grant_type: GRANT_PASSWORD,
            client_id: CLIENT_ID,
            device_type: DEVICE_TYPE,
            device_identifier,
            device_name: DEVICE_NAME,
            username: String::from_str(username),
            password: String::from_str(password),
            scope: SCOPE,
        }
    }

    /// The login of `username` from a device with a fresh random identifier,
    /// a version 4 UUID.
    pub fn new(username: &str, password: &str) -> (request: Self)
        ensures
            request@ == password_token_request(
                username@,
                password@,
                request@.device_identifier,
            ),
            is_uuid_v4_text(request@.device_identifier),
    {
        Self::with_device_identifier(username, password, random_device_identifier())
    }

    /// The fields of the form that carries the login, in order.
    pub fn form_fields(&self) -> (fields: Vec<(String, String)>)
        ensures
            form_view(fields@) == password_form(self@),
    {
        let mut fields: Vec<(String, String)> = Vec::new();
        fields.push(field("grant_type", self.grant_type));
        fields.push(field("client_id", self.client_id));
        fields.push((String::from_str("deviceType"), u8_to_decimal(self.device_type)));
        fields.push(field("deviceName", self.device_name));
        fields.push(field("deviceIdentifier", self.device_identifier.as_str()));
        fields.push(field("username", self.username.as_str()));
        fields.push(field("password", self.password.as_str()));
        fields.push(field("scope", self.scope));
        fields.push(field("devicePushToken", ""));
        proof {
            reveal_strlit("");
            assert(""@ =~= Seq::<char>::empty());
            assert(form_view(fields@) =~= password_form(self@));
        }
        fields
    }
}

/// A token renewal, as the token endpoint wants it.
#[derive(Debug, Clone, PartialEq, Eq)]
pub struct RenewTokenRequest {
    grant_type: &'static str,
    client_id: &'static str,
    refresh_token: String,
}

/// A token renewal as a mathematical value.
pub struct RenewTokenRequestView {
    pub grant_type: Seq<char>,
    pub client_id: Seq<char>,
    pub refresh_token: Seq<char>,
}

impl View for RenewTokenRequest {
    type V = RenewTokenRequestView;

    closed spec fn view(&self) -> RenewTokenRequestView {
        RenewTokenRequestView {
            grant_type: self.grant_type@,
            client_id: self.client_id@,
            refresh_token: self.refresh_token@,
        }
    }
}

/// The renewal that a refresh token asks for.
pub open spec fn renew_token_request(refresh_token: Seq<char>) -> RenewTokenRequestView {
    RenewTokenRequestView {
        grant_type: GRANT_REFRESH_TOKEN@,
        client_id: CLIENT_ID@,
        refresh_token,
    }
}

/// The form that carries a token renewal.
pub open spec fn renew_form(r: RenewTokenRequestView) -> Seq<(Seq<char>, Seq<char>)> {
    seq![
        ("grant_type"@, r.grant_type),
        ("client_id"@, r.client_id),
        ("refresh_token"@, r.refresh_token),
    ]
}

impl RenewTokenRequest {
    pub fn new(refresh_token: &str) -> (request: Self)
        ensures
            request@ == renew_token_request(refresh_token@),
    {
        Self {
            grant_type: GRANT_REFRESH_TOKEN,
            client_id: CLIENT_ID,
            refresh_token: String::from_str(refresh_token),
        }
    }

    /// The fields of the form that carries the renewal, in order.
    pub fn form_fields(&self) -> (fields: Vec<(String, String)>)
        ensures
            form_view(fields@) == renew_form(self@),
    {
        let mut fields: Vec<(String, String)> = Vec::new();
        fields.push(field("grant_type", self.grant_type));
        fields.push(field("client_id", self.client_id));
        fields.push(field("refresh_token", self.refresh_token.as_str()));
        assert(form_view(fields@) =~= renew_form(self@));
        fields
    }
}

/// What can be sent to the token endpoint.
#[derive(Debug, Clone, PartialEq, Eq)]
pub enum TokenConnectRequest {
    Password(PasswordTokenRequest),
    Renew(RenewTokenRequest),
}

/// The form that carries a request to the token endpoint.
pub open spec fn token_form(r: TokenConnectRequest) -> Seq<(Seq<char>, Seq<char>)> {
    match r {
        TokenConnectRequest::Password(request) => password_form(request@),
        TokenConnectRequest::Renew(request) => renew_form(request@),
    }
}

/// The body that a form has once it is URL-encoded, as
/// `serde_urlencoded::to_string` writes it; `None` where it refuses the form.
pub uninterp spec fn form_urlencoded(fields: Seq<(Seq<char>, Seq<char>)>) -> Option<Seq<char>>;

/// Calls `serde_urlencoded::to_string` on the pairs of a form, which writes
/// them as `application/x-www-form-urlencoded` text.
#[verifier::external_body]
fn urlencode_form(fields: &Vec<(String, String)>) -> (body: Option<String>)
    ensures
        match body {
            Some(text) => form_urlencoded(form_view(fields@)) == Some(text@),
            None => form_urlencoded(form_view(fields@)) is None,
        },
{
    serde_urlencoded::to_string(fields).ok()
}

impl TokenConnectRequest {
    /// The fields of the form that carries the request, in order.
    pub fn form_fields(&self) -> (fields: Vec<(String, String)>)
        ensures
            form_view(fields@) == token_form(*self),
    {
        match self {
            TokenConnectRequest::Password(request) => request.form_fields(),
            TokenConnectRequest::Renew(request) => request.form_fields(),
        }
    }

    /// The URL-encoded body that carries the request.
    pub fn form_body(&self) -> (body: Option<String>)
        ensures
            match body {
                Some(text) => form_urlencoded(token_form(*self)) == Some(text@),
                None => form_urlencoded(token_form(*self)) is None,
            },
    {
        let fields = self.form_fields();
        urlencode_form(&fields)
    }
}

/// What the token endpoint answers to a password login.
#[derive(Default, Debug, Clone, PartialEq)]
pub struct IdentityTokenSuccessResponse {
    pub kdf: u32,
    pub kdf_iterations: u32,
    pub kdf_memory: Option<i64>,
    pub kdf_parallelism: Option<i64>,
    pub key: String,
    pub private_key: String,
    pub reset_master_password: bool,
    pub access_token: String,
    pub refresh_token: String,
    pub expires_in: u64,
    pub scope: String,
    pub token_type: String,
}

/// What the token endpoint answers to a renewal.
#[derive(Debug, Clone, PartialEq)]
pub struct IdentityTokenRefreshResponse {
    pub access_token: String,
    pub expires_in: u64,
    pub refresh_token: Option<String>,
}

} // verus!
