//! Access tokens for a development server.
use livekit_api::access_token::{AccessToken, AccessTokenError, VideoGrants};
use vstd::prelude::*;
use vstd::string::StringExecFns;

verus! {

/// What a token is to say, and the key pair to sign it with.
pub struct TokenRequest {
    pub api_key: String,
    pub api_secret: String,
    pub identity: String,
    pub name: String,
    pub room_join: bool,
    pub room: String,
    pub can_publish: bool,
    pub can_subscribe: bool,
}

/// A [`TokenRequest`] with its texts as sequences of characters.
pub struct TokenRequestView {
    pub api_key: Seq<char>,
    pub api_secret: Seq<char>,
    pub identity: Seq<char>,
    pub name: Seq<char>,
    pub room_join: bool,
    pub room: Seq<char>,
    pub can_publish: bool,
    pub can_subscribe: bool,
}

impl View for TokenRequest {
    type V = TokenRequestView;

    open spec fn view(&self) -> TokenRequestView {
        TokenRequestView {
            api_key: self.api_key@,
            api_secret: self.api_secret@,
            identity: self.identity@,
            name: self.name@,
            room_join: self.room_join,
            room: self.room@,
            can_publish: self.can_publish,
            can_subscribe: self.can_subscribe,
        }
    }
}

/// Why there is no token.
#[derive(Clone, PartialEq, Eq, Debug)]
pub enum TokenError {
    InvalidKeys,
    InvalidEnv,
    InvalidClaims(String),
    Encoding,
}

impl TokenError {
    /// The reason in words.
    pub fn message(&self) -> (s: String)
        ensures
            s@ == match *self {
                TokenError::InvalidKeys => "Invalid API Key or Secret Key"@,
                TokenError::InvalidEnv => "Invalid environment"@,
                TokenError::InvalidClaims(why) => "invalid claims: "@ + why@,
                TokenError::Encoding => "failed to encode jwt"@,
            },
    {
        match self {
            TokenError::InvalidKeys => "Invalid API Key or Secret Key".to_string(),
            TokenError::InvalidEnv => "Invalid environment".to_string(),
            TokenError::InvalidClaims(why) => "invalid claims: ".to_string().concat(why.as_str()),
            TokenError::Encoding => "failed to encode jwt".to_string(),
        }
    }
}

/// The token for a request that is made when the system clock stands at
/// `issued` seconds.
pub uninterp spec fn jwt_text(request: TokenRequestView, issued: nat) -> Seq<char>;

/// Which requests are refused, and how: one without a key pair, and one that is
/// to let someone into a room but does not say whom or where. Any other comes to
/// a token, unless the encoding fails.
pub open spec fn is_judged(request: TokenRequestView, r: Result<String, TokenError>) -> bool {
    if request.api_key.len() == 0 || request.api_secret.len() == 0 {
        r matches Err(TokenError::InvalidKeys)
    } else if request.room_join && (request.identity.len() == 0 || request.room.len() == 0) {
        r matches Err(TokenError::InvalidClaims(why)) && why@
            == "token grants room_join but doesn't have an identity or room"@
    } else {
        r matches Err(e) ==> e is Encoding
    }
}

/// What a request for a token can come to: a refusal, or the token for the time
/// of the call.
pub open spec fn is_outcome(request: TokenRequestView, r: Result<String, TokenError>) -> bool {
    &&& is_judged(request, r)
    &&& r matches Ok(jwt) ==> exists|issued: nat| jwt@ == #[trigger] jwt_text(request, issued)
}

/// Calls `AccessToken::with_api_key`, its builder methods and
/// `AccessToken::to_jwt`. The claim is which requests are refused and with
/// which error, and that a token depends on nothing but the request and the
/// second that the system clock shows. Not said is what a token looks like, nor
/// when the encoding fails. The call panics where the clock stands before 1970.
#[verifier::external_body]
fn access_token(r: &TokenRequest) -> (res: Result<String, TokenError>)
    ensures
        is_judged(r@, res),
        res matches Ok(jwt) ==> exists|issued: nat| jwt@ == #[trigger] jwt_text(r@, issued),
{
    let token = AccessToken::with_api_key(&r.api_key, &r.api_secret);
    let grants = VideoGrants {
        room_join: r.room_join,
        room: r.room.clone(),
        can_publish: Some(r.can_publish),
        can_subscribe: Some(r.can_subscribe),
        ..Default::default()
    };
    match token.with_identity(&r.identity).with_name(&r.name).with_grants(grants).to_jwt() {
        Ok(jwt) => Ok(jwt),
        Err(AccessTokenError::InvalidKeys) => Err(TokenError::InvalidKeys),
        Err(AccessTokenError::InvalidEnv(_)) => Err(TokenError::InvalidEnv),
        Err(AccessTokenError::InvalidClaims(s)) => Err(TokenError::InvalidClaims(s.to_string())),
        Err(AccessTokenError::Encoding(_)) => Err(TokenError::Encoding),
    }
}

/// What a probe asks of a development server: to join its one room and publish
/// there, but not to listen.
pub open spec fn dev_request_of(identity: Seq<char>, name: Seq<char>) -> TokenRequestView {
    TokenRequestView {
        api_key: "devkey"@,
        api_secret: "secret"@,
        identity,
        name,
        room_join: true,
        room: "spike"@,
        can_publish: true,
        can_subscribe: false,
    }
}

/// What a probe asks of a development server.
pub fn dev_request(identity: &str, name: &str) -> (r: TokenRequest)
    ensures
        r@ == dev_request_of(identity@, name@),
{
    TokenRequest {
        api_key: "devkey".to_string(),
        api_secret: "secret".to_string(),
        identity: identity.to_string(),
        name: name.to_string(),
        room_join: true,
        room: "spike".to_string(),
        can_publish: true,
        can_subscribe: false,
    }
}

/// A token for a development server.
pub fn mint_dev_token(identity: &str, name: &str) -> (r: Result<String, TokenError>)
    ensures
        is_outcome(dev_request_of(identity@, name@), r),
{
    access_token(&dev_request(identity, name))
}

/// The token to connect with: the one that was given, else one for a
/// development server.
pub fn token_or_minted(given: Option<String>, identity: &str, name: &str) -> (r: Result<
    String,
    TokenError,
>)
    ensures
        match given {
            Some(token) => r == Ok::<String, TokenError>(token),
            None => is_outcome(dev_request_of(identity@, name@), r),
        },
{
    match given {
        Some(token) => Ok(token),
        None => mint_dev_token(identity, name),
    }
}

/// A probe that does not say who it is gets no token, and any other is only
/// ever denied one because the encoding failed.
pub proof fn law_dev_token_needs_identity(
    identity: Seq<char>,
    name: Seq<char>,
    r: Result<String, TokenError>,
)
    requires
        is_outcome(dev_request_of(identity, name), r),
    ensures
        identity.len() == 0 ==> r matches Err(TokenError::InvalidClaims(_)),
        identity.len() > 0 ==> (r matches Err(e) ==> e is Encoding),
{
    reveal_strlit("devkey");
    reveal_strlit("secret");
    reveal_strlit("spike");
}

/// A probe's request is signed with the development keys, names the probe as it
/// says, and asks to join the one room and to publish there, but not to listen.
pub proof fn law_dev_request_says_who_and_where(identity: Seq<char>, name: Seq<char>)
    ensures
        dev_request_of(identity, name).api_key == "devkey"@,
        dev_request_of(identity, name).api_secret == "secret"@,
        dev_request_of(identity, name).identity == identity,
        dev_request_of(identity, name).name == name,
        dev_request_of(identity, name).room_join,
        dev_request_of(identity, name).room == "spike"@,
        dev_request_of(identity, name).can_publish,
        !dev_request_of(identity, name).can_subscribe,
{
}

/// A token is only ever had with both keys and, to join a room, with an identity
/// and a room; what is lacking decides the refusal, the keys first.
pub proof fn law_refusals_tell_what_is_lacking(r: TokenRequestView, out: Result<String, TokenError>)
    requires
        is_judged(r, out),
    ensures
        ({
            let no_keys = r.api_key.len() == 0 || r.api_secret.len() == 0;
            let no_place = r.room_join && (r.identity.len() == 0 || r.room.len() == 0);
            &&& out is Ok ==> !no_keys && !no_place
            &&& no_keys <==> (out is Err && out->Err_0 is InvalidKeys)
            &&& (!no_keys && no_place) <==> (out is Err && out->Err_0 is InvalidClaims)
            &&& out is Err && out->Err_0 is InvalidClaims ==> out->Err_0->InvalidClaims_0@
                == "token grants room_join but doesn't have an identity or room"@
            &&& !(out is Err && out->Err_0 is InvalidEnv)
        }),
{
}

/// A token that was had is one for the request, made at some second.
pub proof fn law_token_is_for_the_request(r: TokenRequestView, out: Result<String, TokenError>)
    requires
        is_outcome(r, out),
    ensures
        is_judged(r, out),
        out matches Ok(jwt) ==> exists|issued: nat| jwt@ == #[trigger] jwt_text(r, issued),
{
}

/// A request is seen for what it says.
pub proof fn law_request_is_seen_as_it_is(r: TokenRequest)
    ensures
        r@.api_key == r.api_key@,
        r@.api_secret == r.api_secret@,
        r@.identity == r.identity@,
        r@.name == r.name@,
        r@.room_join == r.room_join,
        r@.room == r.room@,
        r@.can_publish == r.can_publish,
        r@.can_subscribe == r.can_subscribe,
{
}

} // verus!
