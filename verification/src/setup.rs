//! What the bot is started with: its token, its application identifier and
//! the activity it shows, each decided from values read by the caller.

use crate::channel_id::{parse_decimal, parsed};
use crate::error::Describe;
use crate::text::text_of;
use crate::token::{middle_part_fits, token_fits};
use vstd::prelude::*;
use vstd::string::StringExecFns;

verus! {

/// Why the bot cannot be started.
#[derive(Clone, Copy, Debug, PartialEq, Eq, Structural)]
pub enum SetupError {
    MissingToken,
    InvalidToken,
    MissingAppId,
    InvalidAppId,
}

impl Describe for SetupError {
    open spec fn text(&self) -> Seq<char> {
        match self {
            SetupError::MissingToken => "missing MEMER_TOKEN environment variable"@,
            SetupError::InvalidToken => "invalid MEMER_TOKEN environment variable"@,
            SetupError::MissingAppId => "missing MEMER_APPLICATION_ID environment variable"@,
            SetupError::InvalidAppId => "invalid MEMER_APPLICATION_ID environment variable"@,
        }
    }

    fn describe(&self) -> (words: String) {
        match self {
            SetupError::MissingToken => String::from_str(
                "missing MEMER_TOKEN environment variable",
            ),
            SetupError::InvalidToken => String::from_str(
                "invalid MEMER_TOKEN environment variable",
            ),
            SetupError::MissingAppId => String::from_str(
                "missing MEMER_APPLICATION_ID environment variable",
            ),
            SetupError::InvalidAppId => String::from_str(
                "invalid MEMER_APPLICATION_ID environment variable",
            ),
        }
    }
}

/// Whether `serenity` finds that `token` has the form of a bot token.
pub uninterp spec fn token_is_valid(token: Seq<char>) -> bool;

/// `serenity::utils::validate_token`: whether the token has the form of one.
/// It reads the number that the token's middle part stands for into a signed
/// number of 64 bits, byte by byte: a token whose number does not fit 63
/// bits is left out.
#[verifier::external_body]
fn validate_token(token: &String) -> (valid: bool)
    requires
        token_fits(token@),
    ensures
        valid == token_is_valid(token@),
{
    poise::serenity_prelude::validate_token(token).is_ok()
}

/// What becomes of a token that is known to be valid or not.
pub open spec fn checked(token: Seq<char>, valid: bool) -> Result<Seq<char>, SetupError> {
    if valid {
        Ok(token)
    } else {
        Err(SetupError::InvalidToken)
    }
}

/// The token that the value of `MEMER_TOKEN` gives: missing where the
/// variable is not set, invalid where the number of its middle part does not
/// fit 63 bits or it has not the form of a token.
pub open spec fn token_for(var: Option<Seq<char>>) -> Result<Seq<char>, SetupError> {
    match var {
        None => Err(SetupError::MissingToken),
        Some(given) => checked(given, token_fits(given) && token_is_valid(given)),
    }
}

/// The application identifier that the value of `MEMER_APPLICATION_ID`
/// gives: missing where the variable is not set, invalid where it does not
/// spell a number of 64 bits.
pub open spec fn app_id_for(var: Option<Seq<char>>) -> Result<u64, SetupError> {
    match var {
        None => Err(SetupError::MissingAppId),
        Some(given) => match parsed(given) {
            Some(id) => Ok(id),
            None => Err(SetupError::InvalidAppId),
        },
    }
}

/// Both together; the token's error comes first.
pub open spec fn token_app_id_for(
    token_var: Option<Seq<char>>,
    app_id_var: Option<Seq<char>>,
) -> Result<(Seq<char>, u64), SetupError> {
    match token_for(token_var) {
        Err(e) => Err(e),
        Ok(token) => match app_id_for(app_id_var) {
            Err(e) => Err(e),
            Ok(id) => Ok((token, id)),
        },
    }
}

/// Takes a token that is known to be valid or not: a valid one is handed
/// back, an invalid one is refused.
pub fn checked_token(token: String, valid: bool) -> (read: Result<String, SetupError>)
    ensures
        match read {
            Ok(same) => checked(token@, valid) == Ok::<Seq<char>, SetupError>(same@),
            Err(e) => checked(token@, valid) == Err::<Seq<char>, SetupError>(e),
        },
{
    if valid {
        Ok(token)
    } else {
        Err(SetupError::InvalidToken)
    }
}

/// The bot token, from the value of `MEMER_TOKEN`.
pub fn token(var: Option<String>) -> (read: Result<String, SetupError>)
    ensures
        match read {
            Ok(token) => token_for(text_of(var)) == Ok::<Seq<char>, SetupError>(token@),
            Err(e) => token_for(text_of(var)) == Err::<Seq<char>, SetupError>(e),
        },
{
    match var {
        None => Err(SetupError::MissingToken),
        Some(given) => {
            let valid = middle_part_fits(given.as_str()) && validate_token(&given);
            checked_token(given, valid)
        },
    }
}

/// The application identifier, from the value of `MEMER_APPLICATION_ID`.
pub fn app_id(var: Option<String>) -> (read: Result<u64, SetupError>)
    ensures
        read == app_id_for(text_of(var)),
{
    match var {
        None => Err(SetupError::MissingAppId),
        Some(given) => match parse_decimal(given.as_str()) {
            Some(id) => Ok(id),
            None => Err(SetupError::InvalidAppId),
        },
    }
}

/// The token and the application identifier together. The token is looked at
/// first, so that its error is the one reported where both are wrong.
pub fn token_app_id(token_var: Option<String>, app_id_var: Option<String>) -> (read: Result<
    (String, u64),
    SetupError,
>)
    ensures
        match read {
            Ok(pair) => token_app_id_for(text_of(token_var), text_of(app_id_var)) == Ok::<
                (Seq<char>, u64),
                SetupError,
            >((pair.0@, pair.1)),
            Err(e) => token_app_id_for(text_of(token_var), text_of(app_id_var)) == Err::<
                (Seq<char>, u64),
                SetupError,
            >(e),
        },
{
    let token = match token(token_var) {
        Ok(token) => token,
        Err(e) => {
            return Err(e);
        },
    };
    match app_id(app_id_var) {
        Ok(id) => Ok((token, id)),
        Err(e) => Err(e),
    }
}

/// What the bot shows itself as doing.
#[derive(Debug, PartialEq, Eq)]
pub enum Activity {
    Competing { name: String },
    Listening { name: String },
    Playing { name: String },
    Streaming { name: String, url: String },
    Watching { name: String },
}

/// An [`Activity`] as mathematical values.
pub enum ActivityView {
    Competing { name: Seq<char> },
    Listening { name: Seq<char> },
    Playing { name: Seq<char> },
    Streaming { name: Seq<char>, url: Seq<char> },
    Watching { name: Seq<char> },
}

impl View for Activity {
    type V = ActivityView;

    open spec fn view(&self) -> ActivityView {
        match self {
            Activity::Competing { name } => ActivityView::Competing { name: name@ },
            Activity::Listening { name } => ActivityView::Listening { name: name@ },
            Activity::Playing { name } => ActivityView::Playing { name: name@ },
            Activity::Streaming { name, url } => ActivityView::Streaming { name: name@, url: url@ },
            Activity::Watching { name } => ActivityView::Watching { name: name@ },
        }
    }
}

/// Why no activity is shown although one was asked for.
#[derive(Clone, Copy, Debug, PartialEq, Eq, Structural)]
pub enum ActivityWarning {
    /// The kind of activity is none of the five that exist.
    InvalidType,
    /// A stream was asked for without its URL.
    MissingStreaming,
}

impl Describe for ActivityWarning {
    open spec fn text(&self) -> Seq<char> {
        match self {
            ActivityWarning::InvalidType => "invalid MEMER_ACTIVITY_TYPE environment variable"@,
            ActivityWarning::MissingStreaming =>
                "missing MEMER_ACTIVITY_STREAMING environment variable"@,
        }
    }

    fn describe(&self) -> (words: String) {
        match self {
            ActivityWarning::InvalidType => String::from_str(
                "invalid MEMER_ACTIVITY_TYPE environment variable",
            ),
            ActivityWarning::MissingStreaming => String::from_str(
                "missing MEMER_ACTIVITY_STREAMING environment variable",
            ),
        }
    }
}

/// The activity that the settings ask for, or the warning they earn. No kind
/// or no name asks for nothing. A kind other than `competing`, `listening`,
/// `playing`, `streaming` and `watching` is invalid, and so is a stream
/// without a URL.
pub open spec fn activity_for(
    kind: Option<Seq<char>>,
    name: Option<Seq<char>>,
    streaming: Option<Seq<char>>,
) -> Result<Option<ActivityView>, ActivityWarning> {
    match (kind, name) {
        (Some(kind), Some(name)) => {
            if kind == "competing"@ {
                Ok(Some(ActivityView::Competing { name }))
            } else if kind == "listening"@ {
                Ok(Some(ActivityView::Listening { name }))
            } else if kind == "playing"@ {
                Ok(Some(ActivityView::Playing { name }))
            } else if kind == "streaming"@ {
                match streaming {
                    Some(url) => Ok(Some(ActivityView::Streaming { name, url })),
                    None => Err(ActivityWarning::MissingStreaming),
                }
            } else if kind == "watching"@ {
                Ok(Some(ActivityView::Watching { name }))
            } else {
                Err(ActivityWarning::InvalidType)
            }
        },
        _ => Ok(None),
    }
}

/// Chooses the activity to show from the values of `MEMER_ACTIVITY_TYPE`,
/// `MEMER_ACTIVITY_NAME` and `MEMER_ACTIVITY_STREAMING`.
pub fn select_activity(
    kind: Option<String>,
    name: Option<String>,
    streaming: Option<String>,
) -> (chosen: Result<Option<Activity>, ActivityWarning>)
    ensures
        match chosen {
            Ok(Some(activity)) => activity_for(text_of(kind), text_of(name), text_of(streaming))
                == Ok::<Option<ActivityView>, ActivityWarning>(Some(activity@)),
            Ok(None) => activity_for(text_of(kind), text_of(name), text_of(streaming)) == Ok::<
                Option<ActivityView>,
                ActivityWarning,
            >(None),
            Err(warning) => activity_for(text_of(kind), text_of(name), text_of(streaming)) == Err::<
                Option<ActivityView>,
                ActivityWarning,
            >(warning),
        },
{
    let kind = match kind {
        Some(kind) => kind,
        None => {
            return Ok(None);
        },
    };
    let name = match name {
        Some(name) => name,
        None => {
            return Ok(None);
        },
    };
    if kind == String::from_str("competing") {
        Ok(Some(Activity::Competing { name }))
    } else if kind == String::from_str("listening") {
        Ok(Some(Activity::Listening { name }))
    } else if kind == String::from_str("playing") {
        Ok(Some(Activity::Playing { name }))
    } else if kind == String::from_str("streaming") {
        match streaming {
            Some(url) => Ok(Some(Activity::Streaming { name, url })),
            None => Err(ActivityWarning::MissingStreaming),
        }
    } else if kind == String::from_str("watching") {
        Ok(Some(Activity::Watching { name }))
    } else {
        Err(ActivityWarning::InvalidType)
    }
}

} // verus!
